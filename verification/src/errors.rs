//! Error taxonomy of the connection layer.
//!
//! The underlying packet stack reports failures as negative integer codes;
//! `result_from_i32` maps them to `CspErrorKind`. Two kinds are raised by this
//! layer itself before any stack call: `NoBuffersAvailable` when the buffer
//! pool is exhausted, and `ConnectFailed` when an active open yields no
//! circuit.

use vstd::prelude::*;

verus! {

/// One failure kind, either reported by the packet stack or raised by this
/// layer.
#[derive(Debug, Clone, Copy, PartialEq, Eq, Structural)]
pub enum CspErrorKind {
    /// No memory available.
    Nomem,
    /// Invalid argument.
    Inval,
    /// Timed out.
    Timedout,
    /// Resource already in use.
    Used,
    /// Operation not supported.
    Notsup,
    /// Device or resource busy.
    Busy,
    /// Already done.
    Already,
    /// Connection reset.
    Reset,
    /// No buffers available, reported by the stack.
    Nobufs,
    /// Transmit failure.
    Tx,
    /// Driver failure.
    Driver,
    /// Try again.
    Again,
    /// Message authentication failure.
    Hmac,
    /// Cipher failure.
    Xtea,
    /// Checksum failure.
    Crc32,
    /// Fragmentation failure.
    Sfp,
    /// A code this layer does not know.
    Unknown(i32),
    /// The buffer pool had no free buffer when this layer asked for one.
    NoBuffersAvailable,
    /// An active open returned no circuit.
    ConnectFailed,
    /// A packet was handed to the stack but could not be sent.
    FailedToSend,
}

/// The kind that a negative stack code stands for.
pub open spec fn kind_of_code(code: i32) -> CspErrorKind {
    if code == -1 {
        CspErrorKind::Nomem
    } else if code == -2 {
        CspErrorKind::Inval
    } else if code == -3 {
        CspErrorKind::Timedout
    } else if code == -4 {
        CspErrorKind::Used
    } else if code == -5 {
        CspErrorKind::Notsup
    } else if code == -6 {
        CspErrorKind::Busy
    } else if code == -7 {
        CspErrorKind::Already
    } else if code == -8 {
        CspErrorKind::Reset
    } else if code == -9 {
        CspErrorKind::Nobufs
    } else if code == -10 {
        CspErrorKind::Tx
    } else if code == -11 {
        CspErrorKind::Driver
    } else if code == -12 {
        CspErrorKind::Again
    } else if code == -100 {
        CspErrorKind::Hmac
    } else if code == -101 {
        CspErrorKind::Xtea
    } else if code == -102 {
        CspErrorKind::Crc32
    } else if code == -103 {
        CspErrorKind::Sfp
    } else {
        CspErrorKind::Unknown(code)
    }
}

/// Maps a status code of the packet stack to a result: zero is success,
/// anything else is the failure kind it stands for.
pub fn result_from_i32(err_code: i32) -> (r: Result<(), CspErrorKind>)
    ensures
        r is Ok <==> err_code == 0,
        err_code != 0 ==> r == Result::<(), CspErrorKind>::Err(kind_of_code(err_code)),
{
    match err_code {
        0 => Ok(()),
        -1 => Err(CspErrorKind::Nomem),
        -2 => Err(CspErrorKind::Inval),
        -3 => Err(CspErrorKind::Timedout),
        -4 => Err(CspErrorKind::Used),
        -5 => Err(CspErrorKind::Notsup),
        -6 => Err(CspErrorKind::Busy),
        -7 => Err(CspErrorKind::Already),
        -8 => Err(CspErrorKind::Reset),
        -9 => Err(CspErrorKind::Nobufs),
        -10 => Err(CspErrorKind::Tx),
        -11 => Err(CspErrorKind::Driver),
        -12 => Err(CspErrorKind::Again),
        -100 => Err(CspErrorKind::Hmac),
        -101 => Err(CspErrorKind::Xtea),
        -102 => Err(CspErrorKind::Crc32),
        -103 => Err(CspErrorKind::Sfp),
        _ => Err(CspErrorKind::Unknown(err_code)),
    }
}

impl CspErrorKind {
    /// A short human-readable description of the kind.
    pub fn description(&self) -> (r: &'static str)
        ensures
            r@ =~= description_of(*self),
    {
        proof {
            reveal_strlit("No memory available");
            reveal_strlit("Invalid argument");
            reveal_strlit("Timed out");
            reveal_strlit("Already in use");
            reveal_strlit("Not supported");
            reveal_strlit("Busy");
            reveal_strlit("Already");
            reveal_strlit("Reset");
            reveal_strlit("No buffers available");
            reveal_strlit("Transmit error");
            reveal_strlit("Driver error");
            reveal_strlit("Again");
            reveal_strlit("HMAC error");
            reveal_strlit("XTEA error");
            reveal_strlit("CRC32 error");
            reveal_strlit("SFP error");
            reveal_strlit("Unknown error code");
            reveal_strlit("No buffers available in the pool");
            reveal_strlit("Failed to connect");
            reveal_strlit("Failed to send packet");
        }
        match self {
            CspErrorKind::Nomem => "No memory available",
            CspErrorKind::Inval => "Invalid argument",
            CspErrorKind::Timedout => "Timed out",
            CspErrorKind::Used => "Already in use",
            CspErrorKind::Notsup => "Not supported",
            CspErrorKind::Busy => "Busy",
            CspErrorKind::Already => "Already",
            CspErrorKind::Reset => "Reset",
            CspErrorKind::Nobufs => "No buffers available",
            CspErrorKind::Tx => "Transmit error",
            CspErrorKind::Driver => "Driver error",
            CspErrorKind::Again => "Again",
            CspErrorKind::Hmac => "HMAC error",
            CspErrorKind::Xtea => "XTEA error",
            CspErrorKind::Crc32 => "CRC32 error",
            CspErrorKind::Sfp => "SFP error",
            CspErrorKind::Unknown(_) => "Unknown error code",
            CspErrorKind::NoBuffersAvailable => "No buffers available in the pool",
            CspErrorKind::ConnectFailed => "Failed to connect",
            CspErrorKind::FailedToSend => "Failed to send packet",
        }
    }
}

/// The description text of each kind.
pub open spec fn description_of(k: CspErrorKind) -> Seq<char> {
    match k {
        CspErrorKind::Nomem => "No memory available"@,
        CspErrorKind::Inval => "Invalid argument"@,
        CspErrorKind::Timedout => "Timed out"@,
        CspErrorKind::Used => "Already in use"@,
        CspErrorKind::Notsup => "Not supported"@,
        CspErrorKind::Busy => "Busy"@,
        CspErrorKind::Already => "Already"@,
        CspErrorKind::Reset => "Reset"@,
        CspErrorKind::Nobufs => "No buffers available"@,
        CspErrorKind::Tx => "Transmit error"@,
        CspErrorKind::Driver => "Driver error"@,
        CspErrorKind::Again => "Again"@,
        CspErrorKind::Hmac => "HMAC error"@,
        CspErrorKind::Xtea => "XTEA error"@,
        CspErrorKind::Crc32 => "CRC32 error"@,
        CspErrorKind::Sfp => "SFP error"@,
        CspErrorKind::Unknown(_) => "Unknown error code"@,
        CspErrorKind::NoBuffersAvailable => "No buffers available in the pool"@,
        CspErrorKind::ConnectFailed => "Failed to connect"@,
        CspErrorKind::FailedToSend => "Failed to send packet"@,
    }
}

/// A failure kind together with the context in which it arose.
#[derive(Debug)]
pub struct CspError {
    /// What went wrong.
    pub kind: CspErrorKind,
    /// Where or why, as free text.
    pub message: String,
}

impl CspError {
    /// Builds an error of the given kind with a context message.
    pub fn new(kind: CspErrorKind, message: String) -> (r: CspError)
        ensures
            r.kind == kind,
            r.message == message,
    {
        CspError { kind, message }
    }
}

} // verus!
