use vstd::prelude::*;

verus! {

/// How a child ended: the status word that waiting on it yielded, as the
/// operating system encodes it.
#[derive(Debug, Copy, Clone, PartialEq, Eq, Hash, Structural)]
pub struct ExitStatus {
    pub raw: i32,
}

impl ExitStatus {
    /// The status with the given status word.
    pub fn from_raw(raw: i32) -> (status: ExitStatus)
        ensures
            status.raw == raw,
    {
        ExitStatus { raw }
    }

    /// The status word.
    pub fn into_raw(self) -> (raw: i32)
        ensures
            raw == self.raw,
    {
        self.raw
    }

    /// Whether the child exited with code zero: the status word is zero.
    pub fn success(self) -> (ok: bool)
        ensures
            ok == (self.raw == 0),
    {
        self.raw == 0
    }
}

} // verus!
