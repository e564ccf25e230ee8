use vstd::prelude::*;
use vstd::string::to_string_from_display_ensures;

verus! {

/// A process identifier.
#[derive(Debug, Copy, Clone, PartialEq, Eq, Hash, PartialOrd, Ord, Structural)]
pub struct Pid {
    pub inner: u32,
}

impl Pid {
    /// The identifier as the operating system writes it.
    pub fn new(inner: u32) -> (pid: Pid)
        ensures
            pid.inner == inner,
    {
        Pid { inner }
    }

    /// The identifier in decimal notation, as the number itself is written.
    pub fn to_string(&self) -> (text: String)
        ensures
            to_string_from_display_ensures::<u32>(&self.inner, text),
    {
        self.inner.to_string()
    }
}

} // verus!
