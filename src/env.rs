//! The engine environment: the serialised start-up state from which every
//! session's execution context is made.
use vstd::prelude::*;

verus! {

/// The serialised heap of a context that has run the bootstrap library.
/// It is made once and only read afterwards; each session gets a copy.
#[derive(Clone)]
pub struct JSEnv {
    pub startup_data: Vec<u8>,
}

impl JSEnv {
    /// An environment holding the snapshot `startup_data`.
    pub fn new(startup_data: Vec<u8>) -> (r: JSEnv)
        ensures
            r.startup_data@ == startup_data@,
    {
        JSEnv { startup_data }
    }

    /// A copy of the snapshot, for a new session's context.
    pub fn snapshot(&self) -> (r: Vec<u8>)
        ensures
            r@ == self.startup_data@,
    {
        let mut r: Vec<u8> = Vec::new();
        let mut i: usize = 0;
        while i < self.startup_data.len()
            invariant
                i <= self.startup_data.len(),
                r@ == self.startup_data@.subrange(0, i as int),
            decreases self.startup_data.len() - i,
        {
            r.push(self.startup_data[i]);
            i = i + 1;
            assert(r@ =~= self.startup_data@.subrange(0, i as int));
        }
        assert(r@ =~= self.startup_data@);
        r
    }
}

} // verus!
