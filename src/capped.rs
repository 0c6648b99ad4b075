//! Values read from a stream that may have been cut off at a size limit.

use vstd::prelude::*;

verus! {

/// How much of a stream was read: the bytes kept, and whether that was all
/// of it.
#[derive(Clone, Copy, Debug, PartialEq, Eq, Structural)]
pub struct N {
    pub written: u64,
    pub complete: bool,
}

/// A value read from a stream, with how much of the stream it holds. Being
/// cut off is not an error: the caller decides whether it is acceptable.
#[derive(Debug)]
pub struct Capped<T> {
    pub value: T,
    pub n: N,
}

impl<T> Capped<T> {
    pub fn new(value: T, n: N) -> (r: Capped<T>)
        ensures
            r.value == value,
            r.n == n,
    {
        Capped { value, n }
    }

    /// Whether the whole stream was read.
    pub fn is_complete(&self) -> (r: bool)
        ensures
            r == self.n.complete,
    {
        self.n.complete
    }

    pub fn into_inner(self) -> (r: T)
        ensures
            r == self.value,
    {
        self.value
    }
}

/// How many bytes are kept of a stream of `len` bytes read under `limit`.
pub open spec fn kept(len: nat, limit: u64) -> nat {
    if len <= limit {
        len
    } else {
        limit as nat
    }
}

/// Reads `data` under `limit`: at most `limit` bytes are kept, and the result
/// is complete exactly when nothing was left over.
pub fn read_capped(data: &Vec<u8>, limit: u64) -> (r: Capped<Vec<u8>>)
    ensures
        r.value@ == data@.take(kept(data@.len(), limit) as int),
        r.n.written == kept(data@.len(), limit),
        r.n.complete == (data@.len() <= limit),
{
    let len = data.len();
    let complete = len as u64 <= limit;
    let keep: usize = if complete {
        len
    } else {
        limit as usize
    };
    let mut value: Vec<u8> = Vec::new();
    let mut i: usize = 0;
    while i < keep
        invariant
            keep <= len == data@.len(),
            i <= keep,
            value@ == data@.take(i as int),
        decreases keep - i,
    {
        value.push(data[i]);
        i = i + 1;
        assert(value@ =~= data@.take(i as int));
    }
    Capped { value, n: N { written: keep as u64, complete } }
}

} // verus!
