use vstd::prelude::*;

verus! {

/// A byte buffer in guest memory, as a pointer field and its length field
/// describe it. The guest keeps it; it is valid only for one synchronous call.
#[derive(Clone, Copy, Debug, PartialEq, Eq, Structural)]
pub struct Buffer {
    pub addr: usize,
    pub len: usize,
}

impl Buffer {
    /// Whether the whole buffer lies in a guest memory of `memory_len` bytes.
    /// The host checks this before it touches the buffer; an empty buffer at
    /// the end of memory is accepted.
    pub fn within(&self, memory_len: usize) -> (r: bool)
        ensures
            r == (self.addr + self.len <= memory_len),
    {
        self.addr <= memory_len && self.len <= memory_len - self.addr
    }
}

/// What a signed result of a call means: `Ok` with the count when it is zero
/// or positive (zero is a success, such as "no data right now"), `Err` with
/// the code when it is negative, whatever its magnitude.
pub fn interpret(result: isize) -> (r: Result<usize, isize>)
    ensures
        result >= 0 ==> r == Ok::<usize, isize>(result as usize),
        result < 0 ==> r == Err::<usize, isize>(result),
{
    if result >= 0 {
        Ok(result as usize)
    } else {
        Err(result)
    }
}

} // verus!
