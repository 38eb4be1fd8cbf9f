//! The output pump's decision on each read of the pseudo-terminal.
use vstd::prelude::*;

verus! {

/// Size of the buffer the output pump reads into.
pub const PUMP_BUFFER_SIZE: usize = 4096;

/// One read of the pump: `read` is the byte count the read reported, or
/// `None` for a read error. A read of `n > 0` bytes is forwarded as a copy of
/// exactly the first `n` bytes of the buffer; end-of-stream (`0`), an error,
/// or a count the buffer cannot hold stops the pump.
pub fn pump_chunk(buf: &[u8], read: Option<usize>) -> (r: Option<Vec<u8>>)
    ensures
        r is Some <==> (read is Some && 0 < read.unwrap() <= buf@.len()),
        r is Some ==> r.unwrap()@ == buf@.take(read.unwrap() as int),
{
    match read {
        Some(n) => {
            if n == 0 || n > buf.len() {
                None
            } else {
                let chunk = vstd::slice::slice_to_vec(&buf[0..n]);
                assert(buf@.subrange(0, n as int) =~= buf@.take(n as int));
                Some(chunk)
            }
        },
        None => None,
    }
}

} // verus!
