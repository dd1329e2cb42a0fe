//! Path normalization for storage roots, on the raw path bytes. The
//! surrounding configuration layer converts to and from strings; appending a
//! slash byte keeps valid UTF-8 valid.

use vstd::prelude::*;

verus! {

/// The byte of the path separator.
pub const SLASH: u8 = 47;

/// Normalizes a storage directory: the result always ends in exactly the
/// separator the input ended in — the input unchanged when it already ends
/// in a slash, and with one slash appended otherwise (so an empty path
/// becomes the root).
pub fn normalize_dir(dir: &Vec<u8>) -> (r: Vec<u8>)
    ensures
        r@ == if dir@.len() > 0 && dir@.last() == SLASH {
            dir@
        } else {
            dir@.push(SLASH)
        },
        r@.len() > 0,
        r@.last() == SLASH,
{
    let n = dir.len();
    let mut out: Vec<u8> = Vec::new();
    let mut i: usize = 0;
    while i < n
        invariant
            i <= n,
            n == dir@.len(),
            out@ == dir@.take(i as int),
        decreases n - i,
    {
        out.push(dir[i]);
        proof {
            assert(out@ =~= dir@.take(i as int + 1));
        }
        i += 1;
    }
    proof {
        assert(out@ =~= dir@);
    }
    if n == 0 || out[n - 1] != SLASH {
        out.push(SLASH);
    }
    out
}

} // verus!
