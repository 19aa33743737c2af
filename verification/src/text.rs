//! Names as the host reads them: bytes that end with a NUL.
use vstd::prelude::*;
use vstd::string::StringSliceAdditionalSpecFns;

verus! {

/// Whether the bytes end with a NUL, so that the host, which reads a name up
/// to the first NUL, does not read past them.
pub open spec fn nul_terminated(bytes: Seq<u8>) -> bool {
    bytes.len() > 0 && bytes.last() == 0
}

/// Whether the text ends with a NUL.
pub fn is_nul_terminated(text: &str) -> (terminated: bool)
    ensures
        terminated == nul_terminated(text.spec_bytes()),
{
    let bytes = text.as_bytes();
    let len = bytes.len();
    len > 0 && bytes[len - 1] == 0
}

/// Whether two texts hold the same bytes.
pub fn same_text(a: &str, b: &str) -> (same: bool)
    ensures
        same == (a.spec_bytes() == b.spec_bytes()),
{
    let x = a.as_bytes();
    let y = b.as_bytes();
    if x.len() != y.len() {
        return false;
    }
    let len = x.len();
    let mut i: usize = 0;
    while i < len
        invariant
            len == x@.len(),
            len == y@.len(),
            0 <= i <= len,
            forall|j: int| 0 <= j < i ==> x@[j] == y@[j],
            x@ == a.spec_bytes(),
            y@ == b.spec_bytes(),
        decreases len - i,
    {
        if x[i] != y[i] {
            assert(x@[i as int] != y@[i as int]);
            return false;
        }
        i += 1;
    }
    assert(x@ =~= y@);
    true
}

} // verus!
