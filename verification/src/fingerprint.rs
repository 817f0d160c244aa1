//! Provides ways to "fingerprint" something

use vstd::prelude::*;

verus! {

pub const FINGER_PRINT_SIZE: usize = 32;

/// Something with a fingerprint of `FINGER_PRINT` bytes.
pub trait Fingerprint<const FINGER_PRINT: usize> {
    fn fingerprint(&self) -> [u8; FINGER_PRINT];

    /// Whether the fingerprint that `fingerprint` gives is the bytes `other`.
    fn matches_fingerprint(&self, other: &[u8]) -> (r: bool)
        ensures
            exists|own: [u8; FINGER_PRINT]| call_ensures(Self::fingerprint, (self,), own) && r == (own@ == other@),
    {
        let own = self.fingerprint();
        let r = same_bytes(&own, other);
        assert(call_ensures(Self::fingerprint, (self,), own));
        r
    }
}

/// Whether two byte slices hold the same bytes.
pub fn same_bytes(a: &[u8], b: &[u8]) -> (r: bool)
    ensures
        r == (a@ == b@),
{
    if a.len() != b.len() {
        return false;
    }
    let mut i: usize = 0;
    while i < a.len()
        invariant
            a@.len() == b@.len(),
            i <= a@.len(),
            forall|k: int| 0 <= k < i ==> a@[k] == b@[k],
        decreases a@.len() - i,
    {
        if a[i] != b[i] {
            return false;
        }
        i = i + 1;
    }
    assert(a@ =~= b@);
    true
}

} // verus!
