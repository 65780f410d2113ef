//! Whether a report changed since it was archived, told by MD5 digests.

use vstd::prelude::*;

verus! {

/// The MD5 digest of the UTF-8 bytes of a text.
pub uninterp spec fn md5_of_text(s: Seq<char>) -> Seq<u8>;

/// Relies on `md5::compute`: the 16-byte MD5 digest of the bytes of `text`,
/// which depends on those bytes alone.
#[verifier::external_body]
fn md5_digest(text: &str) -> (r: Vec<u8>)
    ensures
        r@ == md5_of_text(text@),
        r@.len() == 16,
{
    md5::compute(text).0.to_vec()
}

/// Whether two digests differ.
pub fn digests_differ(d1: &Vec<u8>, d2: &Vec<u8>) -> (r: bool)
    ensures
        r == (d1@ != d2@),
{
    if d1.len() != d2.len() {
        return true;
    }
    let mut i: usize = 0;
    while i < d1.len()
        invariant
            d1@.len() == d2@.len(),
            i <= d1@.len(),
            forall|j: int| 0 <= j < i ==> d1@[j] == d2@[j],
        decreases d1@.len() - i,
    {
        if d1[i] != d2[i] {
            return true;
        }
        i = i + 1;
    }
    assert(d1@ =~= d2@);
    false
}

/// Whether the archived text `archived` is out of date against `current`:
/// their digests differ.
pub fn updated(current: &str, archived: &str) -> (r: bool)
    ensures
        r == (md5_of_text(current@) != md5_of_text(archived@)),
{
    let d1 = md5_digest(current);
    let d2 = md5_digest(archived);
    digests_differ(&d1, &d2)
}

} // verus!
