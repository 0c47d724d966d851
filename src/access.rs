use vstd::prelude::*;

verus! {

/// The ASCII bytes of `http://localhost`, the prefix of every local origin.
pub open spec fn localhost_prefix() -> Seq<u8> {
    seq![104u8, 116u8, 116u8, 112u8, 58u8, 47u8, 47u8, 108u8, 111u8, 99u8, 97u8, 108u8, 104u8, 111u8, 115u8, 116u8]
}

/// The ASCII bytes of `null`, the origin a browser sends for a local file.
pub open spec fn null_origin() -> Seq<u8> {
    seq![110u8, 117u8, 108u8, 108u8]
}

/// Whether `origin` may make cross-origin requests: it starts with
/// `http://localhost`, or it is exactly `null`.
pub open spec fn origin_permitted(origin: Seq<u8>) -> bool {
    ||| origin.len() >= localhost_prefix().len() && origin.subrange(0, localhost_prefix().len() as int) == localhost_prefix()
    ||| origin == null_origin()
}

/// Whether `text` begins with `prefix`.
pub fn starts_with(text: &[u8], prefix: &[u8]) -> (r: bool)
    ensures
        r == (prefix@.len() <= text@.len() && text@.subrange(0, prefix@.len() as int) == prefix@),
{
    if prefix.len() > text.len() {
        return false;
    }
    let mut i: usize = 0;
    while i < prefix.len()
        invariant
            prefix@.len() <= text@.len(),
            i <= prefix@.len(),
            forall|j: int| 0 <= j < i ==> text@[j] == prefix@[j],
        decreases prefix@.len() - i,
    {
        if text[i] != prefix[i] {
            assert(text@.subrange(0, prefix@.len() as int)[i as int] != prefix@[i as int]);
            return false;
        }
        i = i + 1;
    }
    assert(text@.subrange(0, prefix@.len() as int) =~= prefix@);
    true
}

/// The cross-origin rule of the service: local origins and `null` only.
pub fn origin_allowed(origin: &[u8]) -> (r: bool)
    ensures
        r == origin_permitted(origin@),
{
    let local: Vec<u8> = vec![104u8, 116u8, 116u8, 112u8, 58u8, 47u8, 47u8, 108u8, 111u8, 99u8, 97u8, 108u8, 104u8, 111u8, 115u8, 116u8];
    let null: Vec<u8> = vec![110u8, 117u8, 108u8, 108u8];
    assert(local@ == localhost_prefix());
    assert(null@ == null_origin());
    if starts_with(origin, local.as_slice()) {
        return true;
    }
    let r = origin.len() == null.len() && starts_with(origin, null.as_slice());
    proof {
        if origin@.len() == 4 {
            assert(origin@ =~= origin@.subrange(0, 4));
        } else {
            assert(origin@.len() != null_origin().len());
        }
    }
    r
}

} // verus!
