//! The device path as the open call receives it: a byte string that ends in a
//! zero byte.

use vstd::prelude::*;

verus! {

/// The byte that ends a string handed to the open call.
pub const TERMINATOR: u8 = 0;

/// Whether `p` already ends with the terminator.
pub open spec fn ends_with_terminator(p: Seq<u8>) -> bool {
    p.len() > 0 && p.last() == TERMINATOR
}

/// `p` made to end with a terminator: unchanged when it has one, else with
/// one appended.
pub open spec fn normalized(p: Seq<u8>) -> Seq<u8> {
    if ends_with_terminator(p) {
        p
    } else {
        p.push(TERMINATOR)
    }
}

/// The bytes of `p` before its terminator, if it has one.
pub open spec fn path_body(p: Seq<u8>) -> Seq<u8> {
    if ends_with_terminator(p) {
        p.drop_last()
    } else {
        p
    }
}

/// A path that names something: its body is not empty and holds no zero
/// byte, which would end the string early.
pub open spec fn valid_path(p: Seq<u8>) -> bool {
    let body = path_body(p);
    &&& body.len() > 0
    &&& forall|i: int| 0 <= i < body.len() ==> body[i] != TERMINATOR
}

/// Makes `path` end with exactly one terminator, appending one only where it
/// is missing.
pub fn normalize_path(path: Vec<u8>) -> (r: Vec<u8>)
    ensures
        r@ == normalized(path@),
{
    let mut path = path;
    let n = path.len();
    if n == 0 || path[n - 1] != TERMINATOR {
        path.push(TERMINATOR);
    }
    path
}

/// Whether `path` is one that the open call can be given.
pub fn is_valid_path(path: &Vec<u8>) -> (r: bool)
    ensures
        r == valid_path(path@),
{
    let n = path.len();
    let end: usize = if n > 0 && path[n - 1] == TERMINATOR {
        n - 1
    } else {
        n
    };
    assert(path_body(path@) =~= path@.subrange(0, end as int));
    if end == 0 {
        return false;
    }
    let mut i: usize = 0;
    while i < end
        invariant
            i <= end,
            end <= path.len(),
            path_body(path@) =~= path@.subrange(0, end as int),
            forall|j: int| 0 <= j < i ==> path@[j] != TERMINATOR,
        decreases end - i,
    {
        if path[i] == TERMINATOR {
            assert(path_body(path@)[i as int] == TERMINATOR);
            return false;
        }
        i += 1;
    }
    true
}

/// Normalizing is idempotent: a path that ends with a terminator is left as it
/// is, and any other gets exactly one terminator appended, never more.
pub proof fn lemma_normalize_idempotent(p: Seq<u8>)
    ensures
        normalized(normalized(p)) == normalized(p),
        ends_with_terminator(normalized(p)),
        ends_with_terminator(p) ==> normalized(p) == p,
        !ends_with_terminator(p) ==> normalized(p) == p.push(TERMINATOR),
        !ends_with_terminator(p) ==> normalized(p).len() == p.len() + 1,
{
}

/// Normalizing keeps what the path names: the body, and so its validity, stay
/// the same.
pub proof fn lemma_normalize_keeps_body(p: Seq<u8>)
    ensures
        path_body(normalized(p)) == path_body(p),
        valid_path(normalized(p)) == valid_path(p),
{
    if !ends_with_terminator(p) {
        assert(p.push(TERMINATOR).drop_last() =~= p);
    }
}

} // verus!
