//! NUL-terminated UTF-8 strings inside payloads.
use vstd::prelude::*;
use vstd::string::StringSliceAdditionalSpecFns;
use vstd::utf8::valid_utf8;

verus! {

/// The index of the first `b` in `s`, if `s` holds one.
pub open spec fn first_index(s: Seq<u8>, b: u8) -> Option<int>
    decreases s.len(),
{
    if s.len() == 0 {
        None
    } else if s[0] == b {
        Some(0)
    } else {
        match first_index(s.drop_first(), b) {
            Some(i) => Some(i + 1),
            None => None,
        }
    }
}

/// [`first_index`] is the least index holding `b`, and `None` when no index
/// does.
pub proof fn lemma_first_index(s: Seq<u8>, b: u8)
    ensures
        first_index(s, b) matches Some(i) ==> 0 <= i < s.len() && s[i] == b && forall|j: int|
            0 <= j < i ==> s[j] != b,
        first_index(s, b) is None ==> forall|j: int| 0 <= j < s.len() ==> s[j] != b,
    decreases s.len(),
{
    if s.len() > 0 && s[0] != b {
        lemma_first_index(s.drop_first(), b);
        assert forall|j: int| 1 <= j < s.len() implies s[j] == s.drop_first()[j - 1] by {}
    }
}

/// A sequence is found at the least index holding `b`.
pub proof fn lemma_first_index_of(s: Seq<u8>, b: u8, i: int)
    requires
        0 <= i < s.len(),
        s[i] == b,
        forall|j: int| 0 <= j < i ==> s[j] != b,
    ensures
        first_index(s, b) == Some(i),
    decreases s.len(),
{
    if i > 0 {
        assert forall|j: int| 0 <= j < i - 1 implies s.drop_first()[j] != b by {
            assert(s.drop_first()[j] == s[j + 1]);
        }
        lemma_first_index_of(s.drop_first(), b, i - 1);
    }
}

/// A sequence without `b` has no index of it.
pub proof fn lemma_first_index_none(s: Seq<u8>, b: u8)
    requires
        forall|j: int| 0 <= j < s.len() ==> s[j] != b,
    ensures
        first_index(s, b) is None,
    decreases s.len(),
{
    if s.len() > 0 {
        assert forall|j: int| 0 <= j < s.len() - 1 implies s.drop_first()[j] != b by {
            assert(s.drop_first()[j] == s[j + 1]);
        }
        lemma_first_index_none(s.drop_first(), b);
    }
}

/// Finds the first `b` in `data`.
pub fn find_byte(data: &[u8], b: u8) -> (r: Option<usize>)
    ensures
        match r {
            Some(i) => first_index(data@, b) == Some(i as int),
            None => first_index(data@, b) is None,
        },
{
    let mut i: usize = 0;
    while i < data.len()
        invariant
            0 <= i <= data@.len(),
            forall|j: int| 0 <= j < i ==> data@[j] != b,
        decreases data@.len() - i,
    {
        if data[i] == b {
            proof {
                lemma_first_index_of(data@, b, i as int);
            }
            return Some(i);
        }
        i += 1;
    }
    proof {
        lemma_first_index_none(data@, b);
    }
    None
}

/// `core::str::from_utf8`: the bytes as a string slice when they are valid
/// UTF-8, `None` otherwise.
#[verifier::external_body]
pub(crate) fn str_from_utf8(bytes: &[u8]) -> (r: Option<&str>)
    ensures
        r is Some <==> valid_utf8(bytes@),
        r matches Some(s) ==> s.spec_bytes() == bytes@,
{
    core::str::from_utf8(bytes).ok()
}

} // verus!
