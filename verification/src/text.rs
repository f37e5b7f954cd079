use vstd::prelude::*;
use vstd::string::StringSliceAdditionalSpecFns;
use vstd::utf8::*;

verus! {

/// Whether two string slices hold the same characters.
pub fn str_eq(a: &str, b: &str) -> (same: bool)
    ensures
        same == (a@ == b@),
{
    let x = a.as_bytes();
    let y = b.as_bytes();
    proof {
        encode_utf8_decode_utf8(a@);
        encode_utf8_decode_utf8(b@);
    }
    if x.len() != y.len() {
        return false;
    }
    let mut i: usize = 0;
    while i < x.len()
        invariant
            i <= x.len(),
            x.len() == y.len(),
            forall|j: int| 0 <= j < i ==> x@[j] == y@[j],
            x@ == encode_utf8(a@),
            y@ == encode_utf8(b@),
            decode_utf8(encode_utf8(a@)) == a@,
            decode_utf8(encode_utf8(b@)) == b@,
        decreases x.len() - i,
    {
        if x[i] != y[i] {
            return false;
        }
        i = i + 1;
    }
    assert(x@ =~= y@);
    true
}

/// Whether `text` holds the character `wanted`.
pub fn has_char(text: &str, wanted: char) -> (found: bool)
    ensures
        found == text@.contains(wanted),
{
    let mut found = false;
    for c in iter: text.chars()
        invariant
            iter.seq() == text@,
            found == text@.take(iter.index()).contains(wanted),
    {
        proof {
            let seen = text@.take(iter.index());
            let more = text@.take(iter.index() + 1);
            assert(more == seen.push(c));
            if seen.contains(wanted) {
                let at = choose|at: int| 0 <= at < seen.len() && seen[at] == wanted;
                assert(more[at] == wanted);
            }
            if c == wanted {
                assert(more[iter.index()] == wanted);
            }
        }
        if c == wanted {
            found = true;
        }
    }
    proof {
        assert(text@.take(text@.len() as int) == text@);
    }
    found
}

/// The characters of an optional string.
pub open spec fn optional_text(text: Option<String>) -> Option<Seq<char>> {
    match text {
        Some(t) => Some(t@),
        None => None,
    }
}

/// The text that the bytes from `start` up to `end` of `source` spell: there is
/// one exactly when the two offsets are in order, lie within `source`, and
/// enclose well-formed UTF-8.
pub open spec fn text_between(source: Seq<u8>, start: nat, end: nat) -> Option<Seq<char>> {
    if start <= end <= source.len() && valid_utf8(source.subrange(start as int, end as int)) {
        Some(decode_utf8(source.subrange(start as int, end as int)))
    } else {
        None
    }
}

/// Calls `std::str::from_utf8`, which succeeds exactly on well-formed UTF-8 and
/// then gives the string that the bytes encode. Its error is dropped.
#[verifier::external_body]
fn decode(bytes: &[u8]) -> (text: Option<&str>)
    ensures
        text is Some <==> valid_utf8(bytes@),
        text matches Some(s) ==> s@ == decode_utf8(bytes@),
{
    std::str::from_utf8(bytes).ok()
}

/// The text between two byte offsets of `source`, as an owned string.
pub fn slice_text(source: &str, start: usize, end: usize) -> (text: Option<String>)
    ensures
        optional_text(text) == text_between(source.spec_bytes(), start as nat, end as nat),
{
    let bytes = source.as_bytes();
    if start > end || end > bytes.len() {
        return None;
    }
    match decode(&bytes[start..end]) {
        Some(s) => Some(s.to_owned()),
        None => None,
    }
}

} // verus!
