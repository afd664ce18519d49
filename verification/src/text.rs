//! Matching and ordering of text, byte by byte over its UTF-8 encoding.

use vstd::prelude::*;

verus! {

/// A byte with an ASCII capital letter made small.
pub open spec fn folded(b: u8) -> u8 {
    if 65 <= b <= 90 {
        (b + 32) as u8
    } else {
        b
    }
}

/// Makes an ASCII capital letter small.
pub fn fold(b: u8) -> (r: u8)
    ensures
        r == folded(b),
{
    if 65 <= b && b <= 90 {
        b + 32
    } else {
        b
    }
}

/// `needle` stands in `hay` at the offset `at`, ASCII letters compared
/// without regard to case.
pub open spec fn occurs_at(hay: Seq<u8>, needle: Seq<u8>, at: int) -> bool {
    &&& 0 <= at
    &&& at + needle.len() <= hay.len()
    &&& forall|k: int| 0 <= k < needle.len() ==> folded(#[trigger] hay[at + k]) == folded(needle[k])
}

/// `needle` stands somewhere in `hay`.
pub open spec fn occurs_in(hay: Seq<u8>, needle: Seq<u8>) -> bool {
    exists|at: int| occurs_at(hay, needle, at)
}

/// The text `hay` contains the text `needle`, ASCII letters compared without
/// regard to case. The empty text is contained in every text.
pub open spec fn text_contains(hay: Seq<char>, needle: Seq<char>) -> bool {
    occurs_in(vstd::utf8::encode_utf8(hay), vstd::utf8::encode_utf8(needle))
}

/// `a` comes before `b` in the order of a dictionary: at the first place
/// where they differ `a` has the smaller byte, or `a` ends there and `b`
/// goes on.
pub open spec fn bytes_before(a: Seq<u8>, b: Seq<u8>) -> bool
    decreases a.len(),
{
    if b.len() == 0 {
        false
    } else if a.len() == 0 {
        true
    } else if a[0] != b[0] {
        a[0] < b[0]
    } else {
        bytes_before(a.drop_first(), b.drop_first())
    }
}

/// The text `a` is sorted before the text `b`: by the bytes of the UTF-8
/// encoding, which is the order of the code points.
pub open spec fn text_before(a: Seq<char>, b: Seq<char>) -> bool {
    bytes_before(vstd::utf8::encode_utf8(a), vstd::utf8::encode_utf8(b))
}

/// The order of the dictionary is a strict weak order: nothing comes before
/// itself, what comes before something that comes before a third comes
/// before the third, and what comes before a third comes before any other
/// or has that other before the third.
pub proof fn lemma_bytes_order(a: Seq<u8>, b: Seq<u8>, c: Seq<u8>)
    ensures
        !bytes_before(a, a),
        bytes_before(a, b) && bytes_before(b, c) ==> bytes_before(a, c),
        bytes_before(a, c) ==> bytes_before(a, b) || bytes_before(b, c),
    decreases a.len(),
{
    lemma_not_before_itself(a);
    if a.len() > 0 && b.len() > 0 && c.len() > 0 {
        lemma_bytes_order(a.drop_first(), b.drop_first(), c.drop_first());
    }
}

/// No text comes before itself.
pub proof fn lemma_not_before_itself(a: Seq<u8>)
    ensures
        !bytes_before(a, a),
    decreases a.len(),
{
    if a.len() > 0 {
        lemma_not_before_itself(a.drop_first());
    }
}

fn matches_at(hay: &[u8], needle: &[u8], at: usize) -> (b: bool)
    requires
        at + needle.len() <= hay.len(),
    ensures
        b == occurs_at(hay@, needle@, at as int),
{
    let mut k: usize = 0;
    while k < needle.len()
        invariant
            k <= needle.len(),
            at + needle.len() <= hay.len(),
            forall|i: int| 0 <= i < k ==> folded(#[trigger] hay@[at + i]) == folded(needle@[i]),
        decreases needle.len() - k,
    {
        if fold(hay[at + k]) != fold(needle[k]) {
            return false;
        }
        k += 1;
    }
    true
}

/// Whether `needle` stands somewhere in `hay`.
pub fn find_folded(hay: &[u8], needle: &[u8]) -> (b: bool)
    ensures
        b == occurs_in(hay@, needle@),
{
    if needle.len() > hay.len() {
        return false;
    }
    let last = hay.len() - needle.len();
    let mut at: usize = 0;
    while at <= last
        invariant
            last == hay.len() - needle.len(),
            at <= last + 1,
            forall|a: int| 0 <= a < at ==> !occurs_at(hay@, needle@, a),
        decreases last + 1 - at,
    {
        if matches_at(hay, needle, at) {
            return true;
        }
        at += 1;
    }
    false
}

/// Whether the text `hay` contains the text `needle`, ASCII letters compared
/// without regard to case.
pub fn contains_ignoring_case(hay: &str, needle: &str) -> (b: bool)
    ensures
        b == text_contains(hay@, needle@),
{
    find_folded(hay.as_bytes(), needle.as_bytes())
}

/// Whether `a` comes before `b` in the order of a dictionary.
pub fn compare_bytes(a: &[u8], b: &[u8]) -> (r: bool)
    ensures
        r == bytes_before(a@, b@),
{
    let mut k: usize = 0;
    proof {
        assert(a@.skip(0) =~= a@);
        assert(b@.skip(0) =~= b@);
    }
    while k < a.len() && k < b.len()
        invariant
            k <= a.len(),
            k <= b.len(),
            bytes_before(a@, b@) == bytes_before(a@.skip(k as int), b@.skip(k as int)),
        decreases a.len() - k,
    {
        proof {
            assert(a@.skip(k as int)[0] == a@[k as int]);
            assert(b@.skip(k as int)[0] == b@[k as int]);
            assert(a@.skip(k as int).drop_first() =~= a@.skip(k as int + 1));
            assert(b@.skip(k as int).drop_first() =~= b@.skip(k as int + 1));
        }
        if a[k] != b[k] {
            return a[k] < b[k];
        }
        k += 1;
    }
    k < b.len()
}

/// Whether the text `a` is sorted before the text `b`.
pub fn sorts_before(a: &str, b: &str) -> (r: bool)
    ensures
        r == text_before(a@, b@),
{
    compare_bytes(a.as_bytes(), b.as_bytes())
}

/// `tail` stands at the end of `all`.
pub open spec fn bytes_end_with(all: Seq<u8>, tail: Seq<u8>) -> bool {
    tail.len() <= all.len() && all.skip(all.len() - tail.len()) == tail
}

/// The text `all` ends in the text `tail`.
pub open spec fn text_ends_with(all: Seq<char>, tail: Seq<char>) -> bool {
    bytes_end_with(vstd::utf8::encode_utf8(all), vstd::utf8::encode_utf8(tail))
}

/// Whether `tail` stands at the end of `all`.
pub fn bytes_match_at_end(all: &[u8], tail: &[u8]) -> (b: bool)
    ensures
        b == bytes_end_with(all@, tail@),
{
    if tail.len() > all.len() {
        return false;
    }
    let from = all.len() - tail.len();
    let ghost end = all@.skip(from as int);
    let mut k: usize = 0;
    while k < tail.len()
        invariant
            k <= tail.len(),
            from == all.len() - tail.len(),
            end == all@.skip(from as int),
            forall|i: int| 0 <= i < k ==> end[i] == tail@[i],
        decreases tail.len() - k,
    {
        if all[from + k] != tail[k] {
            proof {
                assert(end[k as int] == all@[from + k]);
                assert(end[k as int] != tail@[k as int]);
                assert(end != tail@);
            }
            return false;
        }
        proof {
            assert(end[k as int] == all@[from + k]);
        }
        k += 1;
    }
    proof {
        assert(end =~= tail@);
    }
    true
}

/// Whether the text `all` ends in the text `tail`.
pub fn ends_with(all: &str, tail: &str) -> (b: bool)
    ensures
        b == text_ends_with(all@, tail@),
{
    bytes_match_at_end(all.as_bytes(), tail.as_bytes())
}

} // verus!
