//! Source text: cutting a byte range out of a string, and looking for one text inside another.
//!
//! Syntax trees address the source by byte offsets into its UTF-8 encoding, while strings are
//! modelled as sequences of characters. The functions here connect the two.

use vstd::prelude::*;
use vstd::std_specs::iter::IteratorSpec;
use vstd::string::StringSliceAdditionalSpecFns;
use vstd::utf8::{
    decode_utf8, encode_utf8, is_ascii_chars, is_char_boundary, is_continuation_byte, valid_utf8,
};

verus! {

/// Whether the bytes `start..end` of the UTF-8 encoding of `source` can be cut out of it:
/// the range is not reversed and both of its ends fall between characters of `source`
/// (which places them inside the encoding).
pub open spec fn span_in(source: Seq<char>, start: nat, end: nat) -> bool {
    let bytes = encode_utf8(source);
    &&& start <= end
    &&& is_char_boundary(bytes, start as int)
    &&& is_char_boundary(bytes, end as int)
}

/// The characters that the bytes `start..end` of the UTF-8 encoding of `source` spell.
pub open spec fn span_text(source: Seq<char>, start: nat, end: nat) -> Seq<char> {
    decode_utf8(encode_utf8(source).subrange(start as int, end as int))
}

/// `pattern` stands in `text` at position `at`.
pub open spec fn occurs_at(text: Seq<char>, pattern: Seq<char>, at: int) -> bool {
    &&& 0 <= at
    &&& at + pattern.len() <= text.len()
    &&& text.subrange(at, at + pattern.len()) == pattern
}

/// `pattern` stands somewhere in `text`. The empty pattern stands in every text.
pub open spec fn contains_text(text: Seq<char>, pattern: Seq<char>) -> bool {
    exists|at: int| occurs_at(text, pattern, at)
}

/// The texts that a vector of strings holds, in order.
pub open spec fn texts_of(strings: Seq<String>) -> Seq<Seq<char>> {
    Seq::new(strings.len(), |i: int| strings[i]@)
}

/// `text` contains at least one of `patterns`.
pub open spec fn contains_any(text: Seq<char>, patterns: Seq<Seq<char>>) -> bool {
    exists|k: int| 0 <= k < patterns.len() && contains_text(text, #[trigger] patterns[k])
}

/// A character boundary of a valid encoding lies inside it, and is still a boundary of every
/// prefix that ends on a later boundary.
proof fn lemma_boundary_of_prefix(bytes: Seq<u8>, start: int, end: int)
    requires
        valid_utf8(bytes),
        0 <= start <= end,
        is_char_boundary(bytes, start),
        is_char_boundary(bytes, end),
    ensures
        end <= bytes.len(),
        valid_utf8(bytes.subrange(0, end)),
        is_char_boundary(bytes.subrange(0, end), start),
{
    broadcast use vstd::utf8::group_utf8_lib;

    let head = bytes.subrange(0, end);
    assert(valid_utf8(head));
    if start < end {
        vstd::utf8::is_char_boundary_iff_not_is_continuation_byte(bytes, start);
        vstd::utf8::is_char_boundary_iff_not_is_continuation_byte(head, start);
        assert(head[start] == bytes[start]);
    } else {
        vstd::utf8::is_char_boundary_start_end_of_seq(head);
    }
}

/// In a text of ASCII characters a byte offset is a character offset: every range inside the
/// text can be cut out of it, and spells the characters at the same offsets.
pub proof fn lemma_ascii_spans(source: Seq<char>, start: nat, end: nat)
    requires
        is_ascii_chars(source),
        start <= end <= source.len(),
    ensures
        span_in(source, start, end),
        span_text(source, start, end) == source.subrange(start as int, end as int),
{
    broadcast use vstd::utf8::group_utf8_lib;

    let bytes = encode_utf8(source);
    vstd::utf8::is_ascii_chars_encode_utf8(source);
    assert(bytes.len() == source.len());
    assert(valid_utf8(bytes));
    if start < bytes.len() {
        vstd::utf8::is_char_boundary_iff_not_is_continuation_byte(bytes, start as int);
        assert(!is_continuation_byte(bytes[start as int])) by {
            let b = bytes[start as int];
            assert(b < 128);
            assert(b & 0xC0 != 0x80) by (bit_vector)
                requires
                    b < 128,
            ;
        }
    } else {
        vstd::utf8::is_char_boundary_start_end_of_seq(bytes);
    }
    if end < bytes.len() {
        vstd::utf8::is_char_boundary_iff_not_is_continuation_byte(bytes, end as int);
        assert(!is_continuation_byte(bytes[end as int])) by {
            let b = bytes[end as int];
            assert(b < 128);
            assert(b & 0xC0 != 0x80) by (bit_vector)
                requires
                    b < 128,
            ;
        }
    } else {
        vstd::utf8::is_char_boundary_start_end_of_seq(bytes);
    }
    let part = source.subrange(start as int, end as int);
    assert(is_ascii_chars(part));
    vstd::utf8::is_ascii_chars_encode_utf8(part);
    assert(encode_utf8(part) =~= bytes.subrange(start as int, end as int));
    assert(decode_utf8(encode_utf8(part)) == part);
}

/// Tells whether the bytes `start..end` can be cut out of `source`.
pub fn has_span(source: &str, start: usize, end: usize) -> (r: bool)
    ensures
        r == span_in(source@, start as nat, end as nat),
{
    start <= end && source.is_char_boundary(start) && source.is_char_boundary(end)
}

/// The part of `source` that its bytes `start..end` spell.
pub fn slice_span<'a>(source: &'a str, start: usize, end: usize) -> (r: &'a str)
    requires
        span_in(source@, start as nat, end as nat),
    ensures
        r@ == span_text(source@, start as nat, end as nat),
{
    broadcast use vstd::utf8::group_utf8_lib;

    proof {
        lemma_boundary_of_prefix(source.spec_bytes(), start as int, end as int);
    }
    let (head, _) = source.split_at(end);
    let (_, text) = head.split_at(start);
    proof {
        let bytes = source.spec_bytes();
        assert(text.spec_bytes() =~= bytes.subrange(start as int, end as int));
        assert(decode_utf8(encode_utf8(text@)) == text@);
    }
    text
}

/// Tells whether two strings hold the same text.
pub fn same_text(a: &str, b: &str) -> (r: bool)
    ensures
        r == (a@ == b@),
{
    broadcast use vstd::utf8::group_utf8_lib;

    let x = a.as_bytes();
    let y = b.as_bytes();
    proof {
        assert(decode_utf8(encode_utf8(a@)) == a@);
        assert(decode_utf8(encode_utf8(b@)) == b@);
    }
    if x.len() != y.len() {
        return false;
    }
    let mut i: usize = 0;
    while i < x.len()
        invariant
            i <= x.len(),
            x.len() == y.len(),
            x@ == a.spec_bytes(),
            y@ == b.spec_bytes(),
            forall|j: int| 0 <= j < i ==> x@[j] == y@[j],
        decreases x.len() - i,
    {
        if x[i] != y[i] {
            return false;
        }
        i += 1;
    }
    assert(x@ =~= y@);
    true
}

/// The characters of a string, in order.
pub fn chars_of(s: &str) -> (v: Vec<char>)
    ensures
        v@ == s@,
{
    broadcast use vstd::string::group_string_axioms;

    let mut v: Vec<char> = Vec::new();
    for c in it: s.chars()
        invariant
            it.seq() == s@,
            v@ == it.seq().take(it.index() as int),
    {
        v.push(c);
    }
    v
}

/// Tells whether `pattern` stands in `text` at position `at`.
fn matches_at(text: &Vec<char>, pattern: &Vec<char>, at: usize) -> (r: bool)
    requires
        at + pattern.len() <= text.len(),
    ensures
        r == occurs_at(text@, pattern@, at as int),
{
    let mut k: usize = 0;
    while k < pattern.len()
        invariant
            k <= pattern.len(),
            at + pattern.len() <= text.len(),
            forall|j: int| 0 <= j < k ==> text@[at + j] == pattern@[j],
        decreases pattern.len() - k,
    {
        if text[at + k] != pattern[k] {
            proof {
                let cut = text@.subrange(at as int, at + pattern.len());
                assert(cut[k as int] == text@[at + k]);
            }
            return false;
        }
        k += 1;
    }
    assert(text@.subrange(at as int, at + pattern.len()) =~= pattern@);
    true
}

/// Tells whether `pattern` stands somewhere in `text`.
pub fn contains(text: &Vec<char>, pattern: &Vec<char>) -> (r: bool)
    ensures
        r == contains_text(text@, pattern@),
{
    if pattern.len() > text.len() {
        return false;
    }
    let last: usize = text.len() - pattern.len();
    let mut at: usize = 0;
    loop
        invariant
            at <= last,
            last == text.len() - pattern.len(),
            forall|k: int| 0 <= k < at ==> !occurs_at(text@, pattern@, k),
        decreases last - at,
    {
        if matches_at(text, pattern, at) {
            return true;
        }
        if at == last {
            return false;
        }
        at += 1;
    }
}

/// Tells whether `text` contains at least one of `patterns`.
pub fn mentions_any(text: &str, patterns: &Vec<String>) -> (r: bool)
    ensures
        r == contains_any(text@, texts_of(patterns@)),
{
    let letters = chars_of(text);
    let mut k: usize = 0;
    while k < patterns.len()
        invariant
            k <= patterns.len(),
            letters@ == text@,
            forall|j: int| 0 <= j < k ==> !contains_text(text@, #[trigger] texts_of(patterns@)[j]),
        decreases patterns.len() - k,
    {
        let pattern = chars_of(patterns[k].as_str());
        if contains(&letters, &pattern) {
            assert(contains_text(text@, texts_of(patterns@)[k as int]));
            return true;
        }
        k += 1;
    }
    false
}

} // verus!
