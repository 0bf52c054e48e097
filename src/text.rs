//! Text primitives: case folding, character classes and byte-range slicing.
use vstd::prelude::*;
use vstd::std_specs::iter::IteratorSpec;
use vstd::string::StringSliceAdditionalSpecFns;
use vstd::utf8::*;
use crate::types::Span;

verus! {

/// What `str::to_lowercase` returns for a text.
pub uninterp spec fn lower_of(s: Seq<char>) -> Seq<char>;

/// What `char::is_alphanumeric` returns for a character.
pub uninterp spec fn alnum_of(c: char) -> bool;

/// Relies on `str::to_lowercase`: full Unicode lower-casing, which depends on
/// the characters alone.
#[verifier::external_body]
pub(crate) fn lowercase(s: &str) -> (r: String)
    ensures
        r@ == lower_of(s@),
{
    s.to_lowercase()
}

/// Relies on `char::is_alphanumeric`: the Unicode `Alphabetic` or `Numeric`
/// property of the character.
#[verifier::external_body]
pub(crate) fn is_alphanumeric(c: char) -> (r: bool)
    ensures
        r == alnum_of(c),
{
    c.is_alphanumeric()
}

/// The characters of a text, in order.
pub fn chars_of(s: &str) -> (r: Vec<char>)
    ensures
        r@ == s@,
{
    let n = s.unicode_len();
    let mut it = s.chars();
    let mut out: Vec<char> = Vec::new();
    while out.len() < n
        invariant
            out@ + it.remaining() == s@,
            n == s@.len(),
        ensures
            out@ + it.remaining() == s@,
            it.remaining().len() == 0,
        decreases n - out.len(),
    {
        match it.next() {
            Some(c) => {
                out.push(c);
                assert(out@ + it.remaining() =~= s@);
            },
            None => {
                break ;
            },
        }
    }
    assert(out@ =~= s@);
    out
}

/// The span lies within `src` and both its ends fall on character
/// boundaries.
pub open spec fn slice_ok(src: Seq<u8>, sp: Span) -> bool {
    &&& sp.start <= sp.end <= src.len()
    &&& is_char_boundary(src, sp.start as int)
    &&& is_char_boundary(src, sp.end as int)
}

/// The characters that the bytes of `src` in `sp` encode.
pub open spec fn slice_text(src: Seq<u8>, sp: Span) -> Seq<char> {
    decode_utf8(src.subrange(sp.start as int, sp.end as int))
}

/// The text of `source` in the byte span `sp`, or `None` when the span does
/// not lie within the text on character boundaries.
pub fn slice(source: &str, sp: Span) -> (r: Option<String>)
    ensures
        r is Some <==> slice_ok(source.spec_bytes(), sp),
        r is Some ==> r->0@ == slice_text(source.spec_bytes(), sp),
        r is Some ==> encode_utf8(r->0@) == source.spec_bytes().subrange(
            sp.start as int,
            sp.end as int,
        ),
{
    let ghost bytes = source.spec_bytes();
    proof {
        encode_utf8_valid_utf8(source@);
    }
    let len = source.as_bytes().len();
    let start = sp.start as usize;
    let end = sp.end as usize;
    assert(start == sp.start && end == sp.end && len == bytes.len());
    if start <= end && end <= len && source.is_char_boundary(start) && source.is_char_boundary(
        end,
    ) {
        let (_, rest) = source.split_at(start);
        let ghost rb = rest.spec_bytes();
        proof {
            assert(rb =~= bytes.subrange(start as int, len as int));
            encode_utf8_valid_utf8(rest@);
            if end - start < rb.len() {
                is_char_boundary_iff_not_is_continuation_byte(rb, end - start);
                is_char_boundary_iff_not_is_continuation_byte(bytes, end as int);
            } else {
                is_char_boundary_start_end_of_seq(rb);
            }
        }
        let (mid, _) = rest.split_at(end - start);
        proof {
            assert(mid.spec_bytes() =~= bytes.subrange(start as int, end as int));
            encode_utf8_decode_utf8(mid@);
        }
        Some(mid.to_owned())
    } else {
        None
    }
}

} // verus!
