//! Span shaping: from a literal's outer span to its inner span, and from an
//! interpolated expression's span to the span with its delimiters.
use vstd::prelude::*;
use vstd::string::StringSliceAdditionalSpecFns;
use crate::types::{Span, SpanShape};

verus! {

/// `a + b`, or `u32::MAX` when the sum does not fit.
pub open spec fn add_sat(a: u32, b: u32) -> u32 {
    if a + b <= u32::MAX {
        (a + b) as u32
    } else {
        u32::MAX
    }
}

/// `a - b`, or `0` when `b > a`.
pub open spec fn sub_sat(a: u32, b: u32) -> u32 {
    if a >= b {
        (a - b) as u32
    } else {
        0
    }
}

/// The span shape of a construct delimited by `len` bytes on each side.
pub open spec fn strip_shape(outer: Span, len: u32) -> SpanShape {
    SpanShape { outer, inner: Span { start: add_sat(outer.start, len), end: sub_sat(outer.end, len) } }
}

/// Shape of a literal delimited by one character on each side: a quoted
/// string or a template literal.
pub fn delimited_shape(outer: Span) -> (r: SpanShape)
    ensures
        r == strip_shape(outer, 1),
{
    SpanShape {
        outer,
        inner: Span { start: outer.start.saturating_add(1), end: outer.end.saturating_sub(1) },
    }
}

/// The byte is a quote character, `'` or `"`.
pub open spec fn is_quote(b: u8) -> bool {
    b == 39u8 || b == 34u8
}

/// The first index in `[i, end)` that holds a quote character, else `end`.
pub open spec fn first_quote(src: Seq<u8>, i: int, end: int) -> int
    decreases end - i,
{
    if i >= end {
        end
    } else if is_quote(src[i]) {
        i
    } else {
        first_quote(src, i + 1, end)
    }
}

/// Length of the quote that opens at `q`: three for a tripled quote
/// character that still leaves a byte before `end`, else one.
pub open spec fn quote_len(src: Seq<u8>, q: int, end: int) -> u32 {
    if q + 2 < end && src[q + 1] == src[q] && src[q + 2] == src[q] {
        3
    } else {
        1
    }
}

/// Shape of a string literal that may carry a prefix (`f`, `r`, `b`, `rb`,
/// ...) and single or triple quotes: the inner span starts after the first
/// quote run and ends before a closing run of the same length.
pub open spec fn string_like_shape(src: Seq<u8>, outer: Span) -> SpanShape {
    let q = first_quote(src, outer.start as int, outer.end as int);
    let len = quote_len(src, q, outer.end as int);
    SpanShape {
        outer,
        inner: Span { start: add_sat(q as u32, len), end: sub_sat(outer.end, len) },
    }
}

/// Shape of a prefixed or quoted string literal whose outer span lies within
/// the source.
pub fn shape_string_like(source: &str, outer: Span) -> (r: SpanShape)
    requires
        outer.start <= outer.end <= source.spec_bytes().len(),
    ensures
        r == string_like_shape(source.spec_bytes(), outer),
{
    let bytes = source.as_bytes();
    let end = outer.end as usize;
    let mut i = outer.start as usize;
    while i < end
        invariant
            outer.start <= i <= end,
            end == outer.end,
            end <= bytes@.len(),
            bytes@ == source.spec_bytes(),
            first_quote(bytes@, outer.start as int, end as int) == first_quote(
                bytes@,
                i as int,
                end as int,
            ),
        ensures
            outer.start <= i <= end,
            first_quote(bytes@, outer.start as int, end as int) == i,
        decreases end - i,
    {
        if bytes[i] == 39u8 || bytes[i] == 34u8 {
            break ;
        }
        i += 1;
    }
    let len: u32 = if end - i > 2 && bytes[i + 1] == bytes[i] && bytes[i + 2] == bytes[i] {
        3
    } else {
        1
    };
    SpanShape {
        outer,
        inner: Span { start: (i as u32).saturating_add(len), end: outer.end.saturating_sub(len) },
    }
}

/// The bytes around `inner` are the template interpolation delimiters: `${`
/// just before it and `}` just after it.
pub open spec fn has_template_delims(src: Seq<u8>, inner: Span) -> bool {
    &&& 2 <= inner.start <= inner.end < src.len()
    &&& inner.end < u32::MAX
    &&& src[inner.start - 2] == 36u8
    &&& src[inner.start - 1] == 123u8
    &&& src[inner.end as int] == 125u8
}

/// Shape of an expression interpolated into a template literal: widened to
/// `${ ... }` where those delimiters surround it, else the expression's own
/// span on both sides.
pub open spec fn template_var_shape(src: Seq<u8>, inner: Span) -> SpanShape {
    if has_template_delims(src, inner) {
        SpanShape {
            outer: Span { start: (inner.start - 2) as u32, end: (inner.end + 1) as u32 },
            inner,
        }
    } else {
        SpanShape { outer: inner, inner }
    }
}

/// Shape of an expression interpolated into a template literal, from the
/// expression's own span.
pub fn shape_template_var(source: &str, inner: Span) -> (r: SpanShape)
    ensures
        r == template_var_shape(source.spec_bytes(), inner),
{
    let bytes = source.as_bytes();
    let s = inner.start as usize;
    let e = inner.end as usize;
    if 2 <= s && s <= e && e < bytes.len() && inner.end < u32::MAX && bytes[s - 2] == 36u8 && bytes[s - 1]
        == 123u8 && bytes[e] == 125u8 {
        SpanShape { outer: Span { start: inner.start - 2, end: inner.end + 1 }, inner }
    } else {
        SpanShape { outer: inner, inner }
    }
}

} // verus!
