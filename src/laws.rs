//! Properties that hold across calls: what decoding leaves behind, what
//! encoding gives back, and how the body length is looked up.
use crate::request::{
    decode_rest, decode_result, encode_result, head_outcome, names_content_length, spans_within,
    RequestView,
};
use crate::text::{decimal_value, same_ignoring_case};
use vstd::prelude::*;

verus! {

/// Whether the parser reads the first `head_len` bytes of `input` as one
/// complete request head, of a supported version, whose fields lie within it.
pub open spec fn is_valid_head(input: Seq<u8>, head_len: nat) -> bool {
    match head_outcome(input) {
        Ok(Some(h)) => h.len == head_len && head_len <= input.len() && h.version <= 1
            && spans_within(h.method, h.path, h.headers, h.len as int),
        _ => false,
    }
}

/// A valid head followed by any bytes decodes to a request that owns exactly
/// the head, and exactly the bytes after it stay in the buffer.
pub proof fn decode_keeps_trailing_bytes(head: Seq<u8>, rest: Seq<u8>)
    requires
        is_valid_head(head + rest, head.len()),
    ensures
        decode_result(head + rest) matches Ok(Some(r)) && r.data == head,
        decode_rest(head + rest) == rest,
{
    let input = head + rest;
    assert(input.take(head.len() as int) =~= head);
    assert(input.skip(head.len() as int) =~= rest);
}

/// Encoding the request decoded from a valid head gives back the head's
/// bytes exactly.
pub proof fn encode_decode_round_trip(b: Seq<u8>)
    requires
        is_valid_head(b, b.len()),
    ensures
        decode_result(b) matches Ok(Some(r)) && encode_result(Seq::empty(), r) == b,
{
    assert(b.take(b.len() as int) =~= b);
    let r = decode_result(b)->Ok_0->Some_0;
    assert(encode_result(Seq::empty(), r) =~= b);
}

/// The `Content-Length` lookup ignores the case of header names: two names
/// that differ only in the case of ASCII letters are found alike.
pub proof fn content_length_name_ignores_case(a: Seq<u8>, b: Seq<u8>)
    requires
        same_ignoring_case(a, b),
    ensures
        names_content_length(a) == names_content_length(b),
{
}

/// Two requests whose headers differ only in the case of their names declare
/// the same body length.
pub proof fn content_length_ignores_name_case(v: RequestView, w: RequestView)
    requires
        v.headers.len() == w.headers.len(),
        forall|i: int|
            0 <= i < v.headers.len() ==> same_ignoring_case(
                #[trigger] v.header_name(i),
                w.header_name(i),
            ) && v.header_value(i) == w.header_value(i),
    ensures
        v.content_length() == w.content_length(),
{
    lemma_content_length_from_ignores_case(v, w, 0);
}

proof fn lemma_content_length_from_ignores_case(v: RequestView, w: RequestView, i: int)
    requires
        0 <= i <= v.headers.len(),
        v.headers.len() == w.headers.len(),
        forall|k: int|
            0 <= k < v.headers.len() ==> same_ignoring_case(
                #[trigger] v.header_name(k),
                w.header_name(k),
            ) && v.header_value(k) == w.header_value(k),
    ensures
        v.content_length_from(i) == w.content_length_from(i),
    decreases v.headers.len() - i,
{
    if i < v.headers.len() {
        lemma_content_length_from_ignores_case(v, w, i + 1);
        assert(same_ignoring_case(v.header_name(i), w.header_name(i)));
    }
}

/// With no header named `Content-Length` there is no body length.
pub proof fn content_length_absent(v: RequestView)
    requires
        forall|i: int| 0 <= i < v.headers.len() ==> !names_content_length(#[trigger] v.header_name(i)),
    ensures
        v.content_length() is None,
{
    lemma_no_match_from(v, 0);
}

proof fn lemma_no_match_from(v: RequestView, i: int)
    requires
        0 <= i <= v.headers.len(),
        forall|k: int| 0 <= k < v.headers.len() ==> !names_content_length(#[trigger] v.header_name(k)),
    ensures
        v.content_length_from(i) is None,
    decreases v.headers.len() - i,
{
    if i < v.headers.len() {
        assert(!names_content_length(v.header_name(i)));
        lemma_no_match_from(v, i + 1);
    }
}

/// The body length comes from the first `Content-Length` header alone: it is
/// that header's value read as a number, and `None` where the value is not a
/// number, whatever later headers say.
pub proof fn content_length_from_first_match(v: RequestView, i: int)
    requires
        0 <= i < v.headers.len(),
        names_content_length(v.header_name(i)),
        forall|k: int| 0 <= k < i ==> !names_content_length(#[trigger] v.header_name(k)),
    ensures
        v.content_length() == decimal_value(v.header_value(i)),
        decimal_value(v.header_value(i)) is None ==> v.content_length() is None,
{
    lemma_first_match_from(v, i, 0);
}

proof fn lemma_first_match_from(v: RequestView, i: int, j: int)
    requires
        0 <= j <= i < v.headers.len(),
        names_content_length(v.header_name(i)),
        forall|k: int| 0 <= k < i ==> !names_content_length(#[trigger] v.header_name(k)),
    ensures
        v.content_length_from(j) == decimal_value(v.header_value(i)),
    decreases i - j,
{
    if j < i {
        assert(!names_content_length(v.header_name(j)));
        lemma_first_match_from(v, i, j + 1);
    }
}

} // verus!
