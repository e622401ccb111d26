//! A decoded request head that owns its wire bytes, and the operations that
//! produce it from a growing buffer and write it back out.
use crate::buffer::{append_bytes, as_bytes, buf_bytes, drain_prefix};
use crate::grammar::{grammar_outcome, outcome_view, parse_head, GrammarOutcome, HeadFields, HeadFieldsView, Span};
use crate::text::{decimal_value, eq_ignoring_case, parse_decimal, same_ignoring_case, utf8_text};
use tokio_core::io::EasyBuf;
use vstd::prelude::*;
use vstd::slice::slice_subrange;
use vstd::string::StringSliceAdditionalSpecFns;
use vstd::utf8::valid_utf8;

verus! {

/// The protocol versions a request may name.
#[derive(Clone, Copy, Debug, PartialEq, Eq, Structural)]
pub enum Version {
    Http10,
    Http11,
}

/// Why a request could not be decoded or a field could not be read.
#[derive(Clone, Copy, Debug, PartialEq, Eq)]
pub enum RequestError {
    /// The bytes break the request grammar, or carry more headers than the
    /// largest header table holds.
    MalformedRequest(httparse::Error),
    /// The request names a version other than HTTP/1.0 or HTTP/1.1.
    UnsupportedVersion,
    /// The parser placed a field outside the head it reported.
    FieldOutOfBounds,
    /// Method, path or header-name bytes that are not valid UTF-8.
    InvalidEncoding,
}

/// Header slots of the first parse attempt.
pub const FIRST_HEADER_SLOTS: usize = 16;

/// Header slots of the last parse attempt: a request with more headers than
/// this is malformed.
pub const MAX_HEADER_SLOTS: usize = 128;

/// One complete request head, with the bytes it was read from.
pub struct Request {
    method: Span,
    path: Span,
    version: Version,
    headers: Vec<(Span, Span)>,
    data: EasyBuf,
}

/// A request as values: field ranges into `data`, the owned bytes.
pub struct RequestView {
    pub method: Span,
    pub path: Span,
    pub version: Version,
    pub headers: Seq<(Span, Span)>,
    pub data: Seq<u8>,
}

pub open spec fn span_within(s: Span, len: int) -> bool {
    s.0 <= s.1 && s.1 <= len
}

/// Every range lies within the first `len` bytes.
pub open spec fn spans_within(method: Span, path: Span, headers: Seq<(Span, Span)>, len: int) -> bool {
    &&& span_within(method, len)
    &&& span_within(path, len)
    &&& forall|i: int| 0 <= i < headers.len() ==> header_within(#[trigger] headers[i], len)
}

pub open spec fn header_within(h: (Span, Span), len: int) -> bool {
    span_within(h.0, len) && span_within(h.1, len)
}

/// The header name looked up for the body length, in lower case.
pub open spec fn content_length_name() -> Seq<u8> {
    seq![99u8, 111, 110, 116, 101, 110, 116, 45, 108, 101, 110, 103, 116, 104]
}

/// Whether a header name is `Content-Length`, in any case.
pub open spec fn names_content_length(name: Seq<u8>) -> bool {
    same_ignoring_case(name, content_length_name())
}

impl RequestView {
    pub open spec fn well_formed(self) -> bool {
        spans_within(self.method, self.path, self.headers, self.data.len() as int)
    }

    /// The bytes a range selects.
    pub open spec fn field(self, s: Span) -> Seq<u8> {
        self.data.subrange(s.0 as int, s.1 as int)
    }

    pub open spec fn header_name(self, i: int) -> Seq<u8> {
        self.field(self.headers[i].0)
    }

    pub open spec fn header_value(self, i: int) -> Seq<u8> {
        self.field(self.headers[i].1)
    }

    /// The declared body length, from the first `Content-Length` header at or
    /// after position `i`.
    pub open spec fn content_length_from(self, i: int) -> Option<usize>
        decreases self.headers.len() - i,
    {
        if i < 0 || i >= self.headers.len() {
            None
        } else if names_content_length(self.header_name(i)) {
            decimal_value(self.header_value(i))
        } else {
            self.content_length_from(i + 1)
        }
    }

    /// The value of the first `Content-Length` header, read as a number.
    pub open spec fn content_length(self) -> Option<usize> {
        self.content_length_from(0)
    }
}

impl View for Request {
    type V = RequestView;

    closed spec fn view(&self) -> RequestView {
        RequestView {
            method: self.method,
            path: self.path,
            version: self.version,
            headers: self.headers@,
            data: buf_bytes(self.data),
        }
    }
}

/// The result of a parse when tables of `slots`, `2 * slots`, ... header
/// slots are tried in turn, up to `MAX_HEADER_SLOTS`, for as long as the
/// parser runs out of slots.
pub open spec fn outcome_from(input: Seq<u8>, slots: nat) -> GrammarOutcome
    decreases MAX_HEADER_SLOTS - slots,
{
    let o = grammar_outcome(input, slots);
    if o == GrammarOutcome::Err(httparse::Error::TooManyHeaders) && 0 < slots && slots * 2
        <= MAX_HEADER_SLOTS {
        outcome_from(input, slots * 2)
    } else {
        o
    }
}

/// What the parser makes of `input`, starting with `FIRST_HEADER_SLOTS` slots.
pub open spec fn head_outcome(input: Seq<u8>) -> GrammarOutcome {
    outcome_from(input, FIRST_HEADER_SLOTS as nat)
}

pub open spec fn error_of(e: httparse::Error) -> RequestError {
    if e == httparse::Error::Version {
        RequestError::UnsupportedVersion
    } else {
        RequestError::MalformedRequest(e)
    }
}

/// The request that a complete parse describes: its head is the first
/// `h.len` bytes of the input.
pub open spec fn request_of(h: HeadFieldsView, input: Seq<u8>) -> RequestView {
    RequestView {
        method: h.method,
        path: h.path,
        version: if h.version == 0 {
            Version::Http10
        } else {
            Version::Http11
        },
        headers: h.headers,
        data: input.take(h.len as int),
    }
}

/// What a request head parsed as `o` from `input` decodes to: `Ok(None)`
/// while the head is incomplete.
pub open spec fn result_of(o: GrammarOutcome, input: Seq<u8>) -> Result<Option<RequestView>, RequestError> {
    match o {
        Ok(None) => Ok(None),
        Err(e) => Err(error_of(e)),
        Ok(Some(h)) => if h.len > input.len() || !spans_within(h.method, h.path, h.headers, h.len as int) {
            Err(RequestError::FieldOutOfBounds)
        } else if h.version > 1 {
            Err(RequestError::UnsupportedVersion)
        } else {
            Ok(Some(request_of(h, input)))
        },
    }
}

/// The bytes left in the buffer after decoding `input` parsed as `o`: all of
/// them unless a request was taken off the front.
pub open spec fn rest_of(o: GrammarOutcome, input: Seq<u8>) -> Seq<u8> {
    match result_of(o, input) {
        Ok(Some(r)) => input.skip(r.data.len() as int),
        _ => input,
    }
}

/// What decoding `input` gives.
pub open spec fn decode_result(input: Seq<u8>) -> Result<Option<RequestView>, RequestError> {
    result_of(head_outcome(input), input)
}

/// The bytes left in the buffer after decoding `input`.
pub open spec fn decode_rest(input: Seq<u8>) -> Seq<u8> {
    rest_of(head_outcome(input), input)
}

pub open spec fn decoded_view(r: Result<Option<Request>, RequestError>) -> Result<Option<RequestView>, RequestError> {
    match r {
        Ok(Some(req)) => Ok(Some(req@)),
        Ok(None) => Ok(None),
        Err(e) => Err(e),
    }
}

/// The bytes a sink holds after `msg` has been written to it.
pub open spec fn encode_result(sink: Seq<u8>, msg: RequestView) -> Seq<u8> {
    sink + msg.data
}

fn too_many_headers(p: &Result<Option<HeadFields>, httparse::Error>) -> (r: bool)
    ensures
        r == (outcome_view(*p) == GrammarOutcome::Err(httparse::Error::TooManyHeaders)),
{
    match p {
        Err(httparse::Error::TooManyHeaders) => true,
        _ => false,
    }
}

fn grammar_error(e: httparse::Error) -> (r: RequestError)
    ensures
        r == error_of(e),
{
    match e {
        httparse::Error::Version => RequestError::UnsupportedVersion,
        _ => RequestError::MalformedRequest(e),
    }
}

fn span_fits(s: Span, len: usize) -> (r: bool)
    ensures
        r == span_within(s, len as int),
{
    s.0 <= s.1 && s.1 <= len
}

/// Whether every field of a parsed head lies within the head.
fn fields_fit(h: &HeadFields) -> (r: bool)
    ensures
        r == spans_within(h.method, h.path, h.headers@, h.len as int),
{
    let len = h.len;
    if !span_fits(h.method, len) || !span_fits(h.path, len) {
        return false;
    }
    let mut i: usize = 0;
    while i < h.headers.len()
        invariant
            len == h.len,
            i <= h.headers@.len(),
            forall|k: int| 0 <= k < i ==> header_within(#[trigger] h.headers@[k], len as int),
        decreases h.headers@.len() - i,
    {
        let (name, value) = h.headers[i];
        if !span_fits(name, len) || !span_fits(value, len) {
            assert(!header_within(h.headers@[i as int], len as int));
            return false;
        }
        assert(header_within(h.headers@[i as int], len as int));
        i = i + 1;
    }
    true
}

/// Takes the request head that `parsed` describes off the front of `buf`,
/// where `parsed` is what the parser reported for the bytes of `buf`.
///
/// Returns `Ok(None)` for an incomplete head and an error for a failed parse,
/// an unsupported version or a field outside the head; `buf` is then left as
/// it is. Otherwise the head's bytes move into the returned request and the
/// bytes after it stay in `buf`.
pub fn take_parsed_head(buf: &mut EasyBuf, parsed: Result<Option<HeadFields>, httparse::Error>) -> (r:
    Result<Option<Request>, RequestError>)
    ensures
        decoded_view(r) == result_of(outcome_view(parsed), buf_bytes(*old(buf))),
        buf_bytes(*final(buf)) == rest_of(outcome_view(parsed), buf_bytes(*old(buf))),
        r matches Ok(Some(req)) ==> req.wf(),
        r matches Ok(Some(req)) ==> buf_bytes(*old(buf)) == req@.data + buf_bytes(*final(buf)),
{
    let head = match parsed {
        Ok(None) => return Ok(None),
        Err(e) => return Err(grammar_error(e)),
        Ok(Some(h)) => h,
    };
    if head.len > as_bytes(buf).len() || !fields_fit(&head) {
        return Err(RequestError::FieldOutOfBounds);
    }
    let version = if head.version == 0 {
        Version::Http10
    } else if head.version == 1 {
        Version::Http11
    } else {
        return Err(RequestError::UnsupportedVersion);
    };
    let ghost input = buf_bytes(*buf);
    let data = drain_prefix(buf, head.len);
    let req = Request { method: head.method, path: head.path, version, headers: head.headers, data };
    proof {
        assert(req@ == request_of(head@, input));
        assert(input =~= req@.data + buf_bytes(*buf));
    }
    Ok(Some(req))
}

/// Takes one request head off the front of `buf`.
///
/// Returns `Ok(None)`, leaving `buf` as it is, while the head is incomplete.
/// Once it is complete, its bytes move into the returned request and the
/// bytes after it stay in `buf`. Header tables of 16, 32, 64 and 128 slots are
/// tried in turn; a request with more headers is malformed. On an error
/// `buf` is left as it is.
pub fn decode(buf: &mut EasyBuf) -> (r: Result<Option<Request>, RequestError>)
    ensures
        decoded_view(r) == decode_result(buf_bytes(*old(buf))),
        buf_bytes(*final(buf)) == decode_rest(buf_bytes(*old(buf))),
        r matches Ok(Some(req)) ==> req.wf(),
        buf_bytes(*old(buf)).len() == 0 ==> (r matches Ok(None)) && buf_bytes(*final(buf))
            == buf_bytes(*old(buf)),
        r matches Ok(Some(req)) ==> buf_bytes(*old(buf)) == req@.data + buf_bytes(*final(buf)),
{
    let input = as_bytes(buf);
    let mut slots: usize = FIRST_HEADER_SLOTS;
    let mut parsed = parse_head(input, slots);
    while slots <= MAX_HEADER_SLOTS / 2 && too_many_headers(&parsed)
        invariant
            0 < slots <= MAX_HEADER_SLOTS,
            outcome_view(parsed) == grammar_outcome(input@, slots as nat),
            outcome_from(input@, FIRST_HEADER_SLOTS as nat) == outcome_from(input@, slots as nat),
            input@.len() == 0 ==> parsed matches Ok(None),
        decreases MAX_HEADER_SLOTS - slots,
    {
        slots = slots * 2;
        parsed = parse_head(input, slots);
    }
    take_parsed_head(buf, parsed)
}

/// Appends the request's bytes, exactly as they were received, to `buf`.
pub fn encode(msg: Request, buf: &mut Vec<u8>)
    ensures
        final(buf)@ == encode_result(old(buf)@, msg@),
{
    let bytes = as_bytes(&msg.data);
    let mut i: usize = 0;
    while i < bytes.len()
        invariant
            i <= bytes@.len(),
            bytes@ == msg@.data,
            buf@ == old(buf)@ + bytes@.take(i as int),
        decreases bytes@.len() - i,
    {
        buf.push(bytes[i]);
        i = i + 1;
        proof {
            assert(bytes@.take(i as int) =~= bytes@.take(i - 1) + seq![bytes@[i - 1]]);
        }
    }
    proof {
        assert(bytes@.take(i as int) =~= bytes@);
    }
}

fn content_length_literal() -> (r: &'static [u8])
    ensures
        r@ == content_length_name(),
{
    let name = "content-length";
    proof {
        reveal_strlit("content-length");
        vstd::string::is_ascii_spec_bytes(name);
    }
    let r = name.as_bytes();
    assert(r@ =~= content_length_name());
    r
}

/// Reads the text a range selects.
fn text_at(data: &[u8], s: Span) -> (r: Result<&str, RequestError>)
    requires
        span_within(s, data@.len() as int),
    ensures
        match r {
            Ok(t) => t.spec_bytes() == data@.subrange(s.0 as int, s.1 as int),
            Err(e) => e == RequestError::InvalidEncoding && !valid_utf8(
                data@.subrange(s.0 as int, s.1 as int),
            ),
        },
        r is Ok <==> valid_utf8(data@.subrange(s.0 as int, s.1 as int)),
{
    match utf8_text(slice_subrange(data, s.0, s.1)) {
        Some(t) => Ok(t),
        None => Err(RequestError::InvalidEncoding),
    }
}

impl Request {
    /// The request's ranges all lie within its bytes.
    pub open spec fn wf(&self) -> bool {
        self@.well_formed()
    }

    /// The request method, such as `GET`.
    pub fn method(&self) -> (r: Result<&str, RequestError>)
        requires
            self.wf(),
        ensures
            r is Ok <==> valid_utf8(self@.field(self@.method)),
            r matches Ok(t) ==> t.spec_bytes() == self@.field(self@.method),
            r matches Err(e) ==> e == RequestError::InvalidEncoding,
    {
        text_at(as_bytes(&self.data), self.method)
    }

    /// The request target, such as `/index.html`.
    pub fn path(&self) -> (r: Result<&str, RequestError>)
        requires
            self.wf(),
        ensures
            r is Ok <==> valid_utf8(self@.field(self@.path)),
            r matches Ok(t) ==> t.spec_bytes() == self@.field(self@.path),
            r matches Err(e) ==> e == RequestError::InvalidEncoding,
    {
        text_at(as_bytes(&self.data), self.path)
    }

    pub fn version(&self) -> (r: Version)
        ensures
            r == self@.version,
    {
        self.version
    }

    /// Appends bytes (such as body bytes) after the head; the fields keep
    /// their places.
    pub fn append_data(&mut self, buf: &[u8])
        requires
            old(self).wf(),
        ensures
            final(self).wf(),
            final(self)@ == (RequestView { data: old(self)@.data + buf@, ..old(self)@ }),
    {
        append_bytes(&mut self.data, buf);
        proof {
            let v = self@;
            assert forall|i: int| 0 <= i < v.headers.len() implies header_within(
                #[trigger] v.headers[i],
                v.data.len() as int,
            ) by {
                assert(header_within(old(self)@.headers[i], old(self)@.data.len() as int));
            }
        }
    }

    /// The value of the first header named `Content-Length`, in any case,
    /// read as a number; `None` when there is no such header or its value is
    /// not an unsigned decimal number that fits in a `usize`.
    pub fn content_length(&self) -> (r: Option<usize>)
        requires
            self.wf(),
        ensures
            r == self@.content_length(),
            (forall|i: int|
                0 <= i < self@.headers.len() ==> !names_content_length(
                    #[trigger] self@.header_name(i),
                )) ==> r is None,
    {
        let data = as_bytes(&self.data);
        let name = content_length_literal();
        let ghost v = self@;
        let mut i: usize = 0;
        while i < self.headers.len()
            invariant
                v == self@,
                v.well_formed(),
                data@ == v.data,
                name@ == content_length_name(),
                i <= v.headers.len(),
                v.headers == self.headers@,
                v.content_length() == v.content_length_from(i as int),
                (forall|k: int| 0 <= k < i ==> !names_content_length(#[trigger] v.header_name(k))),
            decreases v.headers.len() - i,
        {
            let (n, value) = self.headers[i];
            assert(header_within(v.headers[i as int], data@.len() as int));
            if eq_ignoring_case(slice_subrange(data, n.0, n.1), name) {
                return parse_decimal(slice_subrange(data, value.0, value.1));
            }
            i = i + 1;
        }
        None
    }

    /// The headers, in the order they were received.
    pub fn headers(&self) -> (r: RequestHeaders<'_>)
        requires
            self.wf(),
        ensures
            r.valid(),
            r.request() == self@,
            r.position() == 0,
    {
        RequestHeaders { req: self, next: 0 }
    }
}

/// A walk over a request's headers, in the order they were received.
pub struct RequestHeaders<'req> {
    req: &'req Request,
    next: usize,
}

impl<'req> RequestHeaders<'req> {
    pub closed spec fn request(&self) -> RequestView {
        self.req@
    }

    /// How many headers have been handed out.
    pub closed spec fn position(&self) -> int {
        self.next as int
    }

    pub closed spec fn valid(&self) -> bool {
        self.req.wf() && self.next <= self.req@.headers.len()
    }

    /// The next header as `(name, value)`, or `None` after the last one. A
    /// name that is not valid UTF-8 gives `InvalidEncoding`.
    pub fn next(&mut self) -> (r: Option<Result<(&'req str, &'req [u8]), RequestError>>)
        requires
            old(self).valid(),
        ensures
            final(self).valid(),
            final(self).request() == old(self).request(),
            ({
                let v = old(self).request();
                let i = old(self).position();
                if i >= v.headers.len() {
                    r is None && final(self).position() == i
                } else {
                    &&& final(self).position() == i + 1
                    &&& r is Some
                    &&& (r->Some_0 is Ok <==> valid_utf8(v.header_name(i)))
                    &&& r matches Some(Ok((name, value))) ==> name.spec_bytes() == v.header_name(i)
                        && value@ == v.header_value(i)
                    &&& r matches Some(Err(e)) ==> e == RequestError::InvalidEncoding
                }
            }),
    {
        let req: &'req Request = self.req;
        if self.next >= req.headers.len() {
            return None;
        }
        let (n, value) = req.headers[self.next];
        let data = as_bytes(&req.data);
        assert(header_within(req@.headers[self.next as int], data@.len() as int));
        self.next = self.next + 1;
        match text_at(data, n) {
            Ok(name) => Some(Ok((name, slice_subrange(data, value.0, value.1)))),
            Err(e) => Some(Err(e)),
        }
    }
}

} // verus!
