//! The request-head grammar, as the `httparse` parser reports it: the
//! position of each field as a byte range into the parsed input.
use httparse::{Status, EMPTY_HEADER};
use vstd::prelude::*;

verus! {

#[verifier::external_type_specification]
pub struct ExGrammarError(httparse::Error);

/// A field's location: `(start, end)` byte indices into one buffer.
pub type Span = (usize, usize);

/// What a complete parse reports, each field as a range into the input.
pub struct HeadFields {
    pub method: Span,
    pub path: Span,
    /// The minor version: 0 for HTTP/1.0, 1 for HTTP/1.1.
    pub version: u8,
    /// `(name, value)` ranges in the order the headers appear.
    pub headers: Vec<(Span, Span)>,
    /// Length of the head, through the blank line that ends it.
    pub len: usize,
}

pub struct HeadFieldsView {
    pub method: Span,
    pub path: Span,
    pub version: u8,
    pub headers: Seq<(Span, Span)>,
    pub len: usize,
}

impl View for HeadFields {
    type V = HeadFieldsView;

    open spec fn view(&self) -> HeadFieldsView {
        HeadFieldsView {
            method: self.method,
            path: self.path,
            version: self.version,
            headers: self.headers@,
            len: self.len,
        }
    }
}

/// The outcome of a parse: `Ok(None)` when more bytes are needed.
pub type GrammarOutcome = Result<Option<HeadFieldsView>, httparse::Error>;

pub open spec fn outcome_view(r: Result<Option<HeadFields>, httparse::Error>) -> GrammarOutcome {
    match r {
        Ok(Some(h)) => Ok(Some(h@)),
        Ok(None) => Ok(None),
        Err(e) => Err(e),
    }
}

/// What `httparse` reports for `input` with a table of `slots` header slots.
pub uninterp spec fn grammar_outcome(input: Seq<u8>, slots: nat) -> GrammarOutcome;

/// Relies on `httparse::Request::parse`: its outcome depends on the input and
/// the number of header slots alone, and an empty input is a partial request.
/// Each field the parser hands back is a subslice of `input`; its range is
/// read off from its distance to the start of `input`.
#[verifier::external_body]
pub(crate) fn parse_head(input: &[u8], slots: usize) -> (r: Result<Option<HeadFields>, httparse::Error>)
    ensures
        outcome_view(r) == grammar_outcome(input@, slots as nat),
        input@.len() == 0 ==> r matches Ok(None),
{
    let mut table = vec![EMPTY_HEADER; slots];
    let mut req = httparse::Request::new(&mut table);
    let Status::Complete(len) = req.parse(input)? else {
        return Ok(None);
    };
    let at = |s: &[u8]| { let o = s.as_ptr() as usize - input.as_ptr() as usize; (o, o + s.len()) };
    let headers = req.headers.iter().map(|h| (at(h.name.as_bytes()), at(h.value))).collect();
    let method = at(req.method.unwrap().as_bytes());
    let path = at(req.path.unwrap().as_bytes());
    Ok(Some(HeadFields { method, path, version: req.version.unwrap(), headers, len }))
}

} // verus!
