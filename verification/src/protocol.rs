//! The request and response protocol, one line at a time.
//!
//! A line is answered in steps, and this module decides each of them; reading the line,
//! decoding it, reading the file and writing the answer are left to the caller:
//!
//! 1. [`is_blank`]: a blank line gets no answer.
//! 2. The caller decodes the line; [`on_decoded`] says whether to answer with an error at
//!    once or to load the file that the request names.
//! 3. The caller reads the file; [`on_loaded`] gives the answer.
//!
//! Every line that is not blank gets exactly one answer, a list of functions or an error,
//! and a failure on one line does not touch the next.

use crate::functions::{functions_view, well_formed, Function, FunctionView};
use crate::markers::{standard_markers, Markers};
use crate::scan::{scan_source, source_functions, ScanError};
use vstd::prelude::*;
use vstd::std_specs::iter::IteratorSpec;

verus! {

/// A request: the functions of which file, and the id to answer under.
#[derive(Clone, Debug, PartialEq, Eq)]
pub struct Request {
    pub file: String,
    pub id: String,
}

/// The answer to a request that succeeded.
#[derive(Clone, Debug, PartialEq, Eq)]
pub struct Response {
    /// The id of the request.
    pub id: String,
    /// The functions of the file, in source order; there may be none.
    pub functions: Vec<Function>,
}

/// The answer to a request that failed.
#[derive(Clone, Debug, PartialEq, Eq)]
pub struct ErrorResponse {
    /// The id of the request, or the empty string where the request could not be decoded.
    pub id: String,
    /// What went wrong.
    pub error: String,
}

/// What a [`Response`] holds.
pub struct ResponseView {
    pub id: Seq<char>,
    pub functions: Seq<FunctionView>,
}

/// What an [`ErrorResponse`] holds.
pub struct ErrorResponseView {
    pub id: Seq<char>,
    pub error: Seq<char>,
}

impl View for Response {
    type V = ResponseView;

    open spec fn view(&self) -> ResponseView {
        ResponseView { id: self.id@, functions: functions_view(self.functions@) }
    }
}

impl View for ErrorResponse {
    type V = ErrorResponseView;

    open spec fn view(&self) -> ErrorResponseView {
        ErrorResponseView { id: self.id@, error: self.error@ }
    }
}

/// The one answer that a line gets.
#[derive(Clone, Debug, PartialEq, Eq)]
pub enum Reply {
    Functions(Response),
    Failure(ErrorResponse),
}

/// What to do once the line has been decoded.
#[derive(Clone, Debug, PartialEq, Eq)]
pub enum Step {
    /// Read the file that the request names, then call [`on_loaded`].
    Load(Request),
    /// Answer with this error.
    Answer(ErrorResponse),
}

/// Whether a character is white space, as `char::is_whitespace` tells.
pub uninterp spec fn is_white_space(c: char) -> bool;

/// `char::is_whitespace` tells whether a character has the Unicode property `White_Space`.
pub assume_specification[ char::is_whitespace ](c: char) -> (r: bool)
    ensures
        r == is_white_space(c),
;

/// A line is blank where it holds nothing but white space.
pub open spec fn blank(line: Seq<char>) -> bool {
    forall|i: int| 0 <= i < line.len() ==> is_white_space(#[trigger] line[i])
}

/// Tells whether a line is blank. A blank line is passed over: it gets no answer.
pub fn is_blank(line: &str) -> (r: bool)
    ensures
        r == blank(line@),
{
    broadcast use vstd::string::group_string_axioms;

    for c in it: line.chars()
        invariant
            it.seq() == line@,
            forall|i: int| 0 <= i < it.index() ==> is_white_space(#[trigger] line@[i]),
    {
        if !c.is_whitespace() {
            return false;
        }
    }
    true
}

/// The answer to a request that failed with `error`, under the id `id`.
pub fn failure(id: String, error: &ScanError) -> (answer: ErrorResponse)
    ensures
        answer.id == id,
        answer.error@ == error.text(),
{
    ErrorResponse { id, error: error.message() }
}

/// What comes after decoding. The request was decoded: load its file. It was not: answer
/// with the decoder's message, under the empty id, as there is no id to answer under.
pub fn on_decoded(decoded: Result<Request, String>) -> (step: Step)
    ensures
        match decoded {
            Ok(request) => step == Step::Load(request),
            Err(why) => step matches Step::Answer(answer) && answer.id@.len() == 0
                && answer.error@ == ScanError::RequestDecode(why).text(),
        },
{
    match decoded {
        Ok(request) => Step::Load(request),
        Err(why) => Step::Answer(failure(String::new(), &ScanError::RequestDecode(why))),
    }
}

/// What [`read_functions_from_file`] may return for a request and for what reading its
/// file gave.
pub open spec fn read_outcome(
    request: Request,
    loaded: Result<String, String>,
    outcome: Result<Response, ScanError>,
) -> bool {
    match loaded {
        Err(why) => outcome == Err::<Response, ScanError>(ScanError::FileAccess(why)),
        Ok(source) => match outcome {
            Ok(response) => response.id == request.id && source_functions(
                source@,
                standard_markers(),
            ) == Some(functions_view(response.functions@)),
            Err(ScanError::ParseFailure) => source_functions(source@, standard_markers())
                is None,
            Err(ScanError::ParserUnavailable(_)) => true,
            Err(_) => false,
        },
    }
}

/// Two outcomes say the same: the same id and functions, or the same error.
pub open spec fn same_outcome(
    first: Result<Response, ScanError>,
    second: Result<Response, ScanError>,
) -> bool {
    match (first, second) {
        (Ok(a), Ok(b)) => a@ == b@,
        (Err(a), Err(b)) => a == b,
        _ => false,
    }
}

/// Reading is repeatable and keeps nothing from one request to the next: what a request
/// is answered with depends on the request and on the text of its file alone, whatever was
/// asked or answered before, as long as the parser is available.
pub proof fn lemma_reads_agree(
    request: Request,
    loaded: Result<String, String>,
    first: Result<Response, ScanError>,
    second: Result<Response, ScanError>,
)
    requires
        read_outcome(request, loaded, first),
        read_outcome(request, loaded, second),
        !(first matches Err(ScanError::ParserUnavailable(_))),
        !(second matches Err(ScanError::ParserUnavailable(_))),
    ensures
        same_outcome(first, second),
{
}

/// The functions of the file that a request names, with the standard markers. `loaded` is
/// what reading the file as text gave: the text, or why it could not be read.
pub fn read_functions_from_file(request: &Request, loaded: Result<String, String>) -> (outcome:
    Result<Response, ScanError>)
    ensures
        read_outcome(*request, loaded, outcome),
        outcome matches Ok(response) ==> forall|k: int|
            0 <= k < response.functions.len() ==> well_formed(#[trigger] response.functions[k]@),
{
    let source_code = match loaded {
        Ok(text) => text,
        Err(why) => {
            return Err(ScanError::FileAccess(why));
        },
    };
    let markers = Markers::standard();
    match scan_source(source_code.as_str(), &markers) {
        Ok(functions) => Ok(Response { id: request.id.clone(), functions }),
        Err(error) => Err(error),
    }
}

/// The answer to a request whose file the caller has tried to read: the functions of the
/// file, or the error's message, either of them under the id of the request. A file that
/// could not be read is answered with the reader's message as it came.
pub fn on_loaded(request: &Request, loaded: Result<String, String>) -> (reply: Reply)
    ensures
        match reply {
            Reply::Functions(response) => read_outcome(*request, loaded, Ok(response)),
            Reply::Failure(answer) => answer.id == request.id && exists|error: ScanError|
                read_outcome(*request, loaded, Err(error)) && answer.error@ == error.text(),
        },
        reply matches Reply::Functions(response) ==> forall|k: int|
            0 <= k < response.functions.len() ==> well_formed(#[trigger] response.functions[k]@),
        loaded matches Err(why) ==> reply matches Reply::Failure(answer) && answer.id == request.id
            && answer.error@ == why@,
{
    match read_functions_from_file(request, loaded) {
        Ok(response) => Reply::Functions(response),
        Err(error) => Reply::Failure(failure(request.id.clone(), &error)),
    }
}

} // verus!
