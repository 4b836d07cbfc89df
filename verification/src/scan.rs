//! Scanning a source text: parse it, read the functions off the tree, or say what failed.

use crate::functions::{
    functions_in_tree, functions_of, functions_view, lemma_functions_of_pruned, well_formed,
    Function, FunctionView,
};
use crate::markers::{Markers, MarkersView};
use crate::provider::{parse_source, python_syntax, source_syntax, ProviderError, SCAN_DEPTH};
use crate::syntax::{SyntaxNode, SyntaxTree};
use vstd::prelude::*;

verus! {

/// Why a request was not answered with a list of functions.
#[derive(Clone, Debug, PartialEq, Eq)]
pub enum ScanError {
    /// The request line could not be decoded; the text says why.
    RequestDecode(String),
    /// The file could not be read as text; the text says why.
    FileAccess(String),
    /// The parser could not be set up; the text says why.
    ParserUnavailable(String),
    /// The parser built no tree for the text, or none that fits it.
    ParseFailure,
}

impl ScanError {
    /// The message of the error.
    pub open spec fn text(self) -> Seq<char> {
        match self {
            ScanError::RequestDecode(why) => why@,
            ScanError::FileAccess(why) => why@,
            ScanError::ParserUnavailable(why) => why@,
            ScanError::ParseFailure => "Failed to parse"@,
        }
    }

    /// The message of the error, for the one who sent the request.
    pub fn message(&self) -> (message: String)
        ensures
            message@ == self.text(),
    {
        match self {
            ScanError::RequestDecode(why) => why.clone(),
            ScanError::FileAccess(why) => why.clone(),
            ScanError::ParserUnavailable(why) => why.clone(),
            ScanError::ParseFailure => "Failed to parse".to_owned(),
        }
    }
}

/// The functions that a tree gives for a source text, where the tree fits the text.
pub open spec fn tree_functions(root: SyntaxTree, source: Seq<char>, markers: MarkersView) -> Option<
    Seq<FunctionView>,
> {
    if root.fits(source) {
        Some(functions_of(root, source, markers))
    } else {
        None
    }
}

/// The functions of a source text: those that the top of its syntax tree gives, where the
/// parser builds a tree and the tree fits the text.
pub open spec fn source_functions(source: Seq<char>, markers: MarkersView) -> Option<
    Seq<FunctionView>,
> {
    match source_syntax(source) {
        Some(root) => tree_functions(root, source, markers),
        None => None,
    }
}

/// What [`scan_source`] may return for a source text.
pub open spec fn scan_outcome(
    source: Seq<char>,
    markers: MarkersView,
    outcome: Result<Seq<FunctionView>, ScanError>,
) -> bool {
    match outcome {
        Ok(functions) => source_functions(source, markers) == Some(functions),
        Err(ScanError::ParseFailure) => source_functions(source, markers) is None,
        Err(ScanError::ParserUnavailable(_)) => true,
        Err(_) => false,
    }
}

/// What a scan returned, with the functions as their views.
pub open spec fn outcome_view(outcome: Result<Vec<Function>, ScanError>) -> Result<
    Seq<FunctionView>,
    ScanError,
> {
    match outcome {
        Ok(functions) => Ok(functions_view(functions@)),
        Err(error) => Err(error),
    }
}

/// Scanning is repeatable: two scans of one text with the same markers that both find the
/// parser available return the same, be it the same list of functions or the same failure.
pub proof fn lemma_scans_agree(
    source: Seq<char>,
    markers: MarkersView,
    first: Result<Seq<FunctionView>, ScanError>,
    second: Result<Seq<FunctionView>, ScanError>,
)
    requires
        scan_outcome(source, markers, first),
        scan_outcome(source, markers, second),
        !(first matches Err(ScanError::ParserUnavailable(_))),
        !(second matches Err(ScanError::ParserUnavailable(_))),
    ensures
        first == second,
{
}

/// Nothing is lost by reading the top of the tree alone: where the whole tree of a text fits
/// the text, the functions of the text are those that the whole tree gives.
pub proof fn lemma_scan_reads_whole_tree(source: Seq<char>, markers: MarkersView)
    requires
        python_syntax(source) matches Some(tree) && tree.fits(source),
    ensures
        source_functions(source, markers) == Some(
            functions_of(python_syntax(source).unwrap(), source, markers),
        ),
{
    let tree = python_syntax(source).unwrap();
    tree.lemma_pruned_fits(SCAN_DEPTH as nat, source);
    lemma_functions_of_pruned(tree, source, markers, SCAN_DEPTH as nat);
}

/// The functions that a tree gives for a source text, or `None` where the tree does not
/// fit the text.
pub fn scan_tree(root: &SyntaxNode, source: &str, markers: &Markers) -> (functions: Option<
    Vec<Function>,
>)
    ensures
        match functions {
            Some(list) => tree_functions(root@, source@, markers@) == Some(functions_view(list@)),
            None => tree_functions(root@, source@, markers@) is None,
        },
        functions matches Some(list) ==> forall|k: int|
            0 <= k < list.len() ==> well_formed(#[trigger] list[k]@),
{
    if root.fits(source) {
        Some(functions_in_tree(root, source, markers))
    } else {
        None
    }
}

/// What to make of what the provider gave for a source text: the functions of its tree,
/// a parse failure where it built no tree or one that does not fit the text, or that the
/// parser is unavailable, with the provider's reason.
pub fn scan_parsed(
    parsed: Result<SyntaxNode, ProviderError>,
    source: &str,
    markers: &Markers,
) -> (outcome: Result<Vec<Function>, ScanError>)
    ensures
        match parsed {
            Ok(root) => match tree_functions(root@, source@, markers@) {
                Some(functions) => outcome_view(outcome) == Ok::<Seq<FunctionView>, ScanError>(
                    functions,
                ),
                None => outcome == Err::<Vec<Function>, ScanError>(ScanError::ParseFailure),
            },
            Err(ProviderError::NoTree) => outcome == Err::<Vec<Function>, ScanError>(
                ScanError::ParseFailure,
            ),
            Err(ProviderError::Unavailable(why)) => outcome == Err::<Vec<Function>, ScanError>(
                ScanError::ParserUnavailable(why),
            ),
        },
        outcome matches Ok(list) ==> forall|k: int|
            0 <= k < list.len() ==> well_formed(#[trigger] list[k]@),
{
    match parsed {
        Ok(root) => match scan_tree(&root, source, markers) {
            Some(functions) => Ok(functions),
            None => Err(ScanError::ParseFailure),
        },
        Err(ProviderError::NoTree) => Err(ScanError::ParseFailure),
        Err(ProviderError::Unavailable(why)) => Err(ScanError::ParserUnavailable(why)),
    }
}

/// The functions of a source text.
///
/// Whether the parser can be set up is for the provider to say. Where it can, the outcome
/// depends on the text and the markers alone.
pub fn scan_source(source: &str, markers: &Markers) -> (outcome: Result<Vec<Function>, ScanError>)
    ensures
        scan_outcome(source@, markers@, outcome_view(outcome)),
        outcome matches Ok(list) ==> forall|k: int|
            0 <= k < list.len() ==> well_formed(#[trigger] list[k]@),
{
    scan_parsed(parse_source(source), source, markers)
}

} // verus!
