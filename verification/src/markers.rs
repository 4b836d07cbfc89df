//! The decorator filter: which decorated definitions are reported.
//!
//! A definition is judged by the source text of its decorators alone, arguments included.
//! It is accepted when some decorator's text contains a supported marker and no decorator's
//! text contains an excluded marker. Nothing is resolved: a decorator that is imported under
//! another name is matched by the name it is written with.

use crate::syntax::{Branch, SyntaxNode, SyntaxTree};
use crate::text::{contains_any, contains_text, mentions_any, texts_of};
use vstd::prelude::*;

verus! {

/// A decorator filter: the markers that it looks for in the text of a decorator.
#[derive(Clone, Debug, PartialEq, Eq)]
pub struct Markers {
    /// A definition needs a decorator that contains one of these.
    pub supported: Vec<String>,
    /// A definition is rejected where a decorator contains one of these.
    pub excluded: Vec<String>,
}

/// What a [`Markers`] holds, as texts.
pub struct MarkersView {
    pub supported: Seq<Seq<char>>,
    pub excluded: Seq<Seq<char>>,
}

impl View for Markers {
    type V = MarkersView;

    open spec fn view(&self) -> MarkersView {
        MarkersView { supported: texts_of(self.supported@), excluded: texts_of(self.excluded@) }
    }
}

/// The supported markers of the standard configuration.
pub const SUPPORTED_DECORATORS: [&'static str; 2] = ["local_entrypoint", "function"];

/// The excluded markers of the standard configuration.
pub const EXCLUDED_DECORATORS: [&'static str; 2] = ["web_endpoint", "schedule"];

/// The markers of the standard configuration.
pub open spec fn standard_markers() -> MarkersView {
    MarkersView {
        supported: seq!["local_entrypoint"@, "function"@],
        excluded: seq!["web_endpoint"@, "schedule"@],
    }
}

/// The markers of an array, as owned strings in the same order.
fn owned_markers(markers: &[&'static str; 2]) -> (owned: Vec<String>)
    ensures
        texts_of(owned@) == seq![markers[0]@, markers[1]@],
{
    let mut owned: Vec<String> = Vec::new();
    let mut i: usize = 0;
    while i < 2
        invariant
            i <= 2,
            owned.len() == i,
            forall|j: int| 0 <= j < i ==> (#[trigger] owned[j])@ == markers[j]@,
        decreases 2 - i,
    {
        owned.push(markers[i].to_owned());
        i += 1;
    }
    assert(texts_of(owned@) =~= seq![markers[0]@, markers[1]@]);
    owned
}

impl Markers {
    /// Markers as given.
    pub fn new(supported: Vec<String>, excluded: Vec<String>) -> (markers: Markers)
        ensures
            markers.supported == supported,
            markers.excluded == excluded,
    {
        Markers { supported, excluded }
    }

    /// The standard configuration: `local_entrypoint` and `function` are supported,
    /// `web_endpoint` and `schedule` are excluded.
    pub fn standard() -> (markers: Markers)
        ensures
            markers@ == standard_markers(),
    {
        Markers {
            supported: owned_markers(&SUPPORTED_DECORATORS),
            excluded: owned_markers(&EXCLUDED_DECORATORS),
        }
    }
}

/// The child is a decorator.
pub open spec fn is_decorator(branch: Branch) -> bool {
    branch.tree.kind == "decorator"@
}

/// The child `i` of `node` is a decorator whose text contains one of `patterns`.
pub open spec fn decorator_mentions(
    node: SyntaxTree,
    source: Seq<char>,
    patterns: Seq<Seq<char>>,
    i: int,
) -> bool {
    &&& 0 <= i < node.children.len()
    &&& is_decorator(node.children[i])
    &&& contains_any(node.children[i].tree.text(source), patterns)
}

/// Some decorator of `node` contains one of `patterns`.
pub open spec fn some_decorator_mentions(
    node: SyntaxTree,
    source: Seq<char>,
    patterns: Seq<Seq<char>>,
) -> bool {
    exists|i: int| decorator_mentions(node, source, patterns, i)
}

/// The filter accepts `node`: some decorator of it contains a supported marker, and none
/// contains an excluded marker.
pub open spec fn accepts(node: SyntaxTree, source: Seq<char>, markers: MarkersView) -> bool {
    &&& some_decorator_mentions(node, source, markers.supported)
    &&& !some_decorator_mentions(node, source, markers.excluded)
}

/// Exclusion wins: a definition with a decorator that contains an excluded marker is
/// rejected, whatever its other decorators contain.
pub proof fn lemma_excluded_marker_rejects(
    node: SyntaxTree,
    source: Seq<char>,
    markers: MarkersView,
    decorator: int,
    marker: int,
)
    requires
        0 <= decorator < node.children.len(),
        is_decorator(node.children[decorator]),
        0 <= marker < markers.excluded.len(),
        contains_text(node.children[decorator].tree.text(source), markers.excluded[marker]),
    ensures
        !accepts(node, source, markers),
{
    assert(decorator_mentions(node, source, markers.excluded, decorator));
}

/// A definition without decorators is rejected, and so is one none of whose decorators
/// contains a supported marker.
pub proof fn lemma_no_supported_marker_rejects(
    node: SyntaxTree,
    source: Seq<char>,
    markers: MarkersView,
)
    requires
        forall|i: int|
            0 <= i < node.children.len() && is_decorator(#[trigger] node.children[i])
                ==> !contains_any(node.children[i].tree.text(source), markers.supported),
    ensures
        !accepts(node, source, markers),
{
}

/// Every decorator of `first` has its text on some decorator of `second`.
pub open spec fn decorators_among(first: SyntaxTree, second: SyntaxTree, source: Seq<char>) -> bool {
    forall|i: int|
        0 <= i < first.children.len() && is_decorator(#[trigger] first.children[i]) ==> exists|
            j: int,
        |
            0 <= j < second.children.len() && is_decorator(#[trigger] second.children[j])
                && second.children[j].tree.text(source) == first.children[i].tree.text(source)
}

/// The order of the decorators does not matter, nor does anything else but their texts: two
/// definitions that carry the same decorator texts are judged the same.
pub proof fn lemma_accepts_by_decorator_texts(
    first: SyntaxTree,
    second: SyntaxTree,
    source: Seq<char>,
    markers: MarkersView,
)
    requires
        decorators_among(first, second, source),
        decorators_among(second, first, source),
    ensures
        accepts(first, source, markers) == accepts(second, source, markers),
{
    lemma_mentions_carry_over(first, second, source, markers.supported);
    lemma_mentions_carry_over(second, first, source, markers.supported);
    lemma_mentions_carry_over(first, second, source, markers.excluded);
    lemma_mentions_carry_over(second, first, source, markers.excluded);
}

proof fn lemma_mentions_carry_over(
    first: SyntaxTree,
    second: SyntaxTree,
    source: Seq<char>,
    patterns: Seq<Seq<char>>,
)
    requires
        decorators_among(first, second, source),
    ensures
        some_decorator_mentions(first, source, patterns) ==> some_decorator_mentions(
            second,
            source,
            patterns,
        ),
{
    if some_decorator_mentions(first, source, patterns) {
        let i = choose|i: int| decorator_mentions(first, source, patterns, i);
        assert(is_decorator(first.children[i]));
        let j = choose|j: int|
            0 <= j < second.children.len() && is_decorator(#[trigger] second.children[j])
                && second.children[j].tree.text(source) == first.children[i].tree.text(source);
        assert(decorator_mentions(second, source, patterns, j));
    }
}

/// Cut below its children, a definition has the same decorators with the same texts.
proof fn lemma_mentions_pruned(
    node: SyntaxTree,
    source: Seq<char>,
    patterns: Seq<Seq<char>>,
    depth: nat,
)
    requires
        depth >= 1,
    ensures
        some_decorator_mentions(node.pruned(depth), source, patterns) == some_decorator_mentions(
            node,
            source,
            patterns,
        ),
{
    let cut = node.pruned(depth);
    node.lemma_pruned_unfolds(depth);
    assert forall|i: int|
        decorator_mentions(cut, source, patterns, i) == decorator_mentions(
            node,
            source,
            patterns,
            i,
        ) by {
        if 0 <= i < node.children.len() {
            node.children[i].tree.lemma_pruned_unfolds((depth - 1) as nat);
        }
    }
    if some_decorator_mentions(cut, source, patterns) {
        let i = choose|i: int| decorator_mentions(cut, source, patterns, i);
        assert(decorator_mentions(node, source, patterns, i));
    }
    if some_decorator_mentions(node, source, patterns) {
        let i = choose|i: int| decorator_mentions(node, source, patterns, i);
        assert(decorator_mentions(cut, source, patterns, i));
    }
}

/// The filter reads a definition and its children: cut below them, the definition is
/// judged the same.
pub proof fn lemma_accepts_pruned(
    node: SyntaxTree,
    source: Seq<char>,
    markers: MarkersView,
    depth: nat,
)
    requires
        depth >= 1,
    ensures
        accepts(node.pruned(depth), source, markers) == accepts(node, source, markers),
{
    lemma_mentions_pruned(node, source, markers.supported, depth);
    lemma_mentions_pruned(node, source, markers.excluded, depth);
}

/// Tells whether the filter with the standard markers accepts a decorated definition.
pub fn has_supported_decorator(node: &SyntaxNode, source_code: &str) -> (r: bool)
    requires
        node@.fits(source_code@),
    ensures
        r == accepts(node@, source_code@, standard_markers()),
{
    Markers::standard().accepts(node, source_code)
}

impl Markers {
    /// Tells whether the filter with these markers accepts a decorated definition.
    pub fn accepts(&self, node: &SyntaxNode, source_code: &str) -> (r: bool)
        requires
            node@.fits(source_code@),
        ensures
            r == accepts(node@, source_code@, self@),
    {
        proof {
            node.lemma_tree_unfolds();
        }
        let mut has_supported = false;
        let mut i: usize = 0;
        while i < node.children.len()
            invariant
                i <= node.children.len(),
                node@.fits(source_code@),
                node@.children.len() == node.children.len(),
                forall|j: int|
                    0 <= j < node.children.len() ==> (#[trigger] node@.children[j]).tree
                        == node.children[j].node@,
                has_supported == (exists|j: int|
                    0 <= j < i && decorator_mentions(node@, source_code@, self@.supported, j)),
                forall|j: int|
                    0 <= j < i ==> !decorator_mentions(node@, source_code@, self@.excluded, j),
            decreases node.children.len() - i,
        {
            let decorator = &node.children[i].node;
            assert(node@.children[i as int].tree.fits(source_code@));
            if decorator.is_kind("decorator") {
                let decorator_text = decorator.text(source_code);
                if mentions_any(decorator_text, &self.excluded) {
                    assert(decorator_mentions(node@, source_code@, self@.excluded, i as int));
                    return false;
                }
                if mentions_any(decorator_text, &self.supported) {
                    assert(decorator_mentions(node@, source_code@, self@.supported, i as int));
                    has_supported = true;
                }
            }
            i += 1;
        }
        has_supported
    }
}

} // verus!
