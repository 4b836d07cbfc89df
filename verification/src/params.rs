//! The parameter classifier: from the parameter list of a function definition to its
//! parameters, each as a name, an annotation and a default value, all three as source text.
//!
//! Four forms of parameter are recognised: `x`, `x: T`, `x: T = E` and `x = E`. Every other
//! form (`*args`, `**kwargs`, the bare separators `*` and `/`, ...) yields no parameter, and so
//! does a parameter without a name or named `self`. The annotation `T` and the default `E`
//! are given as they are written, whatever they are: a literal, a name, a call.

use crate::syntax::{
    kind_from, lemma_field_from, lemma_kind_from, lemma_kind_from_pruned, SyntaxNode, SyntaxTree,
};
use crate::text::same_text;
use vstd::prelude::*;

verus! {

/// One parameter of a function.
#[derive(Clone, Debug, PartialEq, Eq)]
pub struct Param {
    /// The parameter's name: never empty and never `self`.
    pub name: String,
    /// The source text of the annotation, or nothing.
    pub param_type: String,
    /// The source text of the default value, or nothing.
    pub default: String,
}

/// What a [`Param`] holds, as texts.
pub struct ParamView {
    pub name: Seq<char>,
    pub param_type: Seq<char>,
    pub default: Seq<char>,
}

impl View for Param {
    type V = ParamView;

    open spec fn view(&self) -> ParamView {
        ParamView { name: self.name@, param_type: self.param_type@, default: self.default@ }
    }
}

/// What a vector of parameters holds, in order.
pub open spec fn params_view(params: Seq<Param>) -> Seq<ParamView> {
    Seq::new(params.len(), |i: int| params[i]@)
}

/// The source text of the first child of `node` that is of the kind `kind`, or nothing
/// where there is no such child.
pub open spec fn first_child_text(node: SyntaxTree, kind: Seq<char>, source: Seq<char>) -> Seq<
    char,
> {
    match node.first_of_kind(kind) {
        Some(child) => child.text(source),
        None => Seq::empty(),
    }
}

/// The source text of the last child of `node`, or nothing where it has no child.
pub open spec fn last_child_text(node: SyntaxTree, source: Seq<char>) -> Seq<char> {
    if node.children.len() == 0 {
        Seq::empty()
    } else {
        node.children.last().tree.text(source)
    }
}

/// The kinds of the marks that stand before the default value in `x: T = E`: the colon, the
/// annotation and the equals sign.
pub open spec fn precedes_default(kind: Seq<char>) -> bool {
    kind == "="@ || kind == "type"@ || kind == ":"@
}

/// The last child of `node` is its name: the first child of the kind `identifier`.
pub open spec fn ends_in_name(node: SyntaxTree) -> bool {
    kind_from(node.children, "identifier"@, 0) == Some(node.children.len() - 1)
}

/// The default value of `x: T = E`: the text of the last child, unless that child is the
/// name, the colon, the annotation or the equals sign. A value that is itself a bare name,
/// as in `x: T = N`, is a default like any other.
pub open spec fn trailing_value_text(node: SyntaxTree, source: Seq<char>) -> Seq<char> {
    if node.children.len() > 0 && !ends_in_name(node) && !precedes_default(
        node.children.last().tree.kind,
    ) {
        node.children.last().tree.text(source)
    } else {
        Seq::empty()
    }
}

/// What a parameter node spells, by its form; `None` for a form that is not recognised.
pub open spec fn spelled_param(node: SyntaxTree, source: Seq<char>) -> Option<ParamView> {
    if node.kind == "typed_parameter"@ {
        Some(
            ParamView {
                name: first_child_text(node, "identifier"@, source),
                param_type: first_child_text(node, "type"@, source),
                default: Seq::empty(),
            },
        )
    } else if node.kind == "typed_default_parameter"@ {
        Some(
            ParamView {
                name: first_child_text(node, "identifier"@, source),
                param_type: first_child_text(node, "type"@, source),
                default: trailing_value_text(node, source),
            },
        )
    } else if node.kind == "default_parameter"@ {
        Some(
            ParamView {
                name: first_child_text(node, "identifier"@, source),
                param_type: Seq::empty(),
                default: last_child_text(node, source),
            },
        )
    } else if node.kind == "identifier"@ {
        Some(
            ParamView {
                name: node.text(source),
                param_type: Seq::empty(),
                default: Seq::empty(),
            },
        )
    } else {
        None
    }
}

/// A parameter that is reported: one with a name other than `self`.
pub open spec fn reportable(param: ParamView) -> bool {
    param.name.len() > 0 && param.name != "self"@
}

/// The parameter that a node of a parameter list contributes, if any.
pub open spec fn param_of(node: SyntaxTree, source: Seq<char>) -> Option<ParamView> {
    match spelled_param(node, source) {
        Some(param) => if reportable(param) {
            Some(param)
        } else {
            None
        },
        None => None,
    }
}

/// The parameters that the first `n` children of a parameter list contribute, in order.
pub open spec fn params_upto(list: SyntaxTree, source: Seq<char>, n: int) -> Seq<ParamView>
    decreases n,
{
    if n <= 0 {
        Seq::empty()
    } else {
        let before = params_upto(list, source, n - 1);
        match param_of(list.children[n - 1].tree, source) {
            Some(param) => before.push(param),
            None => before,
        }
    }
}

/// The parameters of a parameter list, in source order.
pub open spec fn params_in(list: SyntaxTree, source: Seq<char>) -> Seq<ParamView> {
    params_upto(list, source, list.children.len() as int)
}

/// The parameters of a function definition: those of the child that it holds under the
/// field `parameters`, and none where it holds no such child.
pub open spec fn params_of(definition: SyntaxTree, source: Seq<char>) -> Seq<ParamView> {
    match definition.field("parameters"@) {
        Some(list) => params_in(list, source),
        None => Seq::empty(),
    }
}

/// No parameter of a parameter list is named `self`, and none is without a name.
pub proof fn lemma_params_reportable(list: SyntaxTree, source: Seq<char>, n: int)
    ensures
        forall|j: int|
            0 <= j < params_upto(list, source, n).len() ==> reportable(
                #[trigger] params_upto(list, source, n)[j],
            ),
    decreases n,
{
    if n > 0 {
        lemma_params_reportable(list, source, n - 1);
        let before = params_upto(list, source, n - 1);
        assert forall|j: int| 0 <= j < params_upto(list, source, n).len() implies reportable(
            #[trigger] params_upto(list, source, n)[j],
        ) by {
            if j < before.len() {
                assert(params_upto(list, source, n)[j] == before[j]);
            }
        }
    }
}

/// No parameter of a function definition is named `self`, and none is without a name.
pub proof fn lemma_no_self_param(definition: SyntaxTree, source: Seq<char>)
    ensures
        forall|j: int|
            0 <= j < params_of(definition, source).len() ==> {
                &&& (#[trigger] params_of(definition, source)[j]).name != "self"@
                &&& params_of(definition, source)[j].name.len() > 0
            },
{
    match definition.field("parameters"@) {
        Some(list) => lemma_params_reportable(list, source, list.children.len() as int),
        None => {},
    }
}

/// A parameter is read off its node and the node's children: cut below them, the node
/// gives the same.
pub proof fn lemma_param_of_pruned(node: SyntaxTree, source: Seq<char>, depth: nat)
    requires
        depth >= 1,
    ensures
        param_of(node.pruned(depth), source) == param_of(node, source),
{
    let cut = node.pruned(depth);
    let below = (depth - 1) as nat;
    node.lemma_pruned_unfolds(depth);
    node.lemma_pruned_first_of_kind(depth, "identifier"@);
    node.lemma_pruned_first_of_kind(depth, "type"@);
    match node.first_of_kind("identifier"@) {
        Some(child) => child.lemma_pruned_unfolds(below),
        None => {},
    }
    match node.first_of_kind("type"@) {
        Some(child) => child.lemma_pruned_unfolds(below),
        None => {},
    }
    if node.children.len() > 0 {
        node.children.last().tree.lemma_pruned_unfolds(below);
        assert(cut.children.last().tree == node.children.last().tree.pruned(below));
    }
    lemma_kind_from_pruned(node, depth, "identifier"@, 0);
    assert(ends_in_name(cut) == ends_in_name(node));
    assert(first_child_text(cut, "identifier"@, source) == first_child_text(
        node,
        "identifier"@,
        source,
    ));
    assert(first_child_text(cut, "type"@, source) == first_child_text(node, "type"@, source));
    assert(last_child_text(cut, source) == last_child_text(node, source));
    assert(trailing_value_text(cut, source) == trailing_value_text(node, source));
    assert(cut.text(source) == node.text(source));
}

proof fn lemma_params_upto_pruned(list: SyntaxTree, source: Seq<char>, depth: nat, n: int)
    requires
        depth >= 2,
        n <= list.children.len(),
    ensures
        params_upto(list.pruned(depth), source, n) == params_upto(list, source, n),
    decreases n,
{
    if n > 0 {
        list.lemma_pruned_unfolds(depth);
        lemma_params_upto_pruned(list, source, depth, n - 1);
        lemma_param_of_pruned(list.children[n - 1].tree, source, (depth - 1) as nat);
    }
}

/// The parameters of a definition are read off three levels below it: its parameter list,
/// the parameters, and the parts of each. Cut below them, the definition gives the same.
pub proof fn lemma_params_of_pruned(definition: SyntaxTree, source: Seq<char>, depth: nat)
    requires
        depth >= 3,
    ensures
        params_of(definition.pruned(depth), source) == params_of(definition, source),
{
    definition.lemma_pruned_field(depth, "parameters"@);
    match definition.field("parameters"@) {
        Some(list) => {
            list.lemma_pruned_unfolds((depth - 1) as nat);
            lemma_params_upto_pruned(list, source, (depth - 1) as nat, list.children.len() as int);
        },
        None => {},
    }
}

/// The source text of the first child of `node` that is of the kind `kind`, or the empty
/// string where there is no such child.
pub fn get_first_child_of_kind(node: &SyntaxNode, kind: &str, source_code: &str) -> (text: String)
    requires
        node@.fits(source_code@),
    ensures
        text@ == first_child_text(node@, kind@, source_code@),
{
    proof {
        lemma_kind_from(node@.children, kind@, 0);
    }
    match node.first_child_of_kind(kind) {
        Some(child) => {
            assert(node@.children[kind_from(node@.children, kind@, 0).unwrap()].tree.fits(
                source_code@,
            ));
            child.text(source_code).to_owned()
        },
        None => String::new(),
    }
}

/// The source text of the last child of `node`, or the empty string where it has no child.
fn last_child_of(node: &SyntaxNode, source_code: &str) -> (text: String)
    requires
        node@.fits(source_code@),
    ensures
        text@ == last_child_text(node@, source_code@),
{
    proof {
        node.lemma_tree_unfolds();
    }
    let count = node.children.len();
    if count == 0 {
        String::new()
    } else {
        assert(node@.children[count - 1].tree.fits(source_code@));
        node.children[count - 1].node.text(source_code).to_owned()
    }
}

/// The default value of a parameter of the form `x: T = E`.
fn trailing_value_of(node: &SyntaxNode, source_code: &str) -> (text: String)
    requires
        node@.fits(source_code@),
    ensures
        text@ == trailing_value_text(node@, source_code@),
{
    proof {
        node.lemma_tree_unfolds();
    }
    let count = node.children.len();
    if count == 0 {
        return String::new();
    }
    let last = &node.children[count - 1].node;
    assert(node@.children[count - 1].tree.fits(source_code@));
    let is_name = match node.first_index_of_kind("identifier") {
        Some(i) => i == count - 1,
        None => false,
    };
    if is_name || last.is_kind("=") || last.is_kind("type") || last.is_kind(":") {
        String::new()
    } else {
        last.text(source_code).to_owned()
    }
}

/// Classifies one node of a parameter list.
pub fn classify_param(node: &SyntaxNode, source_code: &str) -> (param: Option<Param>)
    requires
        node@.fits(source_code@),
    ensures
        match param {
            Some(p) => param_of(node@, source_code@) == Some(p@),
            None => param_of(node@, source_code@) is None,
        },
{
    let spelled = if node.is_kind("typed_parameter") {
        Param {
            name: get_first_child_of_kind(node, "identifier", source_code),
            param_type: get_first_child_of_kind(node, "type", source_code),
            default: String::new(),
        }
    } else if node.is_kind("typed_default_parameter") {
        Param {
            name: get_first_child_of_kind(node, "identifier", source_code),
            param_type: get_first_child_of_kind(node, "type", source_code),
            default: trailing_value_of(node, source_code),
        }
    } else if node.is_kind("default_parameter") {
        Param {
            name: get_first_child_of_kind(node, "identifier", source_code),
            param_type: String::new(),
            default: last_child_of(node, source_code),
        }
    } else if node.is_kind("identifier") {
        Param {
            name: node.text(source_code).to_owned(),
            param_type: String::new(),
            default: String::new(),
        }
    } else {
        return None;
    };
    assert(spelled_param(node@, source_code@) == Some(spelled@));
    if spelled.name.as_str().is_empty() || same_text(spelled.name.as_str(), "self") {
        None
    } else {
        Some(spelled)
    }
}

/// The parameters of a function definition, in source order.
pub fn extract_params(def_node: &SyntaxNode, source_code: &str) -> (params: Vec<Param>)
    requires
        def_node@.fits(source_code@),
    ensures
        params_view(params@) == params_of(def_node@, source_code@),
        forall|j: int|
            0 <= j < params.len() ==> (#[trigger] params[j]).name@ != "self"@ && params[j].name@.len()
                > 0,
{
    let mut params: Vec<Param> = Vec::new();
    proof {
        lemma_field_from(def_node@.children, "parameters"@, 0);
        lemma_no_self_param(def_node@, source_code@);
    }
    let parameters = match def_node.child_by_field_name("parameters") {
        Some(p) => p,
        None => {
            assert(params_view(params@) =~= params_of(def_node@, source_code@));
            return params;
        },
    };
    proof {
        parameters.lemma_tree_unfolds();
    }
    let mut i: usize = 0;
    while i < parameters.children.len()
        invariant
            i <= parameters.children.len(),
            parameters@.fits(source_code@),
            parameters@.children.len() == parameters.children.len(),
            forall|j: int|
                0 <= j < parameters.children.len() ==> (#[trigger] parameters@.children[j]).tree
                    == parameters.children[j].node@,
            params_view(params@) == params_upto(parameters@, source_code@, i as int),
        decreases parameters.children.len() - i,
    {
        assert(parameters@.children[i as int].tree.fits(source_code@));
        let ghost before = params@;
        match classify_param(&parameters.children[i].node, source_code) {
            Some(param) => {
                params.push(param);
                assert(params_view(params@) =~= params_view(before).push(param@));
            },
            None => {},
        }
        i += 1;
    }
    assert forall|j: int| 0 <= j < params.len() implies (#[trigger] params[j]).name@ != "self"@
        && params[j].name@.len() > 0 by {
        assert(params_view(params@)[j] == params[j]@);
        assert(params_of(def_node@, source_code@)[j].name != "self"@);
    }
    params
}

} // verus!
