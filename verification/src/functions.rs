//! The signature extractor: from the root of a syntax tree to the functions that are reported.
//!
//! Only the direct children of the root are looked at. A child is reported when it is a
//! decorated definition that the decorator filter accepts and that holds a function
//! definition with a name. A decorated class is no function, and a function definition
//! without a name, or with an empty one, is passed over in silence.

use crate::markers::{
    accepts, decorator_mentions, is_decorator, lemma_accepts_pruned, standard_markers, Markers,
    MarkersView,
};
use crate::params::{
    extract_params, lemma_no_self_param, lemma_params_of_pruned, params_of, params_view,
    reportable, Param, ParamView,
};
use crate::syntax::{field_from, lemma_field_from, SyntaxNode, SyntaxTree};
use crate::text::contains_text;
use vstd::prelude::*;

verus! {

/// A reported function.
#[derive(Clone, Debug, PartialEq, Eq)]
pub struct Function {
    /// The function's name: never empty.
    pub name: String,
    /// The 1-based line on which the decorated definition starts, decorators included.
    pub line: usize,
    /// The function's parameters, in source order.
    pub params: Vec<Param>,
}

/// What a [`Function`] holds, as texts and numbers.
pub struct FunctionView {
    pub name: Seq<char>,
    pub line: nat,
    pub params: Seq<ParamView>,
}

impl View for Function {
    type V = FunctionView;

    open spec fn view(&self) -> FunctionView {
        FunctionView {
            name: self.name@,
            line: self.line as nat,
            params: params_view(self.params@),
        }
    }
}

/// What holds of every reported function: it has a name, and each of its parameters has a
/// name other than `self`.
pub open spec fn well_formed(function: FunctionView) -> bool {
    &&& function.name.len() > 0
    &&& forall|j: int| 0 <= j < function.params.len() ==> reportable(#[trigger] function.params[j])
}

/// What a vector of functions holds, in order.
pub open spec fn functions_view(functions: Seq<Function>) -> Seq<FunctionView> {
    Seq::new(functions.len(), |i: int| functions[i]@)
}

/// The function that a child of the root contributes, if any: the child is a decorated
/// definition, the filter accepts it, it holds a function definition, and that holds a name
/// that is not empty.
pub open spec fn function_of(node: SyntaxTree, source: Seq<char>, markers: MarkersView) -> Option<
    FunctionView,
> {
    if node.kind != "decorated_definition"@ || !accepts(node, source, markers) {
        None
    } else {
        match node.field("definition"@) {
            None => None,
            Some(definition) => if definition.kind != "function_definition"@ {
                None
            } else {
                match definition.field("name"@) {
                    None => None,
                    Some(name) => if name.text(source).len() == 0 {
                        None
                    } else {
                        Some(
                            FunctionView {
                                name: name.text(source),
                                line: node.line(),
                                params: params_of(definition, source),
                            },
                        )
                    },
                }
            },
        }
    }
}

/// The functions that the first `n` children of the root contribute, in order.
pub open spec fn functions_upto(
    root: SyntaxTree,
    source: Seq<char>,
    markers: MarkersView,
    n: int,
) -> Seq<FunctionView>
    decreases n,
{
    if n <= 0 {
        Seq::empty()
    } else {
        let before = functions_upto(root, source, markers, n - 1);
        match function_of(root.children[n - 1].tree, source, markers) {
            Some(function) => before.push(function),
            None => before,
        }
    }
}

/// The functions of a source file, in source order.
pub open spec fn functions_of(root: SyntaxTree, source: Seq<char>, markers: MarkersView) -> Seq<
    FunctionView,
> {
    functions_upto(root, source, markers, root.children.len() as int)
}

/// The place in the list of the function that the child `i` of the root contributes: the
/// number of functions that the children before it contribute.
pub open spec fn place_of(root: SyntaxTree, source: Seq<char>, markers: MarkersView, i: int) -> int {
    functions_upto(root, source, markers, i).len() as int
}

/// What the first `m` children contribute stands unchanged at the head of what the first
/// `n` contribute.
proof fn lemma_upto_extends(
    root: SyntaxTree,
    source: Seq<char>,
    markers: MarkersView,
    m: int,
    n: int,
)
    requires
        0 <= m <= n,
    ensures
        functions_upto(root, source, markers, m).len() <= functions_upto(
            root,
            source,
            markers,
            n,
        ).len(),
        forall|k: int|
            0 <= k < functions_upto(root, source, markers, m).len() ==> functions_upto(
                root,
                source,
                markers,
                n,
            )[k] == functions_upto(root, source, markers, m)[k],
    decreases n - m,
{
    if m < n {
        lemma_upto_extends(root, source, markers, m, n - 1);
    }
}

/// Every definition that qualifies is listed, at its place.
pub proof fn lemma_qualifying_definition_is_listed(
    root: SyntaxTree,
    source: Seq<char>,
    markers: MarkersView,
    i: int,
)
    requires
        0 <= i < root.children.len(),
        function_of(root.children[i].tree, source, markers) is Some,
    ensures
        0 <= place_of(root, source, markers, i) < functions_of(root, source, markers).len(),
        Some(functions_of(root, source, markers)[place_of(root, source, markers, i)])
            == function_of(root.children[i].tree, source, markers),
{
    lemma_upto_extends(root, source, markers, i + 1, root.children.len() as int);
}

/// The list follows the source: of two definitions that qualify, the one that comes first
/// in the source comes first in the list.
pub proof fn lemma_listed_in_source_order(
    root: SyntaxTree,
    source: Seq<char>,
    markers: MarkersView,
    i: int,
    j: int,
)
    requires
        0 <= i < j < root.children.len(),
        function_of(root.children[i].tree, source, markers) is Some,
        function_of(root.children[j].tree, source, markers) is Some,
    ensures
        place_of(root, source, markers, i) < place_of(root, source, markers, j),
{
    lemma_upto_extends(root, source, markers, i + 1, j);
}

/// Nothing else is listed: every entry of the list is what some definition that qualifies
/// contributes, and stands at that definition's place.
pub proof fn lemma_listed_function_has_definition(
    root: SyntaxTree,
    source: Seq<char>,
    markers: MarkersView,
    k: int,
) -> (i: int)
    requires
        0 <= k < functions_of(root, source, markers).len(),
    ensures
        0 <= i < root.children.len(),
        function_of(root.children[i].tree, source, markers) == Some(
            functions_of(root, source, markers)[k],
        ),
        place_of(root, source, markers, i) == k,
{
    let i = lemma_entry_has_definition(root, source, markers, root.children.len() as int, k);
    lemma_upto_extends(root, source, markers, i + 1, root.children.len() as int);
    i
}

/// Every entry of what the first `n` children contribute comes from one of them.
proof fn lemma_entry_has_definition(
    root: SyntaxTree,
    source: Seq<char>,
    markers: MarkersView,
    n: int,
    k: int,
) -> (i: int)
    requires
        0 <= n <= root.children.len(),
        0 <= k < functions_upto(root, source, markers, n).len(),
    ensures
        0 <= i < n,
        function_of(root.children[i].tree, source, markers) == Some(
            functions_upto(root, source, markers, n)[k],
        ),
        place_of(root, source, markers, i) == k,
    decreases n,
{
    let before = functions_upto(root, source, markers, n - 1);
    if k < before.len() {
        lemma_entry_has_definition(root, source, markers, n - 1, k)
    } else {
        n - 1
    }
}

/// The children of the root, among the first `n`, that qualify: those that contribute a
/// function.
pub open spec fn qualifying(
    root: SyntaxTree,
    source: Seq<char>,
    markers: MarkersView,
    n: int,
) -> Set<int> {
    Set::new(
        |i: int| 0 <= i < n && function_of(root.children[i].tree, source, markers) is Some,
    )
}

proof fn lemma_as_many_upto(root: SyntaxTree, source: Seq<char>, markers: MarkersView, n: int)
    requires
        0 <= n,
    ensures
        qualifying(root, source, markers, n).finite(),
        qualifying(root, source, markers, n).len() == functions_upto(root, source, markers, n).len(),
    decreases n,
{
    if n == 0 {
        assert(qualifying(root, source, markers, n) =~= Set::<int>::empty());
    } else {
        lemma_as_many_upto(root, source, markers, n - 1);
        let before = qualifying(root, source, markers, n - 1);
        if function_of(root.children[n - 1].tree, source, markers) is Some {
            assert(qualifying(root, source, markers, n) =~= before.insert(n - 1));
        } else {
            assert(qualifying(root, source, markers, n) =~= before);
        }
    }
}

/// The list is as long as the number of children of the root that qualify.
pub proof fn lemma_as_many_as_qualify(root: SyntaxTree, source: Seq<char>, markers: MarkersView)
    ensures
        qualifying(root, source, markers, root.children.len() as int).finite(),
        functions_of(root, source, markers).len() == qualifying(
            root,
            source,
            markers,
            root.children.len() as int,
        ).len(),
{
    lemma_as_many_upto(root, source, markers, root.children.len() as int);
}

/// The rows on which the decorated definitions under the root start rise from each to the
/// next: no two of them start on one row.
pub open spec fn rows_rise(root: SyntaxTree) -> bool {
    forall|i: int, j: int|
        #![trigger root.children[i], root.children[j]]
        0 <= i < j < root.children.len() && root.children[i].tree.kind == "decorated_definition"@
            && root.children[j].tree.kind == "decorated_definition"@
            ==> root.children[i].tree.start_row < root.children[j].tree.start_row
}

/// In a tree whose rows rise, the lines of the list rise: a function that stands later in
/// the list starts on a later line.
pub proof fn lemma_lines_rise(
    root: SyntaxTree,
    source: Seq<char>,
    markers: MarkersView,
    earlier: int,
    later: int,
)
    requires
        rows_rise(root),
        0 <= earlier < later < functions_of(root, source, markers).len(),
    ensures
        functions_of(root, source, markers)[earlier].line < functions_of(
            root,
            source,
            markers,
        )[later].line,
{
    let i = lemma_listed_function_has_definition(root, source, markers, earlier);
    let j = lemma_listed_function_has_definition(root, source, markers, later);
    if j <= i {
        lemma_upto_extends(root, source, markers, j, i);
    }
    assert(root.children[i].tree.start_row < root.children[j].tree.start_row);
}

/// Where every child of the root qualifies, the list holds one function for each child, in
/// the order of the children.
pub proof fn lemma_all_qualifying_all_listed(
    root: SyntaxTree,
    source: Seq<char>,
    markers: MarkersView,
)
    requires
        forall|i: int|
            0 <= i < root.children.len() ==> function_of(
                (#[trigger] root.children[i]).tree,
                source,
                markers,
            ) is Some,
    ensures
        functions_of(root, source, markers).len() == root.children.len(),
        forall|i: int|
            0 <= i < root.children.len() ==> Some(
                #[trigger] functions_of(root, source, markers)[i],
            ) == function_of(root.children[i].tree, source, markers),
{
    lemma_all_qualifying_upto(root, source, markers, root.children.len() as int);
}

proof fn lemma_all_qualifying_upto(
    root: SyntaxTree,
    source: Seq<char>,
    markers: MarkersView,
    n: int,
)
    requires
        0 <= n <= root.children.len(),
        forall|i: int|
            0 <= i < root.children.len() ==> function_of(
                (#[trigger] root.children[i]).tree,
                source,
                markers,
            ) is Some,
    ensures
        functions_upto(root, source, markers, n).len() == n,
        forall|i: int|
            0 <= i < n ==> Some(#[trigger] functions_upto(root, source, markers, n)[i])
                == function_of(root.children[i].tree, source, markers),
    decreases n,
{
    if n > 0 {
        lemma_all_qualifying_upto(root, source, markers, n - 1);
        assert(function_of(root.children[n - 1].tree, source, markers) is Some);
    }
}

/// A definition with a decorator that contains an excluded marker contributes no function,
/// whatever its other decorators contain.
pub proof fn lemma_excluded_definition_not_listed(
    node: SyntaxTree,
    source: Seq<char>,
    markers: MarkersView,
    decorator: int,
    marker: int,
)
    requires
        0 <= decorator < node.children.len(),
        is_decorator(node.children[decorator]),
        0 <= marker < markers.excluded.len(),
        contains_text(node.children[decorator].tree.text(source), markers.excluded[marker]),
    ensures
        function_of(node, source, markers) is None,
{
    assert(decorator_mentions(node, source, markers.excluded, decorator));
}

/// No listed function is without a name, and none has a parameter that is named `self` or
/// is without a name.
pub proof fn lemma_listed_functions_well_formed(
    root: SyntaxTree,
    source: Seq<char>,
    markers: MarkersView,
)
    ensures
        forall|k: int|
            0 <= k < functions_of(root, source, markers).len() ==> well_formed(
                #[trigger] functions_of(root, source, markers)[k],
            ),
{
    assert forall|k: int| 0 <= k < functions_of(root, source, markers).len() implies well_formed(
        #[trigger] functions_of(root, source, markers)[k],
    ) by {
        let i = lemma_listed_function_has_definition(root, source, markers, k);
        let node = root.children[i].tree;
        let definition = node.field("definition"@).unwrap();
        lemma_no_self_param(definition, source);
    }
}

/// A function is read off four levels below its decorated definition: the definition,
/// its name and parameter list, the parameters, and the parts of each. Cut below them, the
/// decorated definition gives the same.
pub proof fn lemma_function_of_pruned(
    node: SyntaxTree,
    source: Seq<char>,
    markers: MarkersView,
    depth: nat,
)
    requires
        depth >= 4,
    ensures
        function_of(node.pruned(depth), source, markers) == function_of(node, source, markers),
{
    let below = (depth - 1) as nat;
    node.lemma_pruned_unfolds(depth);
    lemma_accepts_pruned(node, source, markers, depth);
    node.lemma_pruned_field(depth, "definition"@);
    match node.field("definition"@) {
        Some(definition) => {
            definition.lemma_pruned_unfolds(below);
            definition.lemma_pruned_field(below, "name"@);
            lemma_params_of_pruned(definition, source, below);
            match definition.field("name"@) {
                Some(name) => name.lemma_pruned_unfolds((below - 1) as nat),
                None => {},
            }
        },
        None => {},
    }
}

proof fn lemma_functions_upto_pruned(
    root: SyntaxTree,
    source: Seq<char>,
    markers: MarkersView,
    depth: nat,
    n: int,
)
    requires
        depth >= 5,
        n <= root.children.len(),
    ensures
        functions_upto(root.pruned(depth), source, markers, n) == functions_upto(
            root,
            source,
            markers,
            n,
        ),
    decreases n,
{
    if n > 0 {
        root.lemma_pruned_unfolds(depth);
        lemma_functions_upto_pruned(root, source, markers, depth, n - 1);
        lemma_function_of_pruned(root.children[n - 1].tree, source, markers, (depth - 1) as nat);
    }
}

/// The functions of a file are read off the top five levels of its tree: cut below them,
/// the tree gives the same functions.
pub proof fn lemma_functions_of_pruned(
    root: SyntaxTree,
    source: Seq<char>,
    markers: MarkersView,
    depth: nat,
)
    requires
        depth >= 5,
    ensures
        functions_of(root.pruned(depth), source, markers) == functions_of(root, source, markers),
{
    root.lemma_pruned_unfolds(depth);
    lemma_functions_upto_pruned(root, source, markers, depth, root.children.len() as int);
}

/// The function that a child of the root contributes, if any.
pub fn extract_function(node: &SyntaxNode, source_code: &str, markers: &Markers) -> (function:
    Option<Function>)
    requires
        node@.fits(source_code@),
    ensures
        match function {
            Some(f) => function_of(node@, source_code@, markers@) == Some(f@),
            None => function_of(node@, source_code@, markers@) is None,
        },
{
    if !node.is_kind("decorated_definition") {
        return None;
    }
    if !markers.accepts(node, source_code) {
        return None;
    }
    proof {
        lemma_field_from(node@.children, "definition"@, 0);
    }
    let def = match node.child_by_field_name("definition") {
        Some(d) => d,
        None => {
            return None;
        },
    };
    assert(node@.children[field_from(node@.children, "definition"@, 0).unwrap()].tree.fits(
        source_code@,
    ));
    if !def.is_kind("function_definition") {
        return None;
    }
    proof {
        lemma_field_from(def@.children, "name"@, 0);
    }
    match def.child_by_field_name("name") {
        Some(name) => {
            assert(def@.children[field_from(def@.children, "name"@, 0).unwrap()].tree.fits(
                source_code@,
            ));
            let function_name = name.text(source_code).to_owned();
            if function_name.as_str().is_empty() {
                return None;
            }
            let params = extract_params(def, source_code);
            Some(Function { name: function_name, line: node.line(), params })
        },
        None => None,
    }
}

/// The functions of a source file with the standard markers, in source order: what the
/// direct children of `root_node` contribute.
pub fn parse_all_decorated_functions(root_node: &SyntaxNode, source_code: &str) -> (functions: Vec<
    Function,
>)
    requires
        root_node@.fits(source_code@),
    ensures
        functions_view(functions@) == functions_of(root_node@, source_code@, standard_markers()),
        forall|k: int| 0 <= k < functions.len() ==> well_formed(#[trigger] functions[k]@),
{
    functions_in_tree(root_node, source_code, &Markers::standard())
}

/// The functions of a source file, in source order: what the direct children of
/// `root_node` contribute.
pub fn functions_in_tree(root_node: &SyntaxNode, source_code: &str, markers: &Markers) -> (functions:
    Vec<Function>)
    requires
        root_node@.fits(source_code@),
    ensures
        functions_view(functions@) == functions_of(root_node@, source_code@, markers@),
        forall|k: int| 0 <= k < functions.len() ==> well_formed(#[trigger] functions[k]@),
{
    let mut functions: Vec<Function> = Vec::new();
    proof {
        root_node.lemma_tree_unfolds();
    }
    let mut i: usize = 0;
    while i < root_node.children.len()
        invariant
            i <= root_node.children.len(),
            root_node@.fits(source_code@),
            root_node@.children.len() == root_node.children.len(),
            forall|j: int|
                0 <= j < root_node.children.len() ==> (#[trigger] root_node@.children[j]).tree
                    == root_node.children[j].node@,
            functions_view(functions@) == functions_upto(
                root_node@,
                source_code@,
                markers@,
                i as int,
            ),
        decreases root_node.children.len() - i,
    {
        assert(root_node@.children[i as int].tree.fits(source_code@));
        let ghost before = functions@;
        match extract_function(&root_node.children[i].node, source_code, markers) {
            Some(function) => {
                functions.push(function);
                assert(functions_view(functions@) =~= functions_view(before).push(function@));
            },
            None => {},
        }
        i += 1;
    }
    proof {
        let listed = functions_of(root_node@, source_code@, markers@);
        lemma_listed_functions_well_formed(root_node@, source_code@, markers@);
        assert(functions_view(functions@) == listed);
        assert forall|k: int| 0 <= k < functions.len() implies well_formed(
            #[trigger] functions[k]@,
        ) by {
            assert(listed[k] == functions[k]@);
        }
    }
    functions
}

} // verus!
