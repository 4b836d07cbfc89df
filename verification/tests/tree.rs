use decorated_fns::functions::{
    extract_function, functions_in_tree, parse_all_decorated_functions, Function,
};
use decorated_fns::markers::{has_supported_decorator, Markers};
use decorated_fns::params::{classify_param, extract_params, get_first_child_of_kind, Param};
use decorated_fns::provider::{parse_source, snapshot, ProviderError, SCAN_DEPTH};
use decorated_fns::scan::{scan_parsed, scan_tree, ScanError};
use decorated_fns::syntax::{Child, SyntaxNode};

/// A node without children that covers the first `text` in `source`, on the row `row`.
fn leaf(kind: &str, source: &str, text: &str, row: usize) -> SyntaxNode {
    let start = source.find(text).unwrap();
    SyntaxNode {
        kind: kind.to_string(),
        start_byte: start,
        end_byte: start + text.len(),
        start_row: row,
        children: vec![],
    }
}

/// A node that covers the first `text` in `source`, with children that have no field name.
fn node(kind: &str, source: &str, text: &str, row: usize, children: Vec<SyntaxNode>) -> SyntaxNode {
    let mut parent = leaf(kind, source, text, row);
    parent.children = children.into_iter().map(|node| Child { field: None, node }).collect();
    parent
}

fn held(field: &str, node: SyntaxNode) -> Child {
    Child { field: Some(field.to_string()), node }
}

fn loose(node: SyntaxNode) -> Child {
    Child { field: None, node }
}

fn param(name: &str, param_type: &str, default: &str) -> Param {
    Param { name: name.to_string(), param_type: param_type.to_string(), default: default.to_string() }
}

const SOURCE: &str = "@app.function()\ndef greet(name: str, count: int = 3, who=\"world\", x, self):\n    pass\n";

fn parameters() -> SyntaxNode {
    let typed = node(
        "typed_parameter",
        SOURCE,
        "name: str",
        1,
        vec![leaf("identifier", SOURCE, "name", 1), leaf(":", SOURCE, ":", 1), leaf("type", SOURCE, "str", 1)],
    );
    let typed_default = node(
        "typed_default_parameter",
        SOURCE,
        "count: int = 3",
        1,
        vec![
            leaf("identifier", SOURCE, "count", 1),
            leaf(":", SOURCE, ":", 1),
            leaf("type", SOURCE, "int", 1),
            leaf("=", SOURCE, "=", 1),
            leaf("integer", SOURCE, "3", 1),
        ],
    );
    let default = node(
        "default_parameter",
        SOURCE,
        "who=\"world\"",
        1,
        vec![leaf("identifier", SOURCE, "who", 1), leaf("=", SOURCE, "=", 1), leaf("string", SOURCE, "\"world\"", 1)],
    );
    node(
        "parameters",
        SOURCE,
        "(name: str, count: int = 3, who=\"world\", x, self)",
        1,
        vec![
            leaf("(", SOURCE, "(", 1),
            typed,
            leaf(",", SOURCE, ",", 1),
            typed_default,
            leaf(",", SOURCE, ",", 1),
            default,
            leaf(",", SOURCE, ",", 1),
            leaf("identifier", SOURCE, "x", 1),
            leaf(",", SOURCE, ",", 1),
            leaf("identifier", SOURCE, "self", 1),
            leaf(")", SOURCE, ")", 1),
        ],
    )
}

fn definition() -> SyntaxNode {
    let mut def = leaf("function_definition", SOURCE, "def greet(name: str, count: int = 3, who=\"world\", x, self):\n    pass", 1);
    def.children = vec![
        loose(leaf("def", SOURCE, "def", 1)),
        held("name", leaf("identifier", SOURCE, "greet", 1)),
        held("parameters", parameters()),
        loose(leaf(":", SOURCE, ":", 1)),
        held("body", leaf("block", SOURCE, "pass", 2)),
    ];
    def
}

fn decorated(decorators: &[&str]) -> (String, SyntaxNode) {
    let mut source = String::new();
    for decorator in decorators {
        source.push_str(decorator);
        source.push('\n');
    }
    source.push_str("def f():\n    pass\n");
    let mut children = vec![];
    for (row, decorator) in decorators.iter().enumerate() {
        let mut child = leaf("decorator", &source, decorator, row);
        let start: usize = decorators[..row].iter().map(|d| d.len() + 1).sum();
        child.start_byte = start;
        child.end_byte = start + decorator.len();
        children.push(loose(child));
    }
    let mut def = leaf("function_definition", &source, "def f():\n    pass", decorators.len());
    def.children = vec![
        loose(leaf("def", &source, "def", decorators.len())),
        held("name", leaf("identifier", &source, "f", decorators.len())),
    ];
    let name_start = source.find("def f").unwrap() + 4;
    def.children[1].node.start_byte = name_start;
    def.children[1].node.end_byte = name_start + 1;
    children.push(held("definition", def));
    let end = source.len() - 1;
    let root = SyntaxNode {
        kind: "decorated_definition".to_string(),
        start_byte: 0,
        end_byte: end,
        start_row: 0,
        children,
    };
    (source, root)
}

fn accepted(decorators: &[&str]) -> bool {
    let (source, root) = decorated(decorators);
    assert!(root.fits(&source));
    has_supported_decorator(&root, &source)
}

#[test]
fn the_filter_wants_a_supported_marker() {
    assert!(accepted(&["@app.function()"]));
    assert!(accepted(&["@app.local_entrypoint()"]));
    assert!(accepted(&["@cache", "@app.function()"]));
    assert!(accepted(&["@app.function()", "@cache"]));
    assert!(!accepted(&["@cache"]));
    assert!(!accepted(&["@cache", "@wraps(g)"]));
}

#[test]
fn the_filter_rejects_a_definition_without_decorators() {
    assert!(!accepted(&[]));
}

#[test]
fn the_filter_rejects_on_an_excluded_marker_wherever_it_stands() {
    assert!(!accepted(&["@app.function()", "@modal.web_endpoint()"]));
    assert!(!accepted(&["@modal.web_endpoint()", "@app.function()"]));
    assert!(!accepted(&["@app.function(schedule=cron)"]));
    assert!(!accepted(&["@app.function()", "@cache", "@schedule"]));
    assert!(!accepted(&["@web_endpoint"]));
}

#[test]
fn the_filter_reads_decorators_only() {
    let (source, mut root) = decorated(&["@app.function()"]);
    root.children[0].node.kind = "comment".to_string();
    assert!(!has_supported_decorator(&root, &source));
}

#[test]
fn each_form_of_parameter_is_classified() {
    let list = parameters();
    assert!(list.fits(SOURCE));
    assert_eq!(classify_param(&list.children[1].node, SOURCE), Some(param("name", "str", "")));
    assert_eq!(classify_param(&list.children[3].node, SOURCE), Some(param("count", "int", "3")));
    assert_eq!(classify_param(&list.children[5].node, SOURCE), Some(param("who", "", "\"world\"")));
    assert_eq!(classify_param(&list.children[7].node, SOURCE), Some(param("x", "", "")));
}

#[test]
fn punctuation_and_self_are_no_parameters() {
    let list = parameters();
    assert_eq!(classify_param(&list.children[0].node, SOURCE), None);
    assert_eq!(classify_param(&list.children[2].node, SOURCE), None);
    assert_eq!(classify_param(&list.children[9].node, SOURCE), None);
    assert_eq!(classify_param(&list.children[10].node, SOURCE), None);
}

#[test]
fn a_typed_default_without_a_value_has_no_default() {
    let cut = node(
        "typed_default_parameter",
        SOURCE,
        "count: int =",
        1,
        vec![
            leaf("identifier", SOURCE, "count", 1),
            leaf(":", SOURCE, ":", 1),
            leaf("type", SOURCE, "int", 1),
            leaf("=", SOURCE, "=", 1),
        ],
    );
    assert_eq!(classify_param(&cut, SOURCE), Some(param("count", "int", "")));
    let ends_in_type = node(
        "typed_default_parameter",
        SOURCE,
        "count: int",
        1,
        vec![leaf("identifier", SOURCE, "count", 1), leaf(":", SOURCE, ":", 1), leaf("type", SOURCE, "int", 1)],
    );
    assert_eq!(classify_param(&ends_in_type, SOURCE), Some(param("count", "int", "")));
    let name_alone = node("typed_default_parameter", SOURCE, "count", 1, vec![leaf("identifier", SOURCE, "count", 1)]);
    assert_eq!(classify_param(&name_alone, SOURCE), Some(param("count", "", "")));
}

#[test]
fn a_typed_default_that_is_a_bare_name_is_kept() {
    let source = "def f(count: int = N, n: T = n): pass\n";
    let named = node(
        "typed_default_parameter",
        source,
        "count: int = N",
        0,
        vec![
            leaf("identifier", source, "count", 0),
            leaf(":", source, ":", 0),
            leaf("type", source, "int", 0),
            leaf("=", source, "=", 0),
            leaf("identifier", source, "N", 0),
        ],
    );
    assert!(named.fits(source));
    assert_eq!(classify_param(&named, source), Some(param("count", "int", "N")));
    let value_first = node(
        "typed_default_parameter",
        source,
        "count: int = N",
        0,
        vec![leaf("=", source, "=", 0), leaf("identifier", source, "N", 0)],
    );
    assert_eq!(classify_param(&value_first, source), Some(param("N", "", "")));
    assert_eq!(named.first_index_of_kind("identifier"), Some(0));
    assert_eq!(named.first_index_of_kind("="), Some(3));
    assert_eq!(named.first_index_of_kind("string"), None);
}

#[test]
fn a_default_parameter_takes_its_last_child_whatever_it_is() {
    let cut = node(
        "default_parameter",
        SOURCE,
        "who=",
        1,
        vec![leaf("identifier", SOURCE, "who", 1), leaf("=", SOURCE, "=", 1)],
    );
    assert_eq!(classify_param(&cut, SOURCE), Some(param("who", "", "=")));
}

#[test]
fn a_parameter_without_a_name_is_dropped() {
    let no_children = leaf("typed_parameter", SOURCE, "name: str", 1);
    assert_eq!(classify_param(&no_children, SOURCE), None);
    let no_identifier = node("default_parameter", SOURCE, "=\"world\"", 1, vec![leaf("string", SOURCE, "\"world\"", 1)]);
    assert_eq!(classify_param(&no_identifier, SOURCE), None);
    let mut empty = leaf("identifier", SOURCE, "x", 1);
    empty.end_byte = empty.start_byte;
    assert_eq!(classify_param(&empty, SOURCE), None);
}

#[test]
fn the_first_child_of_a_kind_gives_its_text() {
    let list = parameters();
    assert_eq!(get_first_child_of_kind(&list, "identifier", SOURCE), "x");
    assert_eq!(get_first_child_of_kind(&list, "typed_parameter", SOURCE), "name: str");
    assert_eq!(get_first_child_of_kind(&list, ",", SOURCE), ",");
    assert_eq!(get_first_child_of_kind(&list, "lambda", SOURCE), "");
    assert_eq!(get_first_child_of_kind(&list.children[0].node, "identifier", SOURCE), "");
}

#[test]
fn the_parameters_of_a_definition() {
    let def = definition();
    assert!(def.fits(SOURCE));
    assert_eq!(
        extract_params(&def, SOURCE),
        vec![
            param("name", "str", ""),
            param("count", "int", "3"),
            param("who", "", "\"world\""),
            param("x", "", ""),
        ]
    );
}

#[test]
fn a_definition_without_a_parameter_list_has_no_parameters() {
    let mut def = definition();
    def.children.remove(2);
    assert_eq!(extract_params(&def, SOURCE), vec![]);
    def.children.clear();
    assert_eq!(extract_params(&def, SOURCE), vec![]);
}

#[test]
fn the_parameter_list_is_found_by_its_field_and_not_by_its_kind() {
    let mut def = definition();
    def.children[2].field = None;
    assert_eq!(extract_params(&def, SOURCE), vec![]);
    def.children[2].field = Some("parameters".to_string());
    def.children[2].node.kind = "anything".to_string();
    assert_eq!(extract_params(&def, SOURCE).len(), 4);
}

#[test]
fn the_first_child_under_a_field_is_taken() {
    let mut def = definition();
    let second = node("parameters", SOURCE, "(name: str, count: int = 3, who=\"world\", x, self)", 1, vec![leaf("identifier", SOURCE, "x", 1)]);
    def.children.push(held("parameters", second));
    assert_eq!(extract_params(&def, SOURCE).len(), 4);
    assert_eq!(def.child_by_field_name("parameters").unwrap().children.len(), 11);
    assert_eq!(def.child_by_field_name("name").unwrap().kind, "identifier");
    assert!(def.child_by_field_name("return_type").is_none());
    assert_eq!(def.first_child_of_kind("block").unwrap().start_row, 2);
    assert!(def.first_child_of_kind("decorator").is_none());
}

fn decorated_greet() -> SyntaxNode {
    let mut root = leaf("decorated_definition", SOURCE, SOURCE.trim_end(), 0);
    root.children = vec![
        loose(leaf("decorator", SOURCE, "@app.function()", 0)),
        held("definition", definition()),
    ];
    root
}

fn greet() -> Function {
    Function {
        name: "greet".to_string(),
        line: 1,
        params: vec![
            param("name", "str", ""),
            param("count", "int", "3"),
            param("who", "", "\"world\""),
            param("x", "", ""),
        ],
    }
}

#[test]
fn a_qualifying_definition_gives_a_function() {
    let root = decorated_greet();
    assert!(root.fits(SOURCE));
    assert_eq!(extract_function(&root, SOURCE, &Markers::standard()), Some(greet()));
}

#[test]
fn the_line_counts_from_one() {
    let mut root = decorated_greet();
    root.start_row = 41;
    let function = extract_function(&root, SOURCE, &Markers::standard()).unwrap();
    assert_eq!(function.line, 42);
}

#[test]
fn a_node_of_another_kind_gives_no_function() {
    let mut root = decorated_greet();
    root.kind = "function_definition".to_string();
    assert_eq!(extract_function(&root, SOURCE, &Markers::standard()), None);
}

#[test]
fn a_definition_that_is_no_function_gives_no_function() {
    let markers = Markers::standard();
    let mut root = decorated_greet();
    root.children[1].node.kind = "class_definition".to_string();
    assert_eq!(extract_function(&root, SOURCE, &markers), None);
    root.children[1].node.kind = "function_definition".to_string();
    assert_eq!(extract_function(&root, SOURCE, &markers), Some(greet()));
}

#[test]
fn a_definition_without_a_name_is_passed_over() {
    let markers = Markers::standard();
    let mut root = decorated_greet();
    root.children[1].node.children[1].field = None;
    assert_eq!(extract_function(&root, SOURCE, &markers), None);
    let mut root = decorated_greet();
    root.children[1].field = None;
    assert_eq!(extract_function(&root, SOURCE, &markers), None);
    let mut root = decorated_greet();
    let name = &mut root.children[1].node.children[1].node;
    name.end_byte = name.start_byte;
    assert_eq!(extract_function(&root, SOURCE, &markers), None);
}

#[test]
fn the_functions_of_a_tree_are_those_of_the_roots_children() {
    let module = SyntaxNode {
        kind: "module".to_string(),
        start_byte: 0,
        end_byte: SOURCE.len(),
        start_row: 0,
        children: vec![
            loose(leaf("comment", SOURCE, "@app", 0)),
            loose(decorated_greet()),
            loose(definition()),
            loose(decorated_greet()),
        ],
    };
    assert!(module.fits(SOURCE));
    let markers = Markers::standard();
    assert_eq!(parse_all_decorated_functions(&module, SOURCE), vec![greet(), greet()]);
    assert_eq!(functions_in_tree(&module, SOURCE, &markers), vec![greet(), greet()]);
    assert_eq!(scan_tree(&module, SOURCE, &markers), Some(vec![greet(), greet()]));
}

#[test]
fn a_tree_without_children_has_no_functions() {
    let module = leaf("module", SOURCE, SOURCE, 0);
    assert_eq!(parse_all_decorated_functions(&module, SOURCE), vec![]);
}

#[test]
fn a_tree_of_another_text_does_not_fit() {
    let root = decorated_greet();
    assert!(root.fits(SOURCE));
    assert!(!root.fits("@app.function()\n"));
    assert!(!root.fits(""));
    assert_eq!(scan_tree(&root, "", &Markers::standard()), None);
}

#[test]
fn a_tree_that_splits_a_character_does_not_fit() {
    let source = "é = 1";
    let mut node = leaf("identifier", source, "é", 0);
    assert!(node.fits(source));
    assert!(node.sits_in(source));
    assert_eq!(node.text(source), "é");
    node.end_byte = 1;
    assert!(!node.fits(source));
    assert!(!node.sits_in(source));
}

#[test]
fn a_tree_fits_only_if_everything_below_the_root_fits() {
    let mut root = decorated_greet();
    root.children[1].node.children[2].node.children[3].node.children[4].node.end_byte = SOURCE.len() + 1;
    assert!(!root.fits(SOURCE));
    assert!(root.sits_in(SOURCE));
}

#[test]
fn a_row_that_has_no_line_number_does_not_fit() {
    let mut node = leaf("identifier", SOURCE, "greet", 1);
    assert_eq!(node.line(), 2);
    node.start_row = usize::MAX;
    assert!(!node.fits(SOURCE));
    node.start_row = usize::MAX - 1;
    assert!(node.fits(SOURCE));
    assert_eq!(node.line(), usize::MAX);
}

#[test]
fn the_kind_of_a_node() {
    let node = leaf("identifier", SOURCE, "greet", 1);
    assert!(node.is_kind("identifier"));
    assert!(!node.is_kind("identifie"));
    assert!(!node.is_kind("type"));
}

fn parsed(source: &str) -> SyntaxNode {
    parse_source(source).unwrap()
}

#[test]
fn the_parser_gives_the_tree_that_was_written_by_hand() {
    let root = parsed(SOURCE);
    assert_eq!(root.kind, "module");
    assert_eq!((root.start_byte, root.end_byte, root.start_row), (0, SOURCE.len(), 0));
    assert_eq!(root.children.len(), 1);
    assert_eq!(root.children[0].field, None);
    let decorated = &root.children[0].node;
    let expected = decorated_greet();
    assert_eq!(decorated.kind, expected.kind);
    assert_eq!((decorated.start_byte, decorated.end_byte, decorated.start_row), (expected.start_byte, expected.end_byte, 0));
    assert_eq!(decorated.children.len(), 2);
    assert_eq!(decorated.children[0].node.kind, "decorator");
    assert_eq!(decorated.children[0].node.text(SOURCE), "@app.function()");
    assert_eq!(decorated.children[1].field, Some("definition".to_string()));
    let def = &decorated.children[1].node;
    assert_eq!(def.kind, "function_definition");
    assert_eq!(def.start_row, 1);
    let fields: Vec<Option<&str>> = def.children.iter().map(|c| c.field.as_deref()).collect();
    assert_eq!(fields, vec![None, Some("name"), Some("parameters"), None, Some("body")]);
    let list = &def.children[2].node;
    let hand = parameters();
    assert_eq!(list.children.len(), hand.children.len());
    for (got, want) in list.children.iter().zip(hand.children.iter()) {
        assert_eq!(got.node.kind, want.node.kind);
        assert_eq!(got.node.text(SOURCE), want.node.text(SOURCE));
        assert_eq!(got.node.start_row, 1);
        assert_eq!(got.node.children.len(), want.node.children.len());
        for (part, hand_part) in got.node.children.iter().zip(want.node.children.iter()) {
            assert_eq!(part.node.kind, hand_part.node.kind);
            assert_eq!(part.node.text(SOURCE), hand_part.node.text(SOURCE));
        }
    }
}

#[test]
fn the_parser_names_the_parts_of_a_parameter() {
    let root = parsed(SOURCE);
    let list = &root.children[0].node.children[1].node.children[2].node;
    let typed_default = &list.children[3].node;
    let fields: Vec<Option<&str>> = typed_default.children.iter().map(|c| c.field.as_deref()).collect();
    assert_eq!(fields, vec![Some("name"), None, Some("type"), None, Some("value")]);
}

#[test]
fn the_tree_is_cut_off_below_the_parts_of_a_parameter() {
    let source = "@app.function()\ndef f(x: list[int] = [1, [2, 3]]):\n    return [[x]]\n";
    let root = parsed(source);
    assert!(root.fits(source));
    let list = &root.children[0].node.children[1].node.children[2].node;
    let parameter = &list.children[1].node;
    assert_eq!(parameter.kind, "typed_default_parameter");
    assert_eq!(parameter.children.len(), 5);
    for part in &parameter.children {
        assert!(part.node.children.is_empty());
    }
    assert_eq!(parameter.children[4].node.text(source), "[1, [2, 3]]");
    assert_eq!(SCAN_DEPTH, 5);
}

#[test]
fn a_tree_of_the_parser_fits_its_text() {
    for source in ["", "\n", "x = 1", SOURCE, "# é\n@a.function()\ndef ü(ñ='日本'): pass\n", "def (:\n"] {
        assert!(parsed(source).fits(source));
    }
}

#[test]
fn rows_count_from_zero() {
    let root = parsed("\n\nx = 1\ny = 2\n");
    assert_eq!(root.children.len(), 2);
    assert_eq!(root.children[0].node.start_row, 2);
    assert_eq!(root.children[1].node.start_row, 3);
    assert_eq!(root.children[1].node.start_byte, 8);
    assert_eq!(root.children[1].node.end_byte, 13);
}

#[test]
fn a_snapshot_is_as_deep_as_asked() {
    let mut parser = tree_sitter::Parser::new();
    parser.set_language(&tree_sitter_python::LANGUAGE.into()).unwrap();
    let tree = parser.parse(SOURCE, None).unwrap();
    let root = tree.root_node();
    let top = snapshot(&root, 0);
    assert_eq!(top.kind, "module");
    assert_eq!(top.end_byte, SOURCE.len());
    assert!(top.children.is_empty());
    let one = snapshot(&root, 1);
    assert_eq!(one.children.len(), 1);
    assert_eq!(one.children[0].node.kind, "decorated_definition");
    assert!(one.children[0].node.children.is_empty());
    let two = snapshot(&root, 2);
    assert_eq!(two.children[0].node.children.len(), 2);
    assert!(two.children[0].node.children[1].node.children.is_empty());
    let deep = snapshot(&root, 64);
    let body = &deep.children[0].node.children[1].node.children[4].node;
    assert_eq!(body.kind, "block");
    assert_eq!(body.children[0].node.kind, "pass_statement");
}

#[test]
fn what_the_provider_gave_decides_the_outcome() {
    let markers = Markers::standard();
    let module = SyntaxNode {
        kind: "module".to_string(),
        start_byte: 0,
        end_byte: SOURCE.len(),
        start_row: 0,
        children: vec![loose(decorated_greet())],
    };
    assert_eq!(scan_parsed(Ok(module), SOURCE, &markers), Ok(vec![greet()]));
    assert_eq!(scan_parsed(Err(ProviderError::NoTree), SOURCE, &markers), Err(ScanError::ParseFailure));
    assert_eq!(
        scan_parsed(Err(ProviderError::Unavailable("no grammar".to_string())), SOURCE, &markers),
        Err(ScanError::ParserUnavailable("no grammar".to_string()))
    );
    assert_eq!(scan_parsed(Ok(decorated_greet()), "def", &markers), Err(ScanError::ParseFailure));
}

#[test]
fn a_filter_with_other_markers_judges_by_them() {
    let (source, root) = decorated(&["@app.function()", "@task"]);
    assert!(has_supported_decorator(&root, &source));
    assert!(Markers::standard().accepts(&root, &source));
    assert!(Markers::new(vec!["task".to_string()], vec![]).accepts(&root, &source));
    assert!(!Markers::new(vec!["task".to_string()], vec!["function".to_string()]).accepts(&root, &source));
    assert!(!Markers::new(vec!["job".to_string()], vec![]).accepts(&root, &source));
    assert!(!Markers::new(vec![], vec![]).accepts(&root, &source));
    let module = SyntaxNode {
        kind: "module".to_string(),
        start_byte: 0,
        end_byte: SOURCE.len(),
        start_row: 0,
        children: vec![loose(decorated_greet())],
    };
    let none = Markers::new(vec!["task".to_string()], vec![]);
    assert_eq!(functions_in_tree(&module, SOURCE, &none), vec![]);
    let app = Markers::new(vec!["app".to_string()], vec![]);
    assert_eq!(functions_in_tree(&module, SOURCE, &app), vec![greet()]);
}
