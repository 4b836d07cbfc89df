use decorated_fns::markers::Markers;
use decorated_fns::provider::{parse_source, snapshot};
use decorated_fns::scan::scan_source;
use decorated_fns::syntax::SyntaxNode;
use tree_sitter::{Node, Parser, Tree};

const SOURCES: [&str; 14] = [
    "@app.function()\ndef f(count: int = N, other: T = count, plain=NAME): pass\n",
    "@app.function()\nclass C:\n    pass\n\n@app.function()\ndef g(x: int = y):\n    pass\n",
    "",
    "x = 1\n",
    "@app.function()\ndef f(a, b: int, c=1, d: str = \"x\", *e, **g):\n    pass\n",
    "@app.function()\n# a comment\ndef f(  # another\n    a,\n    # and another\n    b=2,\n):\n    pass\n",
    "@app.function()\n@modal.web_endpoint()\ndef f():\n    pass\n\n@app.local_entrypoint()\ndef main(self, name=\"world\"):\n    pass\n",
    "@app.function()\nclass C(Base):\n    @app.function()\n    def m(self, x: int = 3):\n        pass\n",
    "@app.function()\nasync def f[T](x: T, /, y, *, z: T = None) -> T:\n    return x\n",
    "# größer 日本語 🎉\n@app.function()\ndef grüße(名前: str = \"wörld 🎉\", été=\"é\"):\n    pass\n",
    "@app.function()\ndef (x):\n    pass\n",
    "@app.function()\ndef f(x = , y: = 2, : int, z\n    pass\n",
    "@app.function(\ndef g(:\n@app.function()\ndef h(a=(1,\n",
    "@app.function()\nlambda x: x\n\n@app.function()\ndef ok(fn=lambda a, b=1: a + b, t: tuple[int, ...] = (1, 2)):\n    pass\n",
];

fn tree_of(source: &str) -> Tree {
    let mut parser = Parser::new();
    parser.set_language(&tree_sitter_python::LANGUAGE.into()).unwrap();
    parser.parse(source, None).unwrap()
}

fn same_node(copy: &SyntaxNode, node: &Node) -> bool {
    copy.kind == node.kind()
        && copy.start_byte == node.start_byte()
        && copy.end_byte == node.end_byte()
        && copy.start_row == node.start_position().row
}

/// Holds a copy against the node that it was made of, all the way down.
fn hold_against(copy: &SyntaxNode, node: &Node) {
    assert!(same_node(copy, node));
    let mut cursor = node.walk();
    let children: Vec<Node> = node.children(&mut cursor).collect();
    assert_eq!(copy.children.len(), children.len());
    for (child, below) in copy.children.iter().zip(children.iter()) {
        hold_against(&child.node, below);
    }
    for name in ["definition", "name", "parameters", "type", "value", "body", "return_type", "superclasses"] {
        match (copy.child_by_field_name(name), node.child_by_field_name(name)) {
            (Some(found), Some(wanted)) => assert!(same_node(found, &wanted)),
            (None, None) => {}
            (found, wanted) => panic!("field {}: {:?} and {:?}", name, found.map(|n| &n.kind), wanted),
        }
    }
}

#[test]
fn a_whole_snapshot_agrees_with_the_tree_node_by_node() {
    for source in SOURCES {
        let tree = tree_of(source);
        let root = tree.root_node();
        let copy = snapshot(&root, 1000);
        hold_against(&copy, &root);
        assert!(copy.fits(source));
    }
}

fn depth_of(node: &SyntaxNode) -> usize {
    node.children.iter().map(|c| 1 + depth_of(&c.node)).max().unwrap_or(0)
}

#[test]
fn a_snapshot_is_never_deeper_than_asked() {
    for source in SOURCES {
        let tree = tree_of(source);
        let root = tree.root_node();
        let whole = depth_of(&snapshot(&root, 1000));
        for depth in 0..8 {
            assert_eq!(depth_of(&snapshot(&root, depth)), whole.min(depth));
        }
    }
}

#[test]
fn the_parsed_source_is_the_snapshot_of_its_tree() {
    for source in SOURCES {
        let tree = tree_of(source);
        let direct = snapshot(&tree.root_node(), 5);
        let parsed = parse_source(source).unwrap();
        assert_eq!(format!("{:?}", parsed), format!("{:?}", direct));
    }
}

fn text<'a>(node: &Node, source: &'a str) -> &'a str {
    &source[node.byte_range()]
}

fn first_of<'a>(node: &Node, kind: &str, source: &'a str) -> &'a str {
    let mut cursor = node.walk();
    let found = node.children(&mut cursor).find(|c| c.kind() == kind);
    found.map(|c| text(&c, source)).unwrap_or("")
}

fn last_of<'a>(node: &Node, source: &'a str) -> &'a str {
    let mut cursor = node.walk();
    node.children(&mut cursor).last().map(|last| text(&last, source)).unwrap_or("")
}

/// The value of `x: T = E`: the last child, unless it is the name or one of the marks.
fn value_of<'a>(node: &Node, source: &'a str) -> &'a str {
    let mut cursor = node.walk();
    let children: Vec<Node> = node.children(&mut cursor).collect();
    let name = children.iter().position(|c| c.kind() == "identifier");
    match children.last() {
        Some(last) if name != Some(children.len() - 1) && ![":", "type", "="].contains(&last.kind()) => {
            text(last, source)
        }
        _ => "",
    }
}

/// The functions of a source, read off the tree of tree-sitter itself, as lines of text.
fn read_off_the_tree(source: &str) -> Vec<String> {
    let tree = tree_of(source);
    let root = tree.root_node();
    let mut cursor = root.walk();
    let mut lines = vec![];
    for top in root.children(&mut cursor) {
        if top.kind() != "decorated_definition" {
            continue;
        }
        let mut inner = top.walk();
        let decorators: Vec<&str> = top
            .children(&mut inner)
            .filter(|c| c.kind() == "decorator")
            .map(|c| text(&c, source))
            .collect();
        let wanted = decorators.iter().any(|d| d.contains("local_entrypoint") || d.contains("function"));
        let unwanted = decorators.iter().any(|d| d.contains("web_endpoint") || d.contains("schedule"));
        if !wanted || unwanted {
            continue;
        }
        let Some(def) = top.child_by_field_name("definition") else { continue };
        if def.kind() != "function_definition" {
            continue;
        }
        let Some(name) = def.child_by_field_name("name") else { continue };
        if name.byte_range().is_empty() {
            continue;
        }
        let mut line = format!("{}@{}", text(&name, source), top.start_position().row + 1);
        if let Some(list) = def.child_by_field_name("parameters") {
            let mut below = list.walk();
            for p in list.children(&mut below) {
                let (name, kind, default) = match p.kind() {
                    "typed_parameter" => (first_of(&p, "identifier", source), first_of(&p, "type", source), ""),
                    "typed_default_parameter" => {
                        (first_of(&p, "identifier", source), first_of(&p, "type", source), value_of(&p, source))
                    }
                    "default_parameter" => (first_of(&p, "identifier", source), "", last_of(&p, source)),
                    "identifier" => (text(&p, source), "", ""),
                    _ => continue,
                };
                if name.is_empty() || name == "self" {
                    continue;
                }
                line.push_str(&format!(" [{}|{}|{}]", name, kind, default));
            }
        }
        lines.push(line);
    }
    lines
}

#[test]
fn a_scan_gives_what_the_tree_of_tree_sitter_gives() {
    for source in SOURCES {
        let functions = scan_source(source, &Markers::standard()).unwrap();
        let lines: Vec<String> = functions
            .iter()
            .map(|f| {
                let mut line = format!("{}@{}", f.name, f.line);
                for p in &f.params {
                    line.push_str(&format!(" [{}|{}|{}]", p.name, p.param_type, p.default));
                }
                line
            })
            .collect();
        assert_eq!(lines, read_off_the_tree(source), "for the source {:?}", source);
    }
}

#[test]
fn the_sources_are_not_all_empty_of_functions() {
    let listed: usize = SOURCES.iter().map(|s| read_off_the_tree(s).len()).sum();
    assert!(listed >= 8);
}

#[test]
fn the_lines_of_the_list_rise() {
    for source in SOURCES {
        let root = parse_source(source).unwrap();
        let rows: Vec<usize> = root
            .children
            .iter()
            .filter(|c| c.node.kind == "decorated_definition")
            .map(|c| c.node.start_row)
            .collect();
        assert!(rows.windows(2).all(|pair| pair[0] < pair[1]), "rows {:?}", rows);
        let lines: Vec<usize> =
            scan_source(source, &Markers::standard()).unwrap().iter().map(|f| f.line).collect();
        assert!(lines.windows(2).all(|pair| pair[0] < pair[1]), "lines {:?}", lines);
    }
}
