use fs_query::ast::parser::{symbols_by, Extractor, Grammar};
use fs_query::ast::symbol::Symbol;
use fs_query::ast::{CodeParser, SymbolKind};
use std::ops::Range;
use tree_sitter::Node;

type Row = (SymbolKind, String, usize, usize, Range<usize>, Option<Range<usize>>, Option<Range<usize>>);

fn row(symbol: &Symbol) -> Row {
    (
        symbol.kind,
        symbol.name.clone(),
        symbol.start_line,
        symbol.end_line,
        symbol.full_range.clone(),
        symbol.name_range.clone(),
        symbol.body_range.clone(),
    )
}

fn text(node: &Node, source: &str) -> Option<String> {
    node.utf8_text(source.as_bytes()).ok().map(|t| t.to_string())
}

fn made(
    kind: SymbolKind,
    node: &Node,
    named_by: &Node,
    name_range: Range<usize>,
    body: Option<Node>,
    source: &str,
) -> Option<Row> {
    Some((
        kind,
        text(named_by, source)?,
        node.start_position().row + 1,
        node.end_position().row + 1,
        node.byte_range(),
        Some(name_range),
        body.map(|b| b.byte_range()),
    ))
}

fn named(kind: SymbolKind, node: &Node, body: Option<&str>, source: &str) -> Option<Row> {
    let name = node.child_by_field_name("name")?;
    let body = body.and_then(|field| node.child_by_field_name(field));
    made(kind, node, &name, name.byte_range(), body, source)
}

fn cpp_variable(node: &Node, source: &str) -> Option<Row> {
    let declarator = node.child_by_field_name("declarator")?;
    if let Some(inner) = declarator.child_by_field_name("declarator") {
        return made(SymbolKind::Variable, node, &inner, inner.byte_range(), None, source);
    }
    if declarator.kind() != "identifier" {
        let mut cursor = declarator.walk();
        cursor.goto_first_child();
        loop {
            let current = cursor.node();
            if current.kind() == "identifier" {
                let range = current.byte_range();
                return made(SymbolKind::Variable, node, &current, range, None, source);
            }
            if !cursor.goto_next_sibling() {
                break;
            }
        }
    }
    made(SymbolKind::Variable, node, &declarator, declarator.byte_range(), None, source)
}

fn direct(rules: Extractor, node: &Node, source: &str) -> Option<Row> {
    let is_struct_type =
        |n: &Node| n.child_by_field_name("type").map_or(false, |t| t.kind() == "struct_type");
    match (rules, node.kind()) {
        (Extractor::Cpp, "function_definition") => {
            let declarator = node.child_by_field_name("declarator")?;
            let by = declarator.child_by_field_name("declarator").unwrap_or(declarator);
            let body = node.child_by_field_name("body");
            made(SymbolKind::Function, node, &by, by.byte_range(), body, source)
        }
        (Extractor::Cpp, "class_specifier") => named(SymbolKind::Class, node, Some("body"), source),
        (Extractor::Cpp, "struct_specifier") => {
            named(SymbolKind::Struct, node, Some("body"), source)
        }
        (Extractor::Cpp, "declaration") => cpp_variable(node, source),
        (Extractor::Python, "function_definition") => {
            named(SymbolKind::Function, node, Some("body"), source)
        }
        (Extractor::Python, "class_definition") => {
            named(SymbolKind::Class, node, Some("body"), source)
        }
        (Extractor::JavaScript, "function_declaration" | "function") => {
            named(SymbolKind::Function, node, Some("body"), source)
        }
        (Extractor::JavaScript, "class_declaration") => {
            named(SymbolKind::Class, node, Some("body"), source)
        }
        (Extractor::JavaScript, "variable_declarator") => {
            named(SymbolKind::Variable, node, None, source)
        }
        (Extractor::Go, "function_declaration" | "method_declaration") => {
            named(SymbolKind::Function, node, Some("body"), source)
        }
        (Extractor::Go, "type_spec") if is_struct_type(node) => {
            named(SymbolKind::Struct, node, Some("body"), source)
        }
        (Extractor::Go, "var_spec") => named(SymbolKind::Variable, node, None, source),
        _ => None,
    }
}

fn read(rules: Extractor, node: &Node, source: &str, rows: &mut Vec<Row>) {
    rows.extend(direct(rules, node, source));
    for i in 0..node.child_count() {
        if let Some(child) = node.child(i) {
            read(rules, &child, source, rows);
        }
    }
}

fn language(grammar: Grammar) -> tree_sitter::Language {
    match grammar {
        Grammar::Cpp => tree_sitter_cpp::LANGUAGE.into(),
        Grammar::Python => tree_sitter_python::LANGUAGE.into(),
        Grammar::Rust => tree_sitter_rust::LANGUAGE.into(),
        Grammar::JavaScript => tree_sitter_javascript::LANGUAGE.into(),
        Grammar::Go => tree_sitter_go::LANGUAGE.into(),
    }
}

/// Holds the symbols of the library against those read straight from the
/// parser's nodes, and gives their number.
fn agree(grammar: Grammar, rules: Extractor, source: &str) -> usize {
    let mut parser = tree_sitter::Parser::new();
    parser.set_language(&language(grammar)).unwrap();
    let tree = parser.parse(source, None).unwrap();
    let mut expected = Vec::new();
    read(rules, &tree.root_node(), source, &mut expected);

    let root = CodeParser::new(grammar).unwrap().parse_tree(source).unwrap();
    let found: Vec<Row> = symbols_by(rules, &root, source).iter().map(row).collect();
    assert_eq!(found, expected);
    found.len()
}

const CPP: &str = r#"
#include <vector>
namespace ns {
template <typename T>
class Box : public Base {
public:
    Box(T v) : value(v) {}
    ~Box();
    T get() const { return value; }
    T operator+(const Box &o) { return value; }
    static int count;
private:
    T value;
};
struct { int x; } anon;
struct Tagged { int y; } tagged;
enum Color { Red, Green };
int Box<int>::count = 0;
auto [a, b] = pair;
int *p = nullptr, q[3], &r = *p;
int (*callback)(int, char);
void free_function(int a, const char *b);
extern "C" int c_linkage;
using Alias = int;
typedef int Other;
void ns::defined() { for (int i = 0; i < 3; ++i) { int local = i; auto fn = [&](int z) { return z; }; } }
}
"#;

const PYTHON: &str = r#"
import os

@decorator
def top(a, b=1, *args, **kwargs):
    x = lambda y: y + 1
    def inner():
        return x(a)
    return inner

class Shape(Base):
    kind = "shape"

    def area(self):
        class Local:
            pass
        return 0

async def later():
    await top(1)
"#;

const JAVASCRIPT: &str = r#"
import x from "y";
class A extends B {
    constructor() { super(); this.v = 1; }
    static make() { return new A(); }
}
function f(a, b = 2, ...rest) { const inner = () => a + b; return inner; }
const g = function named() {};
let h = async (x) => { await x; };
var i = 1, j, k = { key: function () {} };
const { d1, d2 } = obj, [e1, e2] = arr;
function* gen() { yield 1; }
export default f;
"#;

const GO: &str = r#"
package main

import "fmt"

type Point struct {
    X, Y float64
}

type (
    Celsius float64
    Pair struct{ A, B int }
)

type Shape interface {
    Area() float64
}

var global, other = 1, 2

var (
    grouped int
    second  = "s"
)

const Pi = 3.14

func (p Point) Dist() float64 { return p.X }

func main() {
    var local int = 10
    f := func(a int) int { return a }
    fmt.Println(f(local))
}
"#;

#[test]
fn cpp_symbols_are_those_read_from_the_nodes() {
    assert!(agree(Grammar::Cpp, Extractor::Cpp, CPP) >= 15);
}

#[test]
fn python_symbols_are_those_read_from_the_nodes() {
    assert_eq!(agree(Grammar::Python, Extractor::Python, PYTHON), 6);
}

#[test]
fn javascript_symbols_are_those_read_from_the_nodes() {
    assert!(agree(Grammar::JavaScript, Extractor::JavaScript, JAVASCRIPT) >= 10);
}

#[test]
fn go_symbols_are_those_read_from_the_nodes() {
    assert!(agree(Grammar::Go, Extractor::Go, GO) >= 8);
}

#[test]
fn symbols_of_other_rules_are_those_read_from_the_nodes() {
    for rules in [Extractor::Cpp, Extractor::Python, Extractor::JavaScript, Extractor::Go] {
        agree(Grammar::Cpp, rules, CPP);
        agree(Grammar::Python, rules, PYTHON);
        agree(Grammar::JavaScript, rules, JAVASCRIPT);
        agree(Grammar::Go, rules, GO);
        agree(Grammar::Rust, rules, "fn main() { let x = 1; }\nstruct S;\n");
    }
}

#[test]
fn symbols_of_malformed_text_are_those_read_from_the_nodes() {
    let broken = [
        "int f( { class ; } = [[ 3 \n struct S { int",
        "class A { void m( ; int x = ; };\nint (*;\nvoid g() { int y }",
        "int a[ = 3; auto [b c] = ; struct { int",
        "def (((:\n  class\n\tdef x(:\n",
        "class C(:\n    def m(self:\n        pass\ndef ok(): pass\n",
        "function ( { class extends ; let = ; const c = function (",
        "class K { m( { } } function f( { var v = ",
        "func ( { type struct var = ",
        "package p\ntype T struct { X \nfunc (t T M( {\nvar v, = 1",
        "",
        "\u{0}\u{1}{{{{",
    ];
    for source in broken {
        for grammar in [Grammar::Cpp, Grammar::Python, Grammar::JavaScript, Grammar::Go] {
            for rules in [Extractor::Cpp, Extractor::Python, Extractor::JavaScript, Extractor::Go]
            {
                agree(grammar, rules, source);
            }
        }
    }
}

#[test]
fn symbols_of_text_with_wide_characters_are_those_read_from_the_nodes() {
    agree(Grammar::Python, Extractor::Python, "def größe(länge):\n    return 'ü'\nclass Ünï: pass\n");
    agree(Grammar::Cpp, Extractor::Cpp, "// комментарий\nint zähler = 1; void 函数() {}\n");
    agree(Grammar::JavaScript, Extractor::JavaScript, "const π = 3.14; function ñ() {}\n");
    agree(Grammar::Go, Extractor::Go, "package p\nvar 变量 = 1\nfunc Ä() {}\n");
}
