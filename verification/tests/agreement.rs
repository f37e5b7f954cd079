use fs_query::ast::parser::Grammar;
use fs_query::ast::syntax::SyntaxNode;
use fs_query::ast::CodeParser;

const FIELDS: [&str; 8] =
    ["name", "declarator", "body", "type", "value", "parameters", "left", "right"];

const CPP: &str = r#"
#include <vector>
namespace ns {
template <typename T>
class Box : public Base {
public:
    Box(T v) : value(v) {}
    ~Box();
    T get() const { return value; }
    static int count;
private:
    T value;
};
struct { int x; } anon;
enum Color { Red, Green };
int Box<int>::count = 0;
auto [a, b] = pair;
int *p = nullptr, q[3], &r = *p;
int (*callback)(int, char);
void free_function(int a, const char *b);
void ns::defined() { for (int i = 0; i < 3; ++i) { int local = i; } }
}
"#;

const PYTHON: &str = r#"
import os

@decorator
def top(a, b=1, *args, **kwargs):
    x = lambda y: y + 1
    def inner():
        return x(a)
    return inner

class Shape(Base):
    kind = "shape"

    def area(self):
        class Local:
            pass
        return 0

async def later():
    await top(1)
"#;

const JAVASCRIPT: &str = r#"
import x from "y";
class A extends B {
    constructor() { super(); this.v = 1; }
    static make() { return new A(); }
    get value() { return this.v; }
}
function f(a, b = 2, ...rest) { const inner = () => a + b; return inner; }
const g = function named() {};
let h = async (x) => { await x; };
var i = 1, j, k = { key: function () {} };
export default f;
"#;

const GO: &str = r#"
package main

import "fmt"

type Point struct {
    X, Y float64
}

type Celsius float64

type Shape interface {
    Area() float64
}

var global, other = 1, 2

const Pi = 3.14

func (p Point) Dist() float64 { return p.X }

func main() {
    var local int = 10
    f := func(a int) int { return a }
    fmt.Println(f(local))
}
"#;

const RUST: &str = r#"
struct Point { x: i32 }
impl Point { fn new() -> Self { Point { x: 0 } } }
fn main() { let p = Point::new(); }
"#;

fn language(grammar: Grammar) -> tree_sitter::Language {
    match grammar {
        Grammar::Cpp => tree_sitter_cpp::LANGUAGE.into(),
        Grammar::Python => tree_sitter_python::LANGUAGE.into(),
        Grammar::Rust => tree_sitter_rust::LANGUAGE.into(),
        Grammar::JavaScript => tree_sitter_javascript::LANGUAGE.into(),
        Grammar::Go => tree_sitter_go::LANGUAGE.into(),
    }
}

fn same_node(ours: &SyntaxNode, theirs: &tree_sitter::Node) -> bool {
    ours.kind == theirs.kind()
        && ours.start_byte == theirs.start_byte()
        && ours.end_byte == theirs.end_byte()
        && ours.start_row == theirs.start_position().row
        && ours.end_row == theirs.end_position().row
}

/// Holds the tree of the library against the parser's own nodes, reached child
/// by child, and counts the nodes.
fn compare(ours: &SyntaxNode, theirs: tree_sitter::Node, source: &str) -> usize {
    assert!(same_node(ours, &theirs), "{} against {}", ours.kind, theirs.kind());
    assert_eq!(ours.children.len(), theirs.child_count() as usize, "children of {}", ours.kind);
    assert_eq!(ours.utf8_text(source), theirs.utf8_text(source.as_bytes()).ok().map(String::from));
    // The children of a node that stands for unparsable text have no fields to
    // the parser, whatever the cursor says of them.
    let fields: &[&str] = if theirs.is_error() { &[] } else { &FIELDS };
    for field in fields {
        let mine = ours.child_by_field_name(field);
        let found = theirs.child_by_field_name(field);
        match (mine, found) {
            (Some(mine), Some(found)) => {
                assert!(same_node(mine, &found), "field {} of {}", field, ours.kind)
            }
            (None, None) => {}
            _ => panic!("field {} of {} is found by one only", field, ours.kind),
        }
    }
    let mut count = 1;
    for (i, child) in ours.children.iter().enumerate() {
        count += compare(child, theirs.child(i as u32).unwrap(), source);
    }
    count
}

fn agree(grammar: Grammar, source: &str) {
    let mut parser = tree_sitter::Parser::new();
    parser.set_language(&language(grammar)).unwrap();
    let theirs = parser.parse(source, None).unwrap();
    let ours = CodeParser::new(grammar).unwrap().parse_tree(source).unwrap();
    let count = compare(&ours, theirs.root_node(), source);
    assert_eq!(count, theirs.root_node().descendant_count());
}

#[test]
fn cpp_tree_agrees_with_the_parser() {
    agree(Grammar::Cpp, CPP);
}

#[test]
fn python_tree_agrees_with_the_parser() {
    agree(Grammar::Python, PYTHON);
}

#[test]
fn javascript_tree_agrees_with_the_parser() {
    agree(Grammar::JavaScript, JAVASCRIPT);
}

#[test]
fn go_tree_agrees_with_the_parser() {
    agree(Grammar::Go, GO);
}

#[test]
fn rust_tree_agrees_with_the_parser() {
    agree(Grammar::Rust, RUST);
}

#[test]
fn malformed_trees_agree_with_the_parser() {
    agree(Grammar::Cpp, "int f( { class ; } = [[ 3 \n struct S { int");
    agree(Grammar::Python, "def (((:\n  class\n\tdef x(:\n");
    agree(Grammar::JavaScript, "function ( { class extends ; let = ;");
    agree(Grammar::Go, "func ( { type struct var = ");
    agree(Grammar::Python, "");
    agree(Grammar::Cpp, "\n\n\n");
}

#[test]
fn trees_of_text_with_wide_characters_agree_with_the_parser() {
    agree(Grammar::Python, "def größe(länge):\n    return 'ü' + \"日本語\"\n");
    agree(Grammar::Cpp, "// комментарий\nint zähler = 1; /* 日本 */ void f() {}\n");
}
