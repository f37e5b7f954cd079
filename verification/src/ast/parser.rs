use crate::ast::cpp_visitor::CppVisitor;
use crate::ast::go_visitor::GoVisitor;
use crate::ast::js_visitor::JsVisitor;
use crate::ast::kind_set::{filtered, optional_kinds, retain_kinds, KindSet};
use crate::ast::outline::{is_listing, record_views, tree_of, NodeRecord, RecordView};
use crate::ast::python_visitor::PythonVisitor;
use crate::ast::symbol::{symbol_views, Symbol, SymbolView};
use crate::ast::syntax::{SyntaxNode, NodeView};
use crate::ast::visitor::{walk, LanguageVisitor};
use crate::text::{optional_text, str_eq};
use vstd::prelude::*;
use vstd::string::{StringExecFns, StringSliceAdditionalSpecFns};

verus! {

/// `tree_sitter::Parser`, of which only `parser_grammar` is known here.
#[verifier::external_type_specification]
#[verifier::external_body]
pub struct ExParser(tree_sitter::Parser);

/// `tree_sitter::Tree`, of which only `tree_nodes` is known here.
#[verifier::external_type_specification]
#[verifier::external_body]
pub struct ExTree(tree_sitter::Tree);

/// `tree_sitter::Language`, of which only `language_grammar` is known here.
#[verifier::external_type_specification]
#[verifier::external_body]
pub struct ExLanguage(tree_sitter::Language);

/// `tree_sitter::LanguageError`, of which nothing is known here.
#[verifier::external_type_specification]
#[verifier::external_body]
pub struct ExLanguageError(tree_sitter::LanguageError);

/// What a parsed tree holds: the records of its nodes in document order, as a
/// `tree_sitter::TreeCursor` on the tree reports them one by one. The root
/// comes first.
pub uninterp spec fn tree_nodes(tree: tree_sitter::Tree) -> Seq<RecordView>;

/// The final component of a path, as `std::path::Path::file_name` gives it.
pub uninterp spec fn file_name_of(path: Seq<char>) -> Option<Seq<char>>;

/// The grammar that a language was made for.
pub uninterp spec fn language_grammar(language: tree_sitter::Language) -> Grammar;

/// What a parser holds: the grammar of the language that it was given last,
/// if it was given one.
pub uninterp spec fn parser_grammar(parser: tree_sitter::Parser) -> Option<Grammar>;

/// Whether `tree_sitter::Parser::set_language` takes the language of `grammar`.
pub uninterp spec fn accepted(grammar: Grammar) -> bool;

/// What `tree_sitter::Parser::parse` makes of `text` with the language of
/// `grammar`: the records of the tree's nodes in document order, or nothing
/// where it gives no tree.
pub uninterp spec fn parsed(grammar: Grammar, text: Seq<char>) -> Option<Seq<RecordView>>;

/// The grammars that a parser can be made for.
#[derive(Debug, Clone, Copy, PartialEq, Eq, Structural)]
pub enum Grammar {
    Cpp,
    Python,
    Rust,
    JavaScript,
    Go,
}

/// The languages whose rules for symbols the library holds.
#[derive(Debug, Clone, Copy, PartialEq, Eq, Structural)]
pub enum Extractor {
    Cpp,
    Python,
    JavaScript,
    Go,
}

/// The place of the last `.` in `name`, or -1 where it has none.
pub open spec fn last_dot(name: Seq<char>) -> int
    decreases name.len(),
{
    if name.len() == 0 {
        -1
    } else if name.last() == '.' {
        name.len() - 1
    } else {
        last_dot(name.drop_last())
    }
}

/// The extension of a file name: what follows its last `.`. A name without a
/// `.`, or whose only `.` is its first character, has none.
pub open spec fn extension_of_name(name: Seq<char>) -> Option<Seq<char>> {
    if last_dot(name) <= 0 {
        None
    } else {
        Some(name.subrange(last_dot(name) + 1, name.len() as int))
    }
}

/// The extension by which a path selects its grammar: that of its final
/// component, or the empty text where it has none.
pub open spec fn path_extension(path: Seq<char>) -> Seq<char> {
    match file_name_of(path) {
        Some(name) => match extension_of_name(name) {
            Some(extension) => extension,
            None => Seq::empty(),
        },
        None => Seq::empty(),
    }
}

/// The grammar for files with the extension `extension`.
pub open spec fn grammar_for(extension: Seq<char>) -> Option<Grammar> {
    if extension == "cpp"@ || extension == "cc"@ || extension == "cxx"@ || extension == "c"@
        || extension == "h"@ || extension == "hpp"@ {
        Some(Grammar::Cpp)
    } else if extension == "py"@ {
        Some(Grammar::Python)
    } else if extension == "rs"@ {
        Some(Grammar::Rust)
    } else if extension == "js"@ || extension == "ts"@ {
        Some(Grammar::JavaScript)
    } else if extension == "go"@ {
        Some(Grammar::Go)
    } else {
        None
    }
}

/// The language whose rules are written for files with the extension
/// `extension`, if there is one.
pub open spec fn extractor_for(extension: Seq<char>) -> Option<Extractor> {
    if extension == "cpp"@ || extension == "cc"@ || extension == "cxx"@ || extension == "c"@
        || extension == "h"@ || extension == "hpp"@ {
        Some(Extractor::Cpp)
    } else if extension == "py"@ {
        Some(Extractor::Python)
    } else if extension == "js"@ || extension == "ts"@ {
        Some(Extractor::JavaScript)
    } else if extension == "go"@ {
        Some(Extractor::Go)
    } else {
        None
    }
}

/// The language whose rules are applied to files with the extension
/// `extension`: the one written for it, and Python's for every other extension.
pub open spec fn extractor_in_use(extension: Seq<char>) -> Extractor {
    match extractor_for(extension) {
        Some(extractor) => extractor,
        None => Extractor::Python,
    }
}

/// The symbols that the rules of `extractor` find in `tree`, in document order.
pub open spec fn tree_symbols(extractor: Extractor, tree: NodeView, source: Seq<u8>) -> Seq<
    SymbolView,
> {
    match extractor {
        Extractor::Cpp => walk::<CppVisitor>(tree, source),
        Extractor::Python => walk::<PythonVisitor>(tree, source),
        Extractor::JavaScript => walk::<JsVisitor>(tree, source),
        Extractor::Go => walk::<GoVisitor>(tree, source),
    }
}

/// Calls `Path::extension` of std, which gives the extension of the path's
/// final component as std's documentation defines it: what follows the last `.`
/// of the file name, and none where there is no file name, where the name has
/// no `.`, or where its only `.` is its first character.
#[verifier::external_body]
fn extension(path: &str) -> (found: Option<String>)
    ensures
        optional_text(found) == match file_name_of(path@) {
            Some(name) => extension_of_name(name),
            None => None,
        },
{
    std::path::Path::new(path).extension().and_then(|e| e.to_str()).map(|e| e.to_string())
}

/// Gives `tree_sitter_cpp::LANGUAGE` as a language.
#[verifier::external_body]
fn cpp_language() -> (language: tree_sitter::Language)
    ensures
        language_grammar(language) == Grammar::Cpp,
{
    tree_sitter_cpp::LANGUAGE.into()
}

/// Gives `tree_sitter_python::LANGUAGE` as a language.
#[verifier::external_body]
fn python_language() -> (language: tree_sitter::Language)
    ensures
        language_grammar(language) == Grammar::Python,
{
    tree_sitter_python::LANGUAGE.into()
}

/// Gives `tree_sitter_rust::LANGUAGE` as a language.
#[verifier::external_body]
fn rust_language() -> (language: tree_sitter::Language)
    ensures
        language_grammar(language) == Grammar::Rust,
{
    tree_sitter_rust::LANGUAGE.into()
}

/// Gives `tree_sitter_javascript::LANGUAGE` as a language.
#[verifier::external_body]
fn javascript_language() -> (language: tree_sitter::Language)
    ensures
        language_grammar(language) == Grammar::JavaScript,
{
    tree_sitter_javascript::LANGUAGE.into()
}

/// Gives `tree_sitter_go::LANGUAGE` as a language.
#[verifier::external_body]
fn go_language() -> (language: tree_sitter::Language)
    ensures
        language_grammar(language) == Grammar::Go,
{
    tree_sitter_go::LANGUAGE.into()
}

/// Calls `tree_sitter::Parser::new`, which makes a parser without a language.
#[verifier::external_body]
fn new_parser() -> (parser: tree_sitter::Parser)
    ensures
        parser_grammar(parser) is None,
{
    tree_sitter::Parser::new()
}

/// Calls `tree_sitter::Parser::set_language`. Whether it takes a language
/// depends on the language alone. Where it does, the parser holds the
/// language from then on; where it does not, the parser is left as it was.
#[verifier::external_body]
fn set_language(parser: &mut tree_sitter::Parser, language: &tree_sitter::Language) -> (taken:
    Result<(), tree_sitter::LanguageError>)
    ensures
        taken is Ok <==> accepted(language_grammar(*language)),
        parser_grammar(*final(parser)) == if taken is Ok {
            Some(language_grammar(*language))
        } else {
            parser_grammar(*old(parser))
        },
{
    parser.set_language(language)
}

/// Gives the text that a `tree_sitter::LanguageError` displays.
#[verifier::external_body]
fn language_error_text(error: &tree_sitter::LanguageError) -> String {
    error.to_string()
}

/// Calls `tree_sitter::Parser::parse` on the whole text, without an earlier
/// tree. A parser without a language gives no tree. With a language, what
/// comes back depends on the language and the text alone, and the parser
/// keeps its language.
#[verifier::external_body]
fn parse_text(parser: &mut tree_sitter::Parser, text: &str) -> (tree: Option<tree_sitter::Tree>)
    ensures
        parser_grammar(*final(parser)) == parser_grammar(*old(parser)),
        match parser_grammar(*old(parser)) {
            Some(grammar) => match tree {
                Some(made) => parsed(grammar, text@) == Some(tree_nodes(made)),
                None => parsed(grammar, text@) is None,
            },
            None => tree is None,
        },
{
    parser.parse(text, None)
}

/// Calls `tree_sitter::Node::descendant_count` on the root of the tree, which
/// counts the root and all nodes below it: the number of positions to which a
/// cursor on the tree can be moved.
#[verifier::external_body]
fn node_count(tree: &tree_sitter::Tree) -> (count: usize)
    ensures
        count == tree_nodes(*tree).len(),
{
    tree.root_node().descendant_count()
}

/// Moves a cursor from `tree_sitter::Tree::walk` with
/// `tree_sitter::TreeCursor::goto_descendant` to the node at position `index`
/// in document order, the root being at position 0, and hands out what the
/// cursor and its node say there: `TreeCursor::depth` and
/// `TreeCursor::field_name`, and of `TreeCursor::node` the `kind`, the rows of
/// `start_position` and `end_position`, `start_byte` and `end_byte`. The
/// contract claims no more than that the same tree and position give the same
/// record.
#[verifier::external_body]
fn node_at(tree: &tree_sitter::Tree, index: usize) -> (record: NodeRecord)
    requires
        index < tree_nodes(*tree).len(),
    ensures
        record@ == tree_nodes(*tree)[index as int],
{
    let mut cursor = tree.walk();
    cursor.goto_descendant(index);
    let node = cursor.node();
    NodeRecord {
        depth: cursor.depth() as usize,
        kind: node.kind().to_string(),
        field: cursor.field_name().map(|name| name.to_string()),
        start_row: node.start_position().row,
        end_row: node.end_position().row,
        start_byte: node.start_byte(),
        end_byte: node.end_byte(),
    }
}

/// The language of a grammar.
fn language_of(grammar: Grammar) -> (language: tree_sitter::Language)
    ensures
        language_grammar(language) == grammar,
{
    match grammar {
        Grammar::Cpp => cpp_language(),
        Grammar::Python => python_language(),
        Grammar::Rust => rust_language(),
        Grammar::JavaScript => javascript_language(),
        Grammar::Go => go_language(),
    }
}

/// The records of all nodes of a parsed tree, in document order.
fn records_of(tree: &tree_sitter::Tree) -> (records: Vec<NodeRecord>)
    ensures
        record_views(records@) == tree_nodes(*tree),
{
    let count = node_count(tree);
    let mut records: Vec<NodeRecord> = Vec::new();
    let mut i: usize = 0;
    while i < count
        invariant
            i <= count,
            count == tree_nodes(*tree).len(),
            record_views(records@) == tree_nodes(*tree).take(i as int),
        decreases count - i,
    {
        let record = node_at(tree, i);
        proof {
            assert(record_views(records@.push(record)) == record_views(records@).push(record@));
            assert(tree_nodes(*tree).take(i + 1) == tree_nodes(*tree).take(i as int).push(
                tree_nodes(*tree)[i as int],
            ));
        }
        records.push(record);
        i = i + 1;
    }
    proof {
        assert(tree_nodes(*tree).take(i as int) == tree_nodes(*tree));
    }
    records
}

/// The extension by which a path selects its grammar.
fn extension_or_empty(path: &str) -> (found: String)
    ensures
        found@ == path_extension(path@),
{
    match extension(path) {
        Some(found) => found,
        None => String::new(),
    }
}

/// The grammar for files with the extension `extension`.
pub fn grammar_for_extension(extension: &str) -> (grammar: Option<Grammar>)
    ensures
        grammar == grammar_for(extension@),
{
    if str_eq(extension, "cpp") || str_eq(extension, "cc") || str_eq(extension, "cxx") || str_eq(
        extension,
        "c",
    ) || str_eq(extension, "h") || str_eq(extension, "hpp") {
        Some(Grammar::Cpp)
    } else if str_eq(extension, "py") {
        Some(Grammar::Python)
    } else if str_eq(extension, "rs") {
        Some(Grammar::Rust)
    } else if str_eq(extension, "js") || str_eq(extension, "ts") {
        Some(Grammar::JavaScript)
    } else if str_eq(extension, "go") {
        Some(Grammar::Go)
    } else {
        None
    }
}

/// The language whose rules are written for files with the extension
/// `extension`. Where there is none, `extract_symbols` applies Python's.
pub fn extractor_for_extension(extension: &str) -> (extractor: Option<Extractor>)
    ensures
        extractor == extractor_for(extension@),
{
    if str_eq(extension, "cpp") || str_eq(extension, "cc") || str_eq(extension, "cxx") || str_eq(
        extension,
        "c",
    ) || str_eq(extension, "h") || str_eq(extension, "hpp") {
        Some(Extractor::Cpp)
    } else if str_eq(extension, "py") {
        Some(Extractor::Python)
    } else if str_eq(extension, "js") || str_eq(extension, "ts") {
        Some(Extractor::JavaScript)
    } else if str_eq(extension, "go") {
        Some(Extractor::Go)
    } else {
        None
    }
}

/// The grammar for the file at `file_path`, chosen by the path's extension.
pub fn get_language(file_path: &str) -> (grammar: Option<Grammar>)
    ensures
        grammar == grammar_for(path_extension(file_path@)),
{
    let found = extension_or_empty(file_path);
    grammar_for_extension(found.as_str())
}

/// The message for a parser that did not take its language, for the reason given.
pub open spec fn language_failure(reason: Seq<char>) -> Seq<char> {
    "Failed to set language: "@ + reason
}

/// Whether `message` is `language_failure` of some reason.
pub open spec fn is_language_failure(message: Seq<char>) -> bool {
    exists|reason: Seq<char>| message == #[trigger] language_failure(reason)
}

/// The message for a parser that did not take its language.
pub fn language_failure_message(reason: &str) -> (message: String)
    ensures
        message@ == language_failure(reason@),
{
    "Failed to set language: ".to_owned().concat(reason)
}

/// The message for a text of which the parser gave no tree.
pub open spec fn parse_failure() -> Seq<char> {
    "Failed to parse source code"@
}

/// The syntax tree of `text` by `grammar`: the tree that the parser's records
/// list, where the parser gives a tree and its records are the listing of one.
pub open spec fn syntax_tree(grammar: Option<Grammar>, text: Seq<char>) -> Option<NodeView> {
    match grammar {
        Some(by) => match parsed(by, text) {
            Some(records) => if is_listing(records) {
                Some(tree_of(records))
            } else {
                None
            },
            None => None,
        },
        None => None,
    }
}

/// The symbols that the rules of `extractor` find in the tree under `root`.
pub fn symbols_by(extractor: Extractor, root: &SyntaxNode, source_code: &str) -> (symbols: Vec<
    Symbol,
>)
    requires
        root@.lines_fit(),
    ensures
        symbol_views(symbols@) == tree_symbols(extractor, root@, source_code.spec_bytes()),
{
    match extractor {
        Extractor::Cpp => {
            let mut visitor = CppVisitor::new();
            visitor.visit(root, source_code);
            visitor.get_symbols()
        },
        Extractor::Python => {
            let mut visitor = PythonVisitor::new();
            visitor.visit(root, source_code);
            visitor.get_symbols()
        },
        Extractor::JavaScript => {
            let mut visitor = JsVisitor::new();
            visitor.visit(root, source_code);
            visitor.get_symbols()
        },
        Extractor::Go => {
            let mut visitor = GoVisitor::new();
            visitor.visit(root, source_code);
            visitor.get_symbols()
        },
    }
}

/// The symbols of a file as `extract_symbols` gives them once the file's text
/// has been parsed into `tree`: those that the rules chosen by the extension of
/// `file_path` find in the tree, less those that `filter` leaves out.
pub open spec fn file_symbols(
    tree: NodeView,
    source: Seq<u8>,
    file_path: Seq<char>,
    filter: Option<Set<crate::ast::symbol::SymbolKind>>,
) -> Seq<SymbolView> {
    filtered(tree_symbols(extractor_in_use(path_extension(file_path)), tree, source), filter)
}

/// The symbols of the file at `file_path` whose text `source_code` was parsed
/// into the tree under `root`.
pub fn symbols_in_tree(
    root: &SyntaxNode,
    source_code: &str,
    file_path: &str,
    filter: Option<KindSet>,
) -> (symbols: Vec<Symbol>)
    requires
        root@.lines_fit(),
    ensures
        symbol_views(symbols@) == file_symbols(
            root@,
            source_code.spec_bytes(),
            file_path@,
            optional_kinds(filter),
        ),
{
    let found = extension_or_empty(file_path);
    let extractor = match extractor_for_extension(found.as_str()) {
        Some(extractor) => extractor,
        None => Extractor::Python,
    };
    let symbols = symbols_by(extractor, root, source_code);
    match filter {
        Some(kinds) => retain_kinds(symbols, &kinds),
        None => symbols,
    }
}

/// A parser for one grammar.
pub struct CodeParser {
    parser: tree_sitter::Parser,
}

impl CodeParser {
    /// The grammar by which the parser parses.
    pub closed spec fn grammar(&self) -> Option<Grammar> {
        parser_grammar(self.parser)
    }

    /// Makes a parser for `language`. Where the parser does not take the
    /// language, the error is `language_failure` of the parser's reason.
    pub fn new(language: Grammar) -> (made: Result<Self, String>)
        ensures
            match made {
                Ok(parser) => accepted(language) && parser.grammar() == Some(language),
                Err(message) => !accepted(language) && is_language_failure(message@),
            },
    {
        let mut parser = new_parser();
        let wanted = language_of(language);
        match set_language(&mut parser, &wanted) {
            Ok(()) => Ok(Self { parser }),
            Err(error) => {
                let reason = language_error_text(&error);
                let message = language_failure_message(reason.as_str());
                proof {
                    assert(message@ == language_failure(reason@));
                }
                Err(message)
            },
        }
    }

    /// Parses `source_code` into its syntax tree. Where there is none, the
    /// error is `parse_failure`.
    pub fn parse_tree(&mut self, source_code: &str) -> (parsed: Result<SyntaxNode, String>)
        ensures
            final(self).grammar() == old(self).grammar(),
            match syntax_tree(old(self).grammar(), source_code@) {
                Some(tree) => parsed matches Ok(root) && root@ == tree && tree.lines_fit(),
                None => parsed matches Err(message) && message@ == parse_failure(),
            },
    {
        let tree = match parse_text(&mut self.parser, source_code) {
            Some(tree) => tree,
            None => {
                return Err("Failed to parse source code".to_owned());
            },
        };
        let records = records_of(&tree);
        match SyntaxNode::from_listing(&records) {
            Some(root) => Ok(root),
            None => Err("Failed to parse source code".to_owned()),
        }
    }

    /// Parses `source_code` and walks its syntax tree with `visitor`. It gives
    /// what the visitor had gathered before, followed by the symbols of the
    /// walk. Where the text has no syntax tree, the error is `parse_failure`.
    pub fn parse_with_visitor<V: LanguageVisitor>(&mut self, source_code: &str, visitor: V) -> (found:
        Result<Vec<Symbol>, String>)
        ensures
            final(self).grammar() == old(self).grammar(),
            match syntax_tree(old(self).grammar(), source_code@) {
                Some(tree) => found matches Ok(symbols) && symbol_views(symbols@)
                    == visitor.collected() + walk::<V>(tree, source_code.spec_bytes()),
                None => found matches Err(message) && message@ == parse_failure(),
            },
    {
        let root = match self.parse_tree(source_code) {
            Ok(root) => root,
            Err(message) => {
                return Err(message);
            },
        };
        let mut walker = visitor;
        walker.visit(&root, source_code);
        Ok(walker.get_symbols())
    }

    /// Parses `source_code` and gives the symbols of the file at `file_path`:
    /// those that the rules chosen by the path's extension find in the syntax
    /// tree, in document order, less those that `filter` leaves out. Where the
    /// text has no syntax tree, the error is `parse_failure`.
    pub fn extract_symbols(
        &mut self,
        source_code: &str,
        file_path: &str,
        filter: Option<KindSet>,
    ) -> (found: Result<Vec<Symbol>, String>)
        ensures
            final(self).grammar() == old(self).grammar(),
            match syntax_tree(old(self).grammar(), source_code@) {
                Some(tree) => found matches Ok(symbols) && symbol_views(symbols@) == file_symbols(
                    tree,
                    source_code.spec_bytes(),
                    file_path@,
                    optional_kinds(filter),
                ),
                None => found matches Err(message) && message@ == parse_failure(),
            },
    {
        let root = match self.parse_tree(source_code) {
            Ok(root) => root,
            Err(message) => {
                return Err(message);
            },
        };
        Ok(symbols_in_tree(&root, source_code, file_path, filter))
    }
}

} // verus!
