use crate::ast::symbol::{optional_span, span_of, symbol_views, Span, Symbol, SymbolKind, SymbolView};
use crate::ast::syntax::{SyntaxNode, NodeView};
use std::ops::Range;
use vstd::prelude::*;
use vstd::string::StringSliceAdditionalSpecFns;

verus! {

/// The rules of one language for turning a syntax node into a symbol.
pub trait LanguageRules {
    /// The symbol that the rules give for `node` itself, if any.
    spec fn symbol_for(node: NodeView, source: Seq<u8>) -> Option<SymbolView>;

    /// A symbol carries the lines, counted from 1, and the bytes of the node
    /// that it was made for.
    proof fn symbol_covers_node(node: NodeView, source: Seq<u8>)
        ensures
            Self::symbol_for(node, source) matches Some(symbol) ==> {
                &&& symbol.start_line == node.start_row + 1
                &&& symbol.end_line == node.end_row + 1
                &&& symbol.full_range == node.span()
            },
    ;
}

/// A walk over a syntax tree that gathers the symbols which one language's
/// rules give for its nodes.
pub trait LanguageVisitor: LanguageRules + Sized {
    /// The symbols gathered so far, in the order in which they were found.
    spec fn collected(&self) -> Seq<SymbolView>;

    /// Walks the tree under `node` and appends the symbols of its nodes.
    fn visit(&mut self, node: &SyntaxNode, source_code: &str)
        requires
            node@.lines_fit(),
        ensures
            final(self).collected() == old(self).collected() + walk::<Self>(
                node@,
                source_code.spec_bytes(),
            ),
    ;

    /// Gives up the gathered symbols.
    fn get_symbols(self) -> (symbols: Vec<Symbol>)
        ensures
            symbol_views(symbols@) == self.collected(),
    ;
}

/// The symbols of a walk that starts at `node`: the node's own symbol, if it has
/// one, then the symbols of the walks that start at its children, from left to right.
pub open spec fn walk<V: LanguageRules>(node: NodeView, source: Seq<u8>) -> Seq<SymbolView>
    decreases node,
{
    own_symbol::<V>(node, source) + walk_each::<V>(node.children, source)
}

/// The symbols of the walks that start at each of `nodes`, in order.
pub open spec fn walk_each<V: LanguageRules>(nodes: Seq<NodeView>, source: Seq<u8>) -> Seq<SymbolView>
    decreases nodes,
{
    if nodes.len() == 0 {
        Seq::empty()
    } else {
        walk_each::<V>(nodes.drop_last(), source) + walk::<V>(nodes.last(), source)
    }
}

/// The symbol of `node` itself as a list: empty, or of one symbol.
pub open spec fn own_symbol<V: LanguageRules>(node: NodeView, source: Seq<u8>) -> Seq<SymbolView> {
    match V::symbol_for(node, source) {
        Some(symbol) => seq![symbol],
        None => Seq::empty(),
    }
}

/// The view of an optional symbol.
pub open spec fn optional_symbol(symbol: Option<Symbol>) -> Option<SymbolView> {
    match symbol {
        Some(s) => Some(s@),
        None => None,
    }
}

/// The bytes that an optional node covers.
pub open spec fn covered(node: Option<NodeView>) -> Option<Span> {
    match node {
        Some(n) => Some(n.span()),
        None => None,
    }
}

/// The symbol of kind `kind` for the construct `node` whose name is the text of
/// `named_by`: it has the lines and bytes of `node` and the two given ranges.
/// There is none where the bytes of `named_by` spell no text.
pub open spec fn symbol_at(
    node: NodeView,
    kind: SymbolKind,
    named_by: NodeView,
    name_range: Span,
    body_range: Option<Span>,
    source: Seq<u8>,
) -> Option<SymbolView> {
    match named_by.text(source) {
        Some(name) => Some(
            SymbolView {
                kind,
                name,
                start_line: node.start_row + 1,
                end_line: node.end_row + 1,
                full_range: node.span(),
                name_range: Some(name_range),
                body_range,
            },
        ),
        None => None,
    }
}

/// The symbol of kind `kind` for a construct that holds its name under the
/// field `name` and, where `body_field` is given, its body under that field.
/// There is none where the construct has no such name.
pub open spec fn named_symbol(
    node: NodeView,
    kind: SymbolKind,
    body_field: Option<Seq<char>>,
    source: Seq<u8>,
) -> Option<SymbolView> {
    match node.child_by_field_name("name"@) {
        Some(name) => symbol_at(
            node,
            kind,
            name,
            name.span(),
            match body_field {
                Some(field) => covered(node.child_by_field_name(field)),
                None => None,
            },
            source,
        ),
        None => None,
    }
}

/// Makes the symbol of `symbol_at`.
pub fn make_symbol(
    node: &SyntaxNode,
    kind: SymbolKind,
    named_by: &SyntaxNode,
    name_range: Range<usize>,
    body_range: Option<Range<usize>>,
    source: &str,
) -> (symbol: Option<Symbol>)
    requires
        node.start_row < usize::MAX,
        node.end_row < usize::MAX,
    ensures
        optional_symbol(symbol) == symbol_at(
            node@,
            kind,
            named_by@,
            span_of(name_range),
            optional_span(body_range),
            source.spec_bytes(),
        ),
{
    match named_by.utf8_text(source) {
        Some(name) => Some(
            Symbol {
                kind,
                name,
                start_line: node.start_row + 1,
                end_line: node.end_row + 1,
                full_range: node.byte_range(),
                name_range: Some(name_range),
                body_range,
            },
        ),
        None => None,
    }
}

/// The bytes of the child that `node` holds under the field `field`.
pub fn field_range(node: &SyntaxNode, field: &str) -> (range: Option<Range<usize>>)
    ensures
        optional_span(range) == covered(node@.child_by_field_name(field@)),
{
    match node.child_by_field_name(field) {
        Some(child) => Some(child.byte_range()),
        None => None,
    }
}

/// Makes the symbol of `named_symbol`.
pub fn make_named_symbol(
    node: &SyntaxNode,
    kind: SymbolKind,
    body_field: Option<&str>,
    source: &str,
) -> (symbol: Option<Symbol>)
    requires
        node.start_row < usize::MAX,
        node.end_row < usize::MAX,
    ensures
        optional_symbol(symbol) == named_symbol(
            node@,
            kind,
            match body_field {
                Some(field) => Some(field@),
                None => None,
            },
            source.spec_bytes(),
        ),
{
    match node.child_by_field_name("name") {
        Some(name) => {
            let body_range = match body_field {
                Some(field) => field_range(node, field),
                None => None,
            };
            make_symbol(node, kind, name, name.byte_range(), body_range, source)
        },
        None => None,
    }
}

/// Appending a symbol to a list appends its view to the list's views.
pub proof fn symbol_views_push(symbols: Seq<Symbol>, symbol: Symbol)
    ensures
        symbol_views(symbols.push(symbol)) == symbol_views(symbols).push(symbol@),
{
    assert(symbol_views(symbols.push(symbol)) =~= symbol_views(symbols).push(symbol@));
}

/// The walks over the first `count + 1` of `nodes` are the walks over the first
/// `count` followed by the walk over the next one.
pub proof fn walk_each_next<V: LanguageRules>(nodes: Seq<NodeView>, count: int, source: Seq<u8>)
    requires
        0 <= count < nodes.len(),
    ensures
        walk_each::<V>(nodes.take(count + 1), source) == walk_each::<V>(nodes.take(count), source)
            + walk::<V>(nodes[count], source),
{
    let longer = nodes.take(count + 1);
    assert(longer.drop_last() == nodes.take(count));
    assert(longer.last() == nodes[count]);
}

} // verus!
