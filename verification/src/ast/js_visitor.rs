use crate::ast::symbol::{symbol_views, Symbol, SymbolKind, SymbolView};
use crate::ast::syntax::{SyntaxNode, NodeView};
use crate::ast::visitor::{
    make_named_symbol, named_symbol, optional_symbol, own_symbol, symbol_views_push, walk_each,
    walk_each_next, LanguageRules, LanguageVisitor,
};
use vstd::prelude::*;
use vstd::string::StringSliceAdditionalSpecFns;

verus! {

/// The symbol that JavaScript's rules give for `node` itself: a function for a
/// function declaration or a function expression and a class for a class
/// declaration, each with the range of its `body` field, and a variable,
/// without a body range, for a variable declarator. Each is named by its
/// `name` field.
pub open spec fn js_symbol(node: NodeView, source: Seq<u8>) -> Option<SymbolView> {
    if node.kind == "function_declaration"@ || node.kind == "function"@ {
        named_symbol(node, SymbolKind::Function, Some("body"@), source)
    } else if node.kind == "class_declaration"@ {
        named_symbol(node, SymbolKind::Class, Some("body"@), source)
    } else if node.kind == "variable_declarator"@ {
        named_symbol(node, SymbolKind::Variable, None, source)
    } else {
        None
    }
}

/// Gathers the functions, classes and variables of a JavaScript syntax tree.
pub struct JsVisitor {
    symbols: Vec<Symbol>,
}

impl JsVisitor {
    /// A visitor that has gathered nothing yet.
    pub fn new() -> (visitor: Self)
        ensures
            visitor.collected() == Seq::<SymbolView>::empty(),
    {
        Self { symbols: Vec::new() }
    }

    /// The symbol for a function.
    fn extract_function(&self, node: &SyntaxNode, source: &str) -> (symbol: Option<Symbol>)
        requires
            node.start_row < usize::MAX,
            node.end_row < usize::MAX,
        ensures
            optional_symbol(symbol) == named_symbol(
                node@,
                SymbolKind::Function,
                Some("body"@),
                source.spec_bytes(),
            ),
    {
        make_named_symbol(node, SymbolKind::Function, Some("body"), source)
    }

    /// The symbol for a class.
    fn extract_class(&self, node: &SyntaxNode, source: &str) -> (symbol: Option<Symbol>)
        requires
            node.start_row < usize::MAX,
            node.end_row < usize::MAX,
        ensures
            optional_symbol(symbol) == named_symbol(
                node@,
                SymbolKind::Class,
                Some("body"@),
                source.spec_bytes(),
            ),
    {
        make_named_symbol(node, SymbolKind::Class, Some("body"), source)
    }

    /// The symbol for a variable.
    fn extract_variable(&self, node: &SyntaxNode, source: &str) -> (symbol: Option<Symbol>)
        requires
            node.start_row < usize::MAX,
            node.end_row < usize::MAX,
        ensures
            optional_symbol(symbol) == named_symbol(
                node@,
                SymbolKind::Variable,
                None,
                source.spec_bytes(),
            ),
    {
        make_named_symbol(node, SymbolKind::Variable, None, source)
    }
}

impl LanguageRules for JsVisitor {
    open spec fn symbol_for(node: NodeView, source: Seq<u8>) -> Option<SymbolView> {
        js_symbol(node, source)
    }

    proof fn symbol_covers_node(node: NodeView, source: Seq<u8>) {
    }
}

impl LanguageVisitor for JsVisitor {
    closed spec fn collected(&self) -> Seq<SymbolView> {
        symbol_views(self.symbols@)
    }

    fn visit(&mut self, node: &SyntaxNode, source_code: &str)
        decreases node,
    {
        let ghost before = self.collected();
        let ghost source = source_code.spec_bytes();
        let maybe_symbol = if node.is_kind("function_declaration") || node.is_kind("function") {
            self.extract_function(node, source_code)
        } else if node.is_kind("class_declaration") {
            self.extract_class(node, source_code)
        } else if node.is_kind("variable_declarator") {
            self.extract_variable(node, source_code)
        } else {
            None
        };
        if let Some(symbol) = maybe_symbol {
            proof {
                symbol_views_push(self.symbols@, symbol);
            }
            self.symbols.push(symbol);
        }
        proof {
            node.view_children();
            assert(node@.children.take(0) == Seq::<NodeView>::empty());
        }
        let mut i: usize = 0;
        while i < node.children.len()
            invariant
                i <= node.children.len(),
                node@.lines_fit(),
                node@.children.len() == node.children.len(),
                forall|k: int| 0 <= k < node.children.len() ==> node@.children[k] == node.children[k]@,
                source == source_code.spec_bytes(),
                self.collected() == before + own_symbol::<Self>(node@, source) + walk_each::<Self>(
                    node@.children.take(i as int),
                    source,
                ),
            decreases node.children.len() - i,
        {
            proof {
                walk_each_next::<Self>(node@.children, i as int, source);
            }
            self.visit(&node.children[i], source_code);
            i = i + 1;
        }
        proof {
            assert(node@.children.take(i as int) == node@.children);
        }
    }

    fn get_symbols(self) -> (symbols: Vec<Symbol>) {
        self.symbols
    }
}

} // verus!
