use crate::ast::symbol::{symbol_views, Symbol, SymbolKind, SymbolView};
use crate::ast::syntax::{SyntaxNode, NodeView};
use crate::ast::visitor::{
    covered, field_range, make_named_symbol, make_symbol, named_symbol, optional_symbol,
    own_symbol, symbol_at, symbol_views_push, walk_each, walk_each_next, LanguageRules,
    LanguageVisitor,
};
use vstd::prelude::*;
use vstd::string::StringSliceAdditionalSpecFns;

verus! {

/// The node that names a function: the declarator inside the function's
/// declarator where there is one, else the function's declarator itself.
pub open spec fn function_name_node(declarator: NodeView) -> NodeView {
    match declarator.child_by_field_name("declarator"@) {
        Some(inner) => inner,
        None => declarator,
    }
}

/// The symbol for a function definition: it is named by the text of
/// `function_name_node`, whose bytes are also its name range, and has the range
/// of the `body` field. There is none without a `declarator` field.
pub open spec fn cpp_function(node: NodeView, source: Seq<u8>) -> Option<SymbolView> {
    match node.child_by_field_name("declarator"@) {
        Some(declarator) => {
            let named_by = function_name_node(declarator);
            symbol_at(
                node,
                SymbolKind::Function,
                named_by,
                named_by.span(),
                covered(node.child_by_field_name("body"@)),
                source,
            )
        },
        None => None,
    }
}

/// The node whose text names the variable of a declaration. With `declarator`
/// the child that the declaration holds under the field of that name, the first
/// of these that applies decides:
/// - `declarator` has a `declarator` field of its own: that child;
/// - `declarator` is an identifier: `declarator`;
/// - `declarator` has a child that is an identifier: the first such child;
/// - otherwise `declarator` as a whole.
pub open spec fn variable_name_node(declarator: NodeView) -> NodeView {
    match declarator.child_by_field_name("declarator"@) {
        Some(inner) => inner,
        None => if declarator.kind == "identifier"@ {
            declarator
        } else {
            match declarator.first_child_of_kind("identifier"@) {
                Some(identifier) => identifier,
                None => declarator,
            }
        },
    }
}

/// The symbol for a declaration: a variable without a body range, named by the
/// text of `variable_name_node`, whose bytes are its name range. There is none
/// without a `declarator` field.
pub open spec fn cpp_variable(node: NodeView, source: Seq<u8>) -> Option<SymbolView> {
    match node.child_by_field_name("declarator"@) {
        Some(declarator) => symbol_at(
            node,
            SymbolKind::Variable,
            variable_name_node(declarator),
            variable_name_node(declarator).span(),
            None,
            source,
        ),
        None => None,
    }
}

/// The symbol that the rules for C and C++ give for `node` itself.
pub open spec fn cpp_symbol(node: NodeView, source: Seq<u8>) -> Option<SymbolView> {
    if node.kind == "function_definition"@ {
        cpp_function(node, source)
    } else if node.kind == "class_specifier"@ {
        named_symbol(node, SymbolKind::Class, Some("body"@), source)
    } else if node.kind == "struct_specifier"@ {
        named_symbol(node, SymbolKind::Struct, Some("body"@), source)
    } else if node.kind == "declaration"@ {
        cpp_variable(node, source)
    } else {
        None
    }
}

/// Gathers the functions, classes, structs and variables of a C or C++ syntax tree.
pub struct CppVisitor {
    symbols: Vec<Symbol>,
}

impl CppVisitor {
    /// A visitor that has gathered nothing yet.
    pub fn new() -> (visitor: Self)
        ensures
            visitor.collected() == Seq::<SymbolView>::empty(),
    {
        Self { symbols: Vec::new() }
    }

    /// The symbol for a function.
    fn extract_function(&self, node: &SyntaxNode, source: &str) -> (symbol: Option<Symbol>)
        requires
            node.start_row < usize::MAX,
            node.end_row < usize::MAX,
        ensures
            optional_symbol(symbol) == cpp_function(node@, source.spec_bytes()),
    {
        let declarator = match node.child_by_field_name("declarator") {
            Some(declarator) => declarator,
            None => {
                return None;
            },
        };
        let func_declarator = match declarator.child_by_field_name("declarator") {
            Some(inner) => inner,
            None => declarator,
        };
        make_symbol(
            node,
            SymbolKind::Function,
            func_declarator,
            func_declarator.byte_range(),
            field_range(node, "body"),
            source,
        )
    }

    /// The symbol for a class.
    fn extract_class(&self, node: &SyntaxNode, source: &str) -> (symbol: Option<Symbol>)
        requires
            node.start_row < usize::MAX,
            node.end_row < usize::MAX,
        ensures
            optional_symbol(symbol) == named_symbol(
                node@,
                SymbolKind::Class,
                Some("body"@),
                source.spec_bytes(),
            ),
    {
        make_named_symbol(node, SymbolKind::Class, Some("body"), source)
    }

    /// The symbol for a struct.
    fn extract_struct(&self, node: &SyntaxNode, source: &str) -> (symbol: Option<Symbol>)
        requires
            node.start_row < usize::MAX,
            node.end_row < usize::MAX,
        ensures
            optional_symbol(symbol) == named_symbol(
                node@,
                SymbolKind::Struct,
                Some("body"@),
                source.spec_bytes(),
            ),
    {
        make_named_symbol(node, SymbolKind::Struct, Some("body"), source)
    }

    /// The symbol for a variable.
    fn extract_variable(&self, node: &SyntaxNode, source: &str) -> (symbol: Option<Symbol>)
        requires
            node.start_row < usize::MAX,
            node.end_row < usize::MAX,
        ensures
            optional_symbol(symbol) == cpp_variable(node@, source.spec_bytes()),
    {
        let declarator = match node.child_by_field_name("declarator") {
            Some(declarator) => declarator,
            None => {
                return None;
            },
        };
        let named_by = if let Some(identifier) = declarator.child_by_field_name("declarator") {
            identifier
        } else if declarator.is_kind("identifier") {
            declarator
        } else if let Some(current) = declarator.first_child_of_kind("identifier") {
            current
        } else {
            declarator
        };
        make_symbol(node, SymbolKind::Variable, named_by, named_by.byte_range(), None, source)
    }
}

/// The variable that a declaration gives where the text `name` names it
/// through the node `named_by`: it has the lines and bytes of the declaration,
/// the bytes of `named_by` as its name range, and no body range.
pub open spec fn variable_of(node: NodeView, named_by: NodeView, name: Seq<char>) -> SymbolView {
    SymbolView {
        kind: SymbolKind::Variable,
        name,
        start_line: node.start_row + 1,
        end_line: node.end_row + 1,
        full_range: node.span(),
        name_range: Some(named_by.span()),
        body_range: None,
    }
}

/// A declaration gives a symbol exactly when it has a declarator and the bytes
/// of the node that names the variable spell a text, whatever the shape of the
/// declarator. The symbol is then the one symbol of the declaration: a variable
/// with the lines and bytes of the declaration, named by that text, with the
/// bytes of the naming node as its name range and without a body range.
pub proof fn declaration_gives_variable(node: NodeView, source: Seq<u8>)
    requires
        node.kind == "declaration"@,
    ensures
        cpp_symbol(node, source) == match node.child_by_field_name("declarator"@) {
            Some(declarator) => match variable_name_node(declarator).text(source) {
                Some(name) => Some(variable_of(node, variable_name_node(declarator), name)),
                None => None,
            },
            None => None,
        },
        own_symbol::<CppVisitor>(node, source).len() == if cpp_symbol(node, source) is Some {
            1nat
        } else {
            0nat
        },
{
    reveal_strlit("declaration");
    reveal_strlit("function_definition");
    reveal_strlit("class_specifier");
    reveal_strlit("struct_specifier");
    assert("declaration"@.len() == 11);
    assert("function_definition"@.len() == 19);
    assert("class_specifier"@.len() == 15);
    assert("struct_specifier"@.len() == 16);
}

/// A declarator with a `declarator` field of its own names the variable by
/// the child under that field.
pub proof fn wrapped_declarator_names_inner(declarator: NodeView, inner: NodeView)
    requires
        declarator.child_by_field_name("declarator"@) == Some(inner),
    ensures
        variable_name_node(declarator) == inner,
{
}

/// A declarator without a `declarator` field that is no identifier names the
/// variable by its first child that is an identifier.
pub proof fn identifier_child_names_variable(declarator: NodeView, identifier: NodeView)
    requires
        declarator.child_by_field_name("declarator"@) is None,
        declarator.kind != "identifier"@,
        declarator.first_child_of_kind("identifier"@) == Some(identifier),
    ensures
        variable_name_node(declarator) == identifier,
{
}

/// A declarator of a shape that the rules do not know, one that has no
/// `declarator` field, is no identifier and has no identifier among its
/// children, names the variable by its whole text.
pub proof fn unknown_declarator_names_itself(declarator: NodeView)
    requires
        declarator.child_by_field_name("declarator"@) is None,
        declarator.kind != "identifier"@,
        declarator.first_child_of_kind("identifier"@) is None,
    ensures
        variable_name_node(declarator) == declarator,
{
}

impl LanguageRules for CppVisitor {
    open spec fn symbol_for(node: NodeView, source: Seq<u8>) -> Option<SymbolView> {
        cpp_symbol(node, source)
    }

    proof fn symbol_covers_node(node: NodeView, source: Seq<u8>) {
    }
}

impl LanguageVisitor for CppVisitor {
    closed spec fn collected(&self) -> Seq<SymbolView> {
        symbol_views(self.symbols@)
    }

    fn visit(&mut self, node: &SyntaxNode, source_code: &str)
        decreases node,
    {
        let ghost before = self.collected();
        let ghost source = source_code.spec_bytes();
        let maybe_symbol = if node.is_kind("function_definition") {
            self.extract_function(node, source_code)
        } else if node.is_kind("class_specifier") {
            self.extract_class(node, source_code)
        } else if node.is_kind("struct_specifier") {
            self.extract_struct(node, source_code)
        } else if node.is_kind("declaration") {
            self.extract_variable(node, source_code)
        } else {
            None
        };
        if let Some(symbol) = maybe_symbol {
            proof {
                symbol_views_push(self.symbols@, symbol);
            }
            self.symbols.push(symbol);
        }
        proof {
            node.view_children();
            assert(node@.children.take(0) == Seq::<NodeView>::empty());
        }
        let mut i: usize = 0;
        while i < node.children.len()
            invariant
                i <= node.children.len(),
                node@.lines_fit(),
                node@.children.len() == node.children.len(),
                forall|k: int| 0 <= k < node.children.len() ==> node@.children[k] == node.children[k]@,
                source == source_code.spec_bytes(),
                self.collected() == before + own_symbol::<Self>(node@, source) + walk_each::<Self>(
                    node@.children.take(i as int),
                    source,
                ),
            decreases node.children.len() - i,
        {
            proof {
                walk_each_next::<Self>(node@.children, i as int, source);
            }
            self.visit(&node.children[i], source_code);
            i = i + 1;
        }
        proof {
            assert(node@.children.take(i as int) == node@.children);
        }
    }

    fn get_symbols(self) -> (symbols: Vec<Symbol>) {
        self.symbols
    }
}

} // verus!
