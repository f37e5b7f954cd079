use crate::text::str_eq;
use std::ops::Range;
use vstd::prelude::*;

verus! {

/// The closed set of kinds a symbol can have.
#[derive(Debug, Clone, Copy, PartialEq, Eq, Hash, Structural)]
pub enum SymbolKind {
    Function,
    Class,
    Struct,
    Variable,
    Method,
    Enum,
    Trait,
    Interface,
    Type,
}

impl SymbolKind {
    /// The textual form of a kind: its name in lower case.
    pub open spec fn text(self) -> Seq<char> {
        match self {
            SymbolKind::Function => "function"@,
            SymbolKind::Class => "class"@,
            SymbolKind::Struct => "struct"@,
            SymbolKind::Variable => "variable"@,
            SymbolKind::Method => "method"@,
            SymbolKind::Enum => "enum"@,
            SymbolKind::Trait => "trait"@,
            SymbolKind::Interface => "interface"@,
            SymbolKind::Type => "type"@,
        }
    }

    /// The kind that a text names, if it names one.
    pub open spec fn named(text: Seq<char>) -> Option<SymbolKind> {
        if text == "function"@ {
            Some(SymbolKind::Function)
        } else if text == "class"@ {
            Some(SymbolKind::Class)
        } else if text == "struct"@ {
            Some(SymbolKind::Struct)
        } else if text == "variable"@ {
            Some(SymbolKind::Variable)
        } else if text == "method"@ {
            Some(SymbolKind::Method)
        } else if text == "enum"@ {
            Some(SymbolKind::Enum)
        } else if text == "trait"@ {
            Some(SymbolKind::Trait)
        } else if text == "interface"@ {
            Some(SymbolKind::Interface)
        } else if text == "type"@ {
            Some(SymbolKind::Type)
        } else {
            None
        }
    }

    /// The textual form of the kind.
    pub fn as_str(self) -> (name: &'static str)
        ensures
            name@ == self.text(),
    {
        match self {
            SymbolKind::Function => "function",
            SymbolKind::Class => "class",
            SymbolKind::Struct => "struct",
            SymbolKind::Variable => "variable",
            SymbolKind::Method => "method",
            SymbolKind::Enum => "enum",
            SymbolKind::Trait => "trait",
            SymbolKind::Interface => "interface",
            SymbolKind::Type => "type",
        }
    }

    /// The kind's name in capitals and square brackets, as listings show it.
    pub open spec fn label_text(self) -> Seq<char> {
        match self {
            SymbolKind::Function => "[FUNCTION]"@,
            SymbolKind::Class => "[CLASS]"@,
            SymbolKind::Struct => "[STRUCT]"@,
            SymbolKind::Variable => "[VARIABLE]"@,
            SymbolKind::Method => "[METHOD]"@,
            SymbolKind::Enum => "[ENUM]"@,
            SymbolKind::Trait => "[TRAIT]"@,
            SymbolKind::Interface => "[INTERFACE]"@,
            SymbolKind::Type => "[TYPE]"@,
        }
    }

    /// The kind's name in capitals and square brackets.
    pub fn label(self) -> (label: &'static str)
        ensures
            label@ == self.label_text(),
    {
        match self {
            SymbolKind::Function => "[FUNCTION]",
            SymbolKind::Class => "[CLASS]",
            SymbolKind::Struct => "[STRUCT]",
            SymbolKind::Variable => "[VARIABLE]",
            SymbolKind::Method => "[METHOD]",
            SymbolKind::Enum => "[ENUM]",
            SymbolKind::Trait => "[TRAIT]",
            SymbolKind::Interface => "[INTERFACE]",
            SymbolKind::Type => "[TYPE]",
        }
    }

    /// The kind that `name` names, if it names one.
    pub fn from_name(name: &str) -> (kind: Option<SymbolKind>)
        ensures
            kind == Self::named(name@),
    {
        if str_eq(name, "function") {
            Some(SymbolKind::Function)
        } else if str_eq(name, "class") {
            Some(SymbolKind::Class)
        } else if str_eq(name, "struct") {
            Some(SymbolKind::Struct)
        } else if str_eq(name, "variable") {
            Some(SymbolKind::Variable)
        } else if str_eq(name, "method") {
            Some(SymbolKind::Method)
        } else if str_eq(name, "enum") {
            Some(SymbolKind::Enum)
        } else if str_eq(name, "trait") {
            Some(SymbolKind::Trait)
        } else if str_eq(name, "interface") {
            Some(SymbolKind::Interface)
        } else if str_eq(name, "type") {
            Some(SymbolKind::Type)
        } else {
            None
        }
    }

    /// Every kind is named by its own textual form, and by no other kind's.
    pub proof fn text_round_trip(self)
        ensures
            Self::named(self.text()) == Some(self),
    {
        reveal_strlit("function");
        reveal_strlit("class");
        reveal_strlit("struct");
        reveal_strlit("variable");
        reveal_strlit("method");
        reveal_strlit("enum");
        reveal_strlit("trait");
        reveal_strlit("interface");
        reveal_strlit("type");
        assert("function"@.len() == 8 && "function"@[0] == 'f');
        assert("class"@.len() == 5 && "class"@[0] == 'c');
        assert("struct"@.len() == 6 && "struct"@[0] == 's');
        assert("variable"@.len() == 8 && "variable"@[0] == 'v');
        assert("method"@.len() == 6 && "method"@[0] == 'm');
        assert("enum"@.len() == 4 && "enum"@[0] == 'e');
        assert("trait"@.len() == 5 && "trait"@[0] == 't');
        assert("interface"@.len() == 9);
        assert("type"@.len() == 4 && "type"@[0] == 't');
    }

    /// A text that names a kind is that kind's textual form.
    pub proof fn named_is_text(text: Seq<char>)
        ensures
            Self::named(text) matches Some(kind) ==> kind.text() == text,
    {
    }
}

/// A pair of byte offsets: where a construct starts and where it ends.
pub struct Span {
    pub start: nat,
    pub end: nat,
}

/// What a `Symbol` stands for.
pub struct SymbolView {
    pub kind: SymbolKind,
    pub name: Seq<char>,
    pub start_line: nat,
    pub end_line: nat,
    pub full_range: Span,
    pub name_range: Option<Span>,
    pub body_range: Option<Span>,
}

/// One named construct of a source file, with its place in the file.
#[derive(Debug)]
pub struct Symbol {
    pub kind: SymbolKind,
    pub name: String,
    pub start_line: usize,
    pub end_line: usize,
    pub full_range: Range<usize>,
    pub name_range: Option<Range<usize>>,
    pub body_range: Option<Range<usize>>,
}

/// The offsets of a range.
pub open spec fn span_of(range: Range<usize>) -> Span {
    Span { start: range.start as nat, end: range.end as nat }
}

/// The offsets of an optional range.
pub open spec fn optional_span(range: Option<Range<usize>>) -> Option<Span> {
    match range {
        Some(r) => Some(span_of(r)),
        None => None,
    }
}

impl View for Symbol {
    type V = SymbolView;

    open spec fn view(&self) -> SymbolView {
        SymbolView {
            kind: self.kind,
            name: self.name@,
            start_line: self.start_line as nat,
            end_line: self.end_line as nat,
            full_range: span_of(self.full_range),
            name_range: optional_span(self.name_range),
            body_range: optional_span(self.body_range),
        }
    }
}

/// A copy of a range.
fn clone_range(range: &Range<usize>) -> (copy: Range<usize>)
    ensures
        copy == *range,
{
    range.start..range.end
}

/// A copy of an optional range.
fn clone_optional_range(range: &Option<Range<usize>>) -> (copy: Option<Range<usize>>)
    ensures
        copy == *range,
{
    match range {
        Some(r) => Some(clone_range(r)),
        None => None,
    }
}

impl Clone for Symbol {
    fn clone(&self) -> (copy: Self)
        ensures
            copy@ == self@,
    {
        Symbol {
            kind: self.kind,
            name: self.name.clone(),
            start_line: self.start_line,
            end_line: self.end_line,
            full_range: clone_range(&self.full_range),
            name_range: clone_optional_range(&self.name_range),
            body_range: clone_optional_range(&self.body_range),
        }
    }
}

/// The views of a list of symbols, in the list's order.
pub open spec fn symbol_views(symbols: Seq<Symbol>) -> Seq<SymbolView> {
    symbols.map_values(|s: Symbol| s@)
}

} // verus!
