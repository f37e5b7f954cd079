use crate::ast::symbol::{symbol_views, Symbol, SymbolKind, SymbolView};
use crate::ast::visitor::symbol_views_push;
use vstd::prelude::*;

verus! {

/// A set of symbol kinds.
#[derive(Debug, Clone, Copy)]
pub struct KindSet {
    function: bool,
    class: bool,
    structure: bool,
    variable: bool,
    method: bool,
    enumeration: bool,
    trait_kind: bool,
    interface: bool,
    type_kind: bool,
}

impl View for KindSet {
    type V = Set<SymbolKind>;

    closed spec fn view(&self) -> Set<SymbolKind> {
        Set::new(|kind: SymbolKind| self.holds(kind))
    }
}

impl KindSet {
    spec fn holds(self, kind: SymbolKind) -> bool {
        match kind {
            SymbolKind::Function => self.function,
            SymbolKind::Class => self.class,
            SymbolKind::Struct => self.structure,
            SymbolKind::Variable => self.variable,
            SymbolKind::Method => self.method,
            SymbolKind::Enum => self.enumeration,
            SymbolKind::Trait => self.trait_kind,
            SymbolKind::Interface => self.interface,
            SymbolKind::Type => self.type_kind,
        }
    }

    /// The empty set.
    pub fn new() -> (set: Self)
        ensures
            set@ == Set::<SymbolKind>::empty(),
    {
        let set = KindSet {
            function: false,
            class: false,
            structure: false,
            variable: false,
            method: false,
            enumeration: false,
            trait_kind: false,
            interface: false,
            type_kind: false,
        };
        assert(set@ =~= Set::<SymbolKind>::empty());
        set
    }

    /// Adds `kind` to the set, and says whether it was new to it.
    pub fn insert(&mut self, kind: SymbolKind) -> (added: bool)
        ensures
            final(self)@ == old(self)@.insert(kind),
            added == !old(self)@.contains(kind),
    {
        let held = self.contains(&kind);
        match kind {
            SymbolKind::Function => {
                self.function = true;
            },
            SymbolKind::Class => {
                self.class = true;
            },
            SymbolKind::Struct => {
                self.structure = true;
            },
            SymbolKind::Variable => {
                self.variable = true;
            },
            SymbolKind::Method => {
                self.method = true;
            },
            SymbolKind::Enum => {
                self.enumeration = true;
            },
            SymbolKind::Trait => {
                self.trait_kind = true;
            },
            SymbolKind::Interface => {
                self.interface = true;
            },
            SymbolKind::Type => {
                self.type_kind = true;
            },
        }
        assert(self@ =~= old(self)@.insert(kind));
        !held
    }

    /// Whether `kind` is in the set.
    pub fn contains(&self, kind: &SymbolKind) -> (held: bool)
        ensures
            held == self@.contains(*kind),
    {
        match kind {
            SymbolKind::Function => self.function,
            SymbolKind::Class => self.class,
            SymbolKind::Struct => self.structure,
            SymbolKind::Variable => self.variable,
            SymbolKind::Method => self.method,
            SymbolKind::Enum => self.enumeration,
            SymbolKind::Trait => self.trait_kind,
            SymbolKind::Interface => self.interface,
            SymbolKind::Type => self.type_kind,
        }
    }
}

/// The symbols whose kind is one of `kinds`, in their order in `symbols`.
pub open spec fn of_kinds(symbols: Seq<SymbolView>, kinds: Set<SymbolKind>) -> Seq<SymbolView> {
    symbols.filter(|s: SymbolView| kinds.contains(s.kind))
}

/// What a filter leaves of `symbols`: all of them where there is none, else
/// those whose kind is in it.
pub open spec fn filtered(symbols: Seq<SymbolView>, filter: Option<Set<SymbolKind>>) -> Seq<
    SymbolView,
> {
    match filter {
        Some(kinds) => of_kinds(symbols, kinds),
        None => symbols,
    }
}

/// The kinds of an optional kind set.
pub open spec fn optional_kinds(filter: Option<KindSet>) -> Option<Set<SymbolKind>> {
    match filter {
        Some(kinds) => Some(kinds@),
        None => None,
    }
}

/// Keeps the symbols whose kind is in `kinds`, in their order.
pub fn retain_kinds(symbols: Vec<Symbol>, kinds: &KindSet) -> (kept: Vec<Symbol>)
    ensures
        symbol_views(kept@) == of_kinds(symbol_views(symbols@), kinds@),
{
    let ghost wanted = |s: SymbolView| kinds@.contains(s.kind);
    let mut kept: Vec<Symbol> = Vec::new();
    let mut i: usize = 0;
    proof {
        assert(symbols@.take(0) == Seq::<Symbol>::empty());
        assert(symbol_views(Seq::<Symbol>::empty()) == Seq::<SymbolView>::empty());
        reveal(Seq::filter);
    }
    while i < symbols.len()
        invariant
            i <= symbols.len(),
            wanted == (|s: SymbolView| kinds@.contains(s.kind)),
            symbol_views(kept@) == symbol_views(symbols@.take(i as int)).filter(wanted),
        decreases symbols.len() - i,
    {
        proof {
            let seen = symbols@.take(i as int);
            assert(symbols@.take(i + 1) == seen.push(symbols[i as int]));
            symbol_views_push(seen, symbols[i as int]);
            symbol_views(seen).lemma_filter_push(symbols[i as int]@, wanted);
        }
        if kinds.contains(&symbols[i].kind) {
            let symbol = symbols[i].clone();
            proof {
                symbol_views_push(kept@, symbol);
            }
            kept.push(symbol);
        }
        i = i + 1;
    }
    proof {
        assert(symbols@.take(i as int) == symbols@);
    }
    kept
}

/// Whether `at` gives, for each of `kept`, a place in `symbols` that holds the
/// same symbol, with the places in rising order.
pub open spec fn stands_at(kept: Seq<SymbolView>, symbols: Seq<SymbolView>, at: Seq<int>) -> bool {
    &&& at.len() == kept.len()
    &&& forall|i: int|
        0 <= i < at.len() ==> 0 <= #[trigger] at[i] < symbols.len() && symbols[at[i]] == kept[i]
    &&& forall|i: int, j: int| 0 <= i < j < at.len() ==> at[i] < at[j]
}

/// Whether `kept` is `symbols` with some symbols left out: the others are
/// unchanged and in their order.
pub open spec fn is_selection(kept: Seq<SymbolView>, symbols: Seq<SymbolView>) -> bool {
    exists|at: Seq<int>| stands_at(kept, symbols, at)
}

/// A filter changes no symbol that it leaves, and leaves them in their order.
pub proof fn filter_keeps_order(symbols: Seq<SymbolView>, filter: Option<Set<SymbolKind>>)
    ensures
        is_selection(filtered(symbols, filter), symbols),
{
    match filter {
        Some(kinds) => {
            of_kinds_keeps_order(symbols, kinds);
        },
        None => {
            let at = Seq::new(symbols.len(), |i: int| i);
            assert(stands_at(symbols, symbols, at));
        },
    }
}

/// The symbols of some kinds are a selection of all the symbols.
pub proof fn of_kinds_keeps_order(symbols: Seq<SymbolView>, kinds: Set<SymbolKind>)
    ensures
        is_selection(of_kinds(symbols, kinds), symbols),
    decreases symbols.len(),
{
    let wanted = |s: SymbolView| kinds.contains(s.kind);
    reveal(Seq::filter);
    if symbols.len() == 0 {
        assert(stands_at(of_kinds(symbols, kinds), symbols, Seq::<int>::empty()));
    } else {
        let shorter = symbols.drop_last();
        of_kinds_keeps_order(shorter, kinds);
        let before = choose|at: Seq<int>| stands_at(of_kinds(shorter, kinds), shorter, at);
        if wanted(symbols.last()) {
            let at = before.push(symbols.len() - 1);
            assert(of_kinds(symbols, kinds) == of_kinds(shorter, kinds).push(symbols.last()));
            assert forall|i: int| 0 <= i < at.len() implies 0 <= #[trigger] at[i] < symbols.len()
                && symbols[at[i]] == of_kinds(symbols, kinds)[i] by {
                if i < before.len() {
                    assert(at[i] == before[i]);
                    assert(shorter[before[i]] == symbols[before[i]]);
                }
            }
            assert forall|i: int, j: int| 0 <= i < j < at.len() implies at[i] < at[j] by {
                assert(at[i] == before[i]);
                if j < before.len() {
                    assert(at[j] == before[j]);
                }
            }
            assert(stands_at(of_kinds(symbols, kinds), symbols, at));
        } else {
            assert(of_kinds(symbols, kinds) == of_kinds(shorter, kinds));
            assert forall|i: int| 0 <= i < before.len() implies 0 <= #[trigger] before[i]
                < symbols.len() && symbols[before[i]] == of_kinds(symbols, kinds)[i] by {
                assert(shorter[before[i]] == symbols[before[i]]);
            }
            assert(stands_at(of_kinds(symbols, kinds), symbols, before));
        }
    }
}

} // verus!
