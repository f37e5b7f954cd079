use crate::server::ast_ops::{entry_views, file_views, EntryView, FileSymbols, FileView, Symbol};
use vstd::prelude::*;
use vstd::string::StringExecFns;

verus! {

/// `regex::Regex`, of which only `pattern_matches` is known here.
#[verifier::external_type_specification]
#[verifier::external_body]
pub struct ExRegex(regex::Regex);

/// `regex::Error`, of which nothing is known here.
#[verifier::external_type_specification]
#[verifier::external_body]
pub struct ExRegexError(regex::Error);

/// What a compiled pattern holds: the text that it was compiled from, as
/// `regex::Regex::as_str` gives it.
pub uninterp spec fn pattern_source(compiled: regex::Regex) -> Seq<char>;

/// Whether the pattern that `regex::Regex::new` compiles from `pattern` finds a
/// match somewhere in `text`, as `regex::Regex::is_match` says.
pub uninterp spec fn pattern_matches(pattern: Seq<char>, text: Seq<char>) -> bool;

/// Whether `regex::Regex::new` takes `text` as a pattern.
pub uninterp spec fn is_pattern(text: Seq<char>) -> bool;

/// Calls `regex::Regex::new`. Whether it takes a text as a pattern depends on
/// the text alone; a pattern that comes back holds the text that it was
/// compiled from.
#[verifier::external_body]
fn compile(pattern: &str) -> (compiled: Result<regex::Regex, regex::Error>)
    ensures
        compiled is Ok <==> is_pattern(pattern@),
        compiled matches Ok(made) ==> pattern_source(made) == pattern@,
{
    regex::Regex::new(pattern)
}

/// Gives the text that a `regex::Error` displays.
#[verifier::external_body]
fn pattern_error_text(error: &regex::Error) -> String {
    error.to_string()
}

/// Calls `regex::Regex::is_match`, which says whether the pattern finds a match
/// somewhere in the text. The answer is named by the text that the pattern was
/// compiled from: every pattern here comes from `compile`.
#[verifier::external_body]
fn is_match(compiled: &regex::Regex, text: &str) -> (found: bool)
    ensures
        found == pattern_matches(pattern_source(*compiled), text@),
{
    compiled.is_match(text)
}

/// The message for a text that is no pattern, for the reason given.
pub open spec fn invalid_pattern(reason: Seq<char>) -> Seq<char> {
    "Invalid regex pattern: "@ + reason
}

/// The message for a text that is no pattern.
pub fn invalid_pattern_message(reason: &str) -> (message: String)
    ensures
        message@ == invalid_pattern(reason@),
{
    "Invalid regex pattern: ".to_owned().concat(reason)
}

/// The symbols whose name the pattern matches, in their order.
pub open spec fn matching_symbols(symbols: Seq<EntryView>, pattern: Seq<char>) -> Seq<
    EntryView,
> {
    symbols.filter(|s: EntryView| pattern_matches(pattern, s.name))
}

/// A file with those of its symbols whose name the pattern matches.
pub open spec fn matching_in_file(file: FileView, pattern: Seq<char>) -> FileView {
    FileView { filename: file.filename, symbols: matching_symbols(file.symbols, pattern) }
}

/// The files with those of their symbols whose name the pattern matches, less
/// the files that are left without a symbol.
pub open spec fn matching_files(files: Seq<FileView>, pattern: Seq<char>) -> Seq<FileView> {
    files.map_values(|f: FileView| matching_in_file(f, pattern)).filter(
        |f: FileView| f.symbols.len() > 0,
    )
}

/// The symbols whose flag is set, in their order. The flag of a symbol stands
/// at the symbol's place in `flags`; a symbol without a flag is left out.
pub open spec fn flagged(symbols: Seq<EntryView>, flags: Seq<bool>) -> Seq<EntryView>
    decreases symbols.len(),
{
    if symbols.len() == 0 {
        Seq::empty()
    } else {
        let earlier = flagged(symbols.drop_last(), flags);
        if symbols.len() <= flags.len() && flags[symbols.len() - 1] {
            earlier.push(symbols.last())
        } else {
            earlier
        }
    }
}

/// Where each symbol's flag says whether the symbol is wanted, the flagged
/// symbols are the wanted ones.
pub proof fn flagged_is_filter(
    symbols: Seq<EntryView>,
    flags: Seq<bool>,
    wanted: spec_fn(EntryView) -> bool,
)
    requires
        flags.len() == symbols.len(),
        forall|i: int| 0 <= i < symbols.len() ==> flags[i] == wanted(#[trigger] symbols[i]),
    ensures
        flagged(symbols, flags) == symbols.filter(wanted),
    decreases symbols.len(),
{
    reveal(Seq::filter);
    if symbols.len() > 0 {
        let shorter = symbols.drop_last();
        let fewer = flags.drop_last();
        assert forall|i: int| 0 <= i < shorter.len() implies fewer[i] == wanted(
            #[trigger] shorter[i],
        ) by {
            assert(shorter[i] == symbols[i]);
        }
        flagged_is_filter(shorter, fewer, wanted);
        flagged_ignores_later_flags(shorter, flags, fewer);
    }
}

/// Flags beyond the last symbol do not matter.
pub proof fn flagged_ignores_later_flags(symbols: Seq<EntryView>, flags: Seq<bool>, other: Seq<bool>)
    requires
        symbols.len() <= flags.len(),
        symbols.len() <= other.len(),
        forall|i: int| 0 <= i < symbols.len() ==> flags[i] == other[i],
    ensures
        flagged(symbols, flags) == flagged(symbols, other),
    decreases symbols.len(),
{
    if symbols.len() > 0 {
        flagged_ignores_later_flags(symbols.drop_last(), flags, other);
    }
}

/// The symbols whose flag is set, in their order.
pub fn keep_flagged(symbols: &Vec<Symbol>, flags: &Vec<bool>) -> (kept: Vec<Symbol>)
    ensures
        entry_views(kept@) == flagged(entry_views(symbols@), flags@),
{
    let ghost views = entry_views(symbols@);
    let mut kept: Vec<Symbol> = Vec::new();
    let mut i: usize = 0;
    proof {
        assert(views.take(0) == Seq::<EntryView>::empty());
        assert(entry_views(kept@) == Seq::<EntryView>::empty());
    }
    while i < symbols.len()
        invariant
            i <= symbols.len(),
            views == entry_views(symbols@),
            entry_views(kept@) == flagged(views.take(i as int), flags@),
        decreases symbols.len() - i,
    {
        proof {
            assert(views.take(i + 1).drop_last() == views.take(i as int));
            assert(views.take(i + 1).last() == symbols[i as int]@);
        }
        if i < flags.len() && flags[i] {
            let symbol = Symbol {
                name: symbols[i].name.clone(),
                kind: symbols[i].kind,
                start_line: symbols[i].start_line,
                end_line: symbols[i].end_line,
            };
            proof {
                assert(symbol@ == symbols[i as int]@);
                assert(entry_views(kept@.push(symbol)) == entry_views(kept@).push(symbol@));
            }
            kept.push(symbol);
        }
        i = i + 1;
    }
    proof {
        assert(views.take(i as int) == views);
    }
    kept
}

/// The symbols whose name the pattern matches, in their order.
fn retain_matching_symbols(symbols: &Vec<Symbol>, compiled: &regex::Regex) -> (kept: Vec<Symbol>)
    ensures
        entry_views(kept@) == matching_symbols(entry_views(symbols@), pattern_source(*compiled)),
{
    let ghost pattern = pattern_source(*compiled);
    let ghost wanted = |s: EntryView| pattern_matches(pattern, s.name);
    let mut flags: Vec<bool> = Vec::new();
    let mut i: usize = 0;
    while i < symbols.len()
        invariant
            i <= symbols.len(),
            pattern == pattern_source(*compiled),
            flags.len() == i,
            forall|k: int|
                0 <= k < i ==> flags[k] == pattern_matches(pattern, (#[trigger] symbols[k])@.name),
        decreases symbols.len() - i,
    {
        flags.push(is_match(compiled, symbols[i].name.as_str()));
        i = i + 1;
    }
    proof {
        assert forall|k: int| 0 <= k < symbols.len() implies flags[k] == wanted(
            #[trigger] entry_views(symbols@)[k],
        ) by {
            assert(entry_views(symbols@)[k] == symbols[k]@);
        }
        flagged_is_filter(entry_views(symbols@), flags@, wanted);
    }
    keep_flagged(symbols, &flags)
}

/// Keeps, in each file, the symbols whose name the compiled pattern matches,
/// and leaves out the files that are left without a symbol.
fn retain_matching_files(files: &Vec<FileSymbols>, compiled: &regex::Regex) -> (kept: Vec<
    FileSymbols,
>)
    ensures
        file_views(kept@) == matching_files(file_views(files@), pattern_source(*compiled)),
{
    let ghost pattern = pattern_source(*compiled);
    let ghost narrow = |f: FileView| matching_in_file(f, pattern);
    let ghost filled = |f: FileView| f.symbols.len() > 0;
    let mut kept: Vec<FileSymbols> = Vec::new();
    let mut i: usize = 0;
    proof {
        assert(files@.take(0) == Seq::<FileSymbols>::empty());
        assert(file_views(files@.take(0)) == Seq::<FileView>::empty());
        reveal(Seq::filter);
        assert(file_views(kept@) == Seq::<FileView>::empty().map_values(narrow).filter(filled));
    }
    while i < files.len()
        invariant
            i <= files.len(),
            pattern == pattern_source(*compiled),
            narrow == (|f: FileView| matching_in_file(f, pattern)),
            filled == (|f: FileView| f.symbols.len() > 0),
            file_views(kept@) == file_views(files@.take(i as int)).map_values(narrow).filter(
                filled,
            ),
        decreases files.len() - i,
    {
        let symbols = retain_matching_symbols(&files[i].symbols, compiled);
        proof {
            let seen = files@.take(i as int);
            assert(files@.take(i + 1) == seen.push(files[i as int]));
            assert(file_views(seen.push(files[i as int])) == file_views(seen).push(
                files[i as int]@,
            ));
            assert(file_views(seen).push(files[i as int]@).map_values(narrow) == file_views(
                seen,
            ).map_values(narrow).push(narrow(files[i as int]@)));
            file_views(seen).map_values(narrow).lemma_filter_push(
                narrow(files[i as int]@),
                filled,
            );
        }
        if symbols.len() > 0 {
            let file = FileSymbols { filename: files[i].filename.clone(), symbols };
            proof {
                assert(file@ == narrow(files[i as int]@));
                assert(file_views(kept@.push(file)) == file_views(kept@).push(file@));
            }
            kept.push(file);
        }
        i = i + 1;
    }
    proof {
        assert(files@.take(i as int) == files@);
    }
    kept
}

/// Keeps, in each file, the symbols whose name `pattern` matches somewhere,
/// and leaves out the files that are left without a symbol. Where `pattern` is
/// no pattern, the error is `invalid_pattern` of the reason.
pub fn retain_matching(files: &Vec<FileSymbols>, pattern: &str) -> (kept: Result<
    Vec<FileSymbols>,
    String,
>)
    ensures
        match kept {
            Ok(left) => is_pattern(pattern@) && file_views(left@) == matching_files(
                file_views(files@),
                pattern@,
            ),
            Err(message) => !is_pattern(pattern@) && is_invalid_pattern_message(message@),
        },
{
    match compile(pattern) {
        Ok(compiled) => Ok(retain_matching_files(files, &compiled)),
        Err(error) => {
            let reason = pattern_error_text(&error);
            let message = invalid_pattern_message(reason.as_str());
            proof {
                assert(message@ == invalid_pattern(reason@));
            }
            Err(message)
        },
    }
}

/// Whether `message` is `invalid_pattern` of some reason.
pub open spec fn is_invalid_pattern_message(message: Seq<char>) -> bool {
    exists|reason: Seq<char>| message == #[trigger] invalid_pattern(reason)
}

} // verus!
