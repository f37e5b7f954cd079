use crate::ast::kind_set::KindSet;
use crate::ast::parser::{
    accepted, file_symbols, get_language, grammar_for, path_extension, syntax_tree, CodeParser,
};
use crate::ast::symbol::{symbol_views, SymbolKind, SymbolView};
use crate::ast::visitor::symbol_views_push;
use vstd::prelude::*;
use vstd::utf8::encode_utf8;

verus! {

/// What is asked of `extract_symbols`: the files, the kind of symbol, and the
/// lines on which a symbol may start.
#[derive(Debug)]
pub struct ExtractSymbolsRequest {
    pub path_pattern: String,
    pub filter: Option<SymbolKind>,
    pub start_line: Option<usize>,
    pub end_line: Option<usize>,
}

/// What a `Symbol` of a result stands for.
pub struct EntryView {
    pub name: Seq<char>,
    pub kind: SymbolKind,
    pub start_line: nat,
    pub end_line: nat,
}

/// A symbol as results give it: its name, its kind and its lines.
#[derive(Debug)]
pub struct Symbol {
    pub name: String,
    pub kind: SymbolKind,
    pub start_line: usize,
    pub end_line: usize,
}

impl View for Symbol {
    type V = EntryView;

    open spec fn view(&self) -> EntryView {
        EntryView {
            name: self.name@,
            kind: self.kind,
            start_line: self.start_line as nat,
            end_line: self.end_line as nat,
        }
    }
}

/// The views of a list of result symbols, in the list's order.
pub open spec fn entry_views(symbols: Seq<Symbol>) -> Seq<EntryView> {
    symbols.map_values(|s: Symbol| s@)
}

/// What a `FileSymbols` stands for.
pub struct FileView {
    pub filename: Seq<char>,
    pub symbols: Seq<EntryView>,
}

/// The symbols of one file.
#[derive(Debug)]
pub struct FileSymbols {
    pub filename: String,
    pub symbols: Vec<Symbol>,
}

impl View for FileSymbols {
    type V = FileView;

    open spec fn view(&self) -> FileView {
        FileView { filename: self.filename@, symbols: entry_views(self.symbols@) }
    }
}

/// The views of a list of files, in the list's order.
pub open spec fn file_views(files: Seq<FileSymbols>) -> Seq<FileView> {
    files.map_values(|f: FileSymbols| f@)
}

/// What a `SourceFile` stands for.
pub struct SourceView {
    pub path: Seq<char>,
    pub content: Seq<char>,
}

/// A file that has been read: its path and its text.
#[derive(Debug)]
pub struct SourceFile {
    pub path: String,
    pub content: String,
}

impl View for SourceFile {
    type V = SourceView;

    open spec fn view(&self) -> SourceView {
        SourceView { path: self.path@, content: self.content@ }
    }
}

/// The views of a list of sources, in the list's order.
pub open spec fn source_views(sources: Seq<SourceFile>) -> Seq<SourceView> {
    sources.map_values(|s: SourceFile| s@)
}

/// Whether `line` lies in the window from `start_line` to `end_line`, both
/// included. A bound that is not given does not bind.
pub open spec fn in_window(line: nat, start_line: Option<usize>, end_line: Option<usize>) -> bool {
    &&& start_line matches Some(start) ==> line >= start
    &&& end_line matches Some(end) ==> line <= end
}

/// A symbol as results give it.
pub open spec fn projected(symbol: SymbolView) -> EntryView {
    EntryView {
        name: symbol.name,
        kind: symbol.kind,
        start_line: symbol.start_line,
        end_line: symbol.end_line,
    }
}

/// The symbols that start in the window, as results give them and in their order.
pub open spec fn selected(
    symbols: Seq<SymbolView>,
    start_line: Option<usize>,
    end_line: Option<usize>,
) -> Seq<EntryView> {
    symbols.filter(|s: SymbolView| in_window(s.start_line, start_line, end_line)).map_values(
        |s: SymbolView| projected(s),
    )
}

/// The place of the file named `filename` in `files`: the least one, if the
/// name occurs more than once.
pub open spec fn find_file(files: Seq<FileView>, filename: Seq<char>) -> Option<int>
    decreases files.len(),
{
    if files.len() == 0 {
        None
    } else {
        match find_file(files.drop_last(), filename) {
            Some(at) => Some(at),
            None => if files.last().filename == filename {
                Some(files.len() - 1)
            } else {
                None
            },
        }
    }
}

/// `files` with `file` put last, in place of the file of the same name if
/// there was one.
pub open spec fn with_file(files: Seq<FileView>, file: FileView) -> Seq<FileView> {
    match find_file(files, file.filename) {
        Some(at) => files.remove(at).push(file),
        None => files.push(file),
    }
}

/// Whether no two of `files` have the same name.
pub open spec fn distinct_names(files: Seq<FileView>) -> bool {
    forall|i: int, j: int|
        0 <= i < j < files.len() ==> (#[trigger] files[i]).filename != (#[trigger] files[j]).filename
}

/// `find_file` gives a place exactly when the name occurs, and then the least
/// place that holds it.
pub proof fn find_file_is_first(files: Seq<FileView>, filename: Seq<char>)
    ensures
        match find_file(files, filename) {
            Some(at) => {
                &&& 0 <= at < files.len()
                &&& files[at].filename == filename
                &&& forall|i: int| 0 <= i < at ==> (#[trigger] files[i]).filename != filename
            },
            None => forall|i: int| 0 <= i < files.len() ==> (#[trigger] files[i]).filename
                != filename,
        },
    decreases files.len(),
{
    if files.len() > 0 {
        let shorter = files.drop_last();
        find_file_is_first(shorter, filename);
        assert(forall|i: int| 0 <= i < shorter.len() ==> shorter[i] == files[i]);
        match find_file(shorter, filename) {
            Some(at) => {
                assert forall|i: int| 0 <= i < at implies (#[trigger] files[i]).filename
                    != filename by {
                    assert(shorter[i] == files[i]);
                }
            },
            None => {
                assert forall|i: int| 0 <= i < files.len() - 1 implies (#[trigger] files[i]).filename
                    != filename by {
                    assert(shorter[i] == files[i]);
                }
            },
        }
    }
}

/// Putting a file into a list without a repeated name leaves the list without one.
pub proof fn with_file_keeps_names_distinct(files: Seq<FileView>, file: FileView)
    requires
        distinct_names(files),
    ensures
        distinct_names(with_file(files, file)),
{
    find_file_is_first(files, file.filename);
    let after = with_file(files, file);
    match find_file(files, file.filename) {
        Some(at) => {
            let without = files.remove(at);
            assert forall|i: int, j: int| 0 <= i < j < after.len() implies (#[trigger] after[i]).filename
                != (#[trigger] after[j]).filename by {
                let from_i = if i < at {
                    i
                } else {
                    i + 1
                };
                assert(after[i] == files[from_i]);
                if j < without.len() {
                    let from_j = if j < at {
                        j
                    } else {
                        j + 1
                    };
                    assert(after[j] == files[from_j]);
                } else {
                    assert(after[j] == file);
                    assert(files[from_i].filename != files[at].filename);
                }
            }
        },
        None => {
            assert forall|i: int, j: int| 0 <= i < j < after.len() implies (#[trigger] after[i]).filename
                != (#[trigger] after[j]).filename by {
                assert(after[i] == files[i]);
                if j < files.len() {
                    assert(after[j] == files[j]);
                } else {
                    assert(after[j] == file);
                }
            }
        },
    }
}

/// Whether `line` lies in the window from `start_line` to `end_line`.
pub fn line_in_window(line: usize, start_line: Option<usize>, end_line: Option<usize>) -> (inside:
    bool)
    ensures
        inside == in_window(line as nat, start_line, end_line),
{
    match (start_line, end_line) {
        (Some(start), Some(end)) => line >= start && line <= end,
        (Some(start), None) => line >= start,
        (None, Some(end)) => line <= end,
        (None, None) => true,
    }
}

/// The symbols that start in the window, as results give them and in their order.
pub fn select_symbols(
    symbols: &Vec<crate::ast::symbol::Symbol>,
    start_line: Option<usize>,
    end_line: Option<usize>,
) -> (chosen: Vec<Symbol>)
    ensures
        entry_views(chosen@) == selected(symbol_views(symbols@), start_line, end_line),
{
    let ghost inside = |s: SymbolView| in_window(s.start_line, start_line, end_line);
    let ghost project = |s: SymbolView| projected(s);
    let mut chosen: Vec<Symbol> = Vec::new();
    let mut i: usize = 0;
    proof {
        assert(symbols@.take(0) == Seq::<crate::ast::symbol::Symbol>::empty());
        assert(symbol_views(symbols@.take(0)) == Seq::<SymbolView>::empty());
        reveal(Seq::filter);
        assert(entry_views(chosen@) == Seq::<SymbolView>::empty().filter(inside).map_values(
            project,
        ));
    }
    while i < symbols.len()
        invariant
            i <= symbols.len(),
            inside == (|s: SymbolView| in_window(s.start_line, start_line, end_line)),
            project == (|s: SymbolView| projected(s)),
            entry_views(chosen@) == symbol_views(symbols@.take(i as int)).filter(inside).map_values(
                project,
            ),
        decreases symbols.len() - i,
    {
        proof {
            let seen = symbols@.take(i as int);
            assert(symbols@.take(i + 1) == seen.push(symbols[i as int]));
            symbol_views_push(seen, symbols[i as int]);
            symbol_views(seen).lemma_filter_push(symbols[i as int]@, inside);
        }
        if line_in_window(symbols[i].start_line, start_line, end_line) {
            let symbol = Symbol {
                name: symbols[i].name.clone(),
                kind: symbols[i].kind,
                start_line: symbols[i].start_line,
                end_line: symbols[i].end_line,
            };
            proof {
                let kept = symbol_views(symbols@.take(i as int)).filter(inside);
                assert(symbol@ == projected(symbols[i as int]@));
                assert(entry_views(chosen@.push(symbol)) == entry_views(chosen@).push(symbol@));
                assert(kept.push(symbols[i as int]@).map_values(project) == kept.map_values(
                    project,
                ).push(projected(symbols[i as int]@)));
            }
            chosen.push(symbol);
        }
        i = i + 1;
    }
    proof {
        assert(symbols@.take(i as int) == symbols@);
    }
    chosen
}

/// The files after the symbols extracted from the file at `path` have been
/// put in: where some of them start in the window, these become the symbols
/// of that file, which then stands last; where none does, nothing changes.
pub open spec fn with_symbols(
    files: Seq<FileView>,
    path: Seq<char>,
    symbols: Seq<SymbolView>,
    start_line: Option<usize>,
    end_line: Option<usize>,
) -> Seq<FileView> {
    if selected(symbols, start_line, end_line).len() > 0 {
        with_file(
            files,
            FileView { filename: path, symbols: selected(symbols, start_line, end_line) },
        )
    } else {
        files
    }
}

/// Puts the symbols extracted from the file at `path` into `files`.
pub fn put_symbols(
    files: &mut Vec<FileSymbols>,
    path: &str,
    symbols: &Vec<crate::ast::symbol::Symbol>,
    start_line: Option<usize>,
    end_line: Option<usize>,
)
    ensures
        file_views(final(files)@) == with_symbols(
            file_views(old(files)@),
            path@,
            symbol_views(symbols@),
            start_line,
            end_line,
        ),
{
    let chosen = select_symbols(symbols, start_line, end_line);
    if chosen.len() == 0 {
        return ;
    }
    let file = FileSymbols { filename: path.to_owned(), symbols: chosen };
    let ghost before = file_views(files@);
    let mut i: usize = 0;
    proof {
        assert(before.take(0) == Seq::<FileView>::empty());
    }
    while i < files.len()
        invariant
            i <= files.len(),
            before == file_views(files@),
            files@ == old(files)@,
            find_file(before.take(i as int), path@) is None,
            file@.filename == path@,
            file@.symbols == selected(symbol_views(symbols@), start_line, end_line),
            file@.symbols.len() > 0,
        decreases files.len() - i,
    {
        proof {
            assert(before.take(i + 1).drop_last() == before.take(i as int));
            assert(before.take(i + 1).last() == files[i as int]@);
        }
        if crate::text::str_eq(files[i].filename.as_str(), path) {
            proof {
                assert(find_file(before.take(i + 1), path@) == Some(i as int));
                find_file_from_prefix(before, i as int + 1, path@);
                assert(find_file(before, path@) == Some(i as int));
                assert(file_views(files@.remove(i as int)) == before.remove(i as int));
                assert(file_views(files@.remove(i as int).push(file)) == before.remove(
                    i as int,
                ).push(file@));
            }
            files.remove(i);
            files.push(file);
            return ;
        }
        i = i + 1;
    }
    proof {
        assert(before.take(i as int) == before);
        assert(file_views(files@.push(file)) == before.push(file@));
    }
    files.push(file);
}

/// A place that `find_file` gives for the first files of a list is the place
/// that it gives for the whole list.
pub proof fn find_file_from_prefix(files: Seq<FileView>, count: int, filename: Seq<char>)
    requires
        0 <= count <= files.len(),
        find_file(files.take(count), filename) is Some,
    ensures
        find_file(files, filename) == find_file(files.take(count), filename),
    decreases files.len() - count,
{
    if count < files.len() {
        assert(files.take(count + 1).drop_last() == files.take(count));
        find_file_from_prefix(files, count + 1, filename);
    } else {
        assert(files.take(count) == files);
    }
}

/// The kinds that a request's filter leaves: the one kind that it names, or
/// every kind where it names none.
pub open spec fn filter_kinds(filter: Option<SymbolKind>) -> Option<Set<SymbolKind>> {
    match filter {
        Some(kind) => Some(Set::<SymbolKind>::empty().insert(kind)),
        None => None,
    }
}

/// The views of symbols that may have been extracted.
pub open spec fn optional_symbol_views(symbols: Option<Vec<crate::ast::symbol::Symbol>>) -> Option<
    Seq<SymbolView>,
> {
    match symbols {
        Some(list) => Some(symbol_views(list@)),
        None => None,
    }
}

/// The symbols of one source: those of its syntax tree by the grammar that the
/// path's extension selects, less those that the filter leaves out. There are
/// none where the extension selects no grammar, where no parser takes the
/// grammar's language, or where the text has no syntax tree.
pub open spec fn source_symbols(source: SourceView, filter: Option<SymbolKind>) -> Option<
    Seq<SymbolView>,
> {
    match grammar_for(path_extension(source.path)) {
        Some(grammar) => if accepted(grammar) {
            match syntax_tree(Some(grammar), source.content) {
                Some(tree) => Some(
                    file_symbols(
                        tree,
                        encode_utf8(source.content),
                        source.path,
                        filter_kinds(filter),
                    ),
                ),
                None => None,
            }
        } else {
            None
        },
        None => None,
    }
}

/// The files of a result: the symbols of each source are put in, in the order
/// of the sources.
pub open spec fn gathered(
    sources: Seq<SourceView>,
    filter: Option<SymbolKind>,
    start_line: Option<usize>,
    end_line: Option<usize>,
) -> Seq<FileView>
    decreases sources.len(),
{
    if sources.len() == 0 {
        Seq::empty()
    } else {
        let before = gathered(sources.drop_last(), filter, start_line, end_line);
        match source_symbols(sources.last(), filter) {
            Some(symbols) => with_symbols(
                before,
                sources.last().path,
                symbols,
                start_line,
                end_line,
            ),
            None => before,
        }
    }
}

/// Putting the symbols of a file into a list without a repeated name leaves
/// the list without one.
pub proof fn with_symbols_keeps_names_distinct(
    files: Seq<FileView>,
    path: Seq<char>,
    symbols: Seq<SymbolView>,
    start_line: Option<usize>,
    end_line: Option<usize>,
)
    requires
        distinct_names(files),
    ensures
        distinct_names(with_symbols(files, path, symbols, start_line, end_line)),
{
    if selected(symbols, start_line, end_line).len() > 0 {
        with_file_keeps_names_distinct(
            files,
            FileView { filename: path, symbols: selected(symbols, start_line, end_line) },
        );
    }
}

/// No two files of a result have the same name.
pub proof fn gathered_names_are_distinct(
    sources: Seq<SourceView>,
    filter: Option<SymbolKind>,
    start_line: Option<usize>,
    end_line: Option<usize>,
)
    ensures
        distinct_names(gathered(sources, filter, start_line, end_line)),
    decreases sources.len(),
{
    if sources.len() > 0 {
        gathered_names_are_distinct(sources.drop_last(), filter, start_line, end_line);
        match source_symbols(sources.last(), filter) {
            Some(symbols) => {
                with_symbols_keeps_names_distinct(
                    gathered(sources.drop_last(), filter, start_line, end_line),
                    sources.last().path,
                    symbols,
                    start_line,
                    end_line,
                );
            },
            None => {},
        }
    }
}

/// Extracts the symbols of one source with a parser for the grammar that the
/// path's extension selects.
pub fn extract_source(source: &SourceFile, filter: Option<SymbolKind>) -> (outcome: Option<
    Vec<crate::ast::symbol::Symbol>,
>)
    ensures
        optional_symbol_views(outcome) == source_symbols(source@, filter),
{
    let language = match get_language(source.path.as_str()) {
        Some(language) => language,
        None => {
            return None;
        },
    };
    let mut parser = match CodeParser::new(language) {
        Ok(parser) => parser,
        Err(_) => {
            return None;
        },
    };
    let kinds = match filter {
        Some(kind) => {
            let mut set = KindSet::new();
            set.insert(kind);
            Some(set)
        },
        None => None,
    };
    proof {
        assert(crate::ast::kind_set::optional_kinds(kinds) == filter_kinds(filter));
    }
    match parser.extract_symbols(source.content.as_str(), source.path.as_str(), kinds) {
        Ok(symbols) => Some(symbols),
        Err(_) => None,
    }
}

/// Extracts the symbols of the files that have been read into `sources`, file
/// by file in their order, and gives those of each file that has any that
/// start in the window of `params`. A path that occurs again replaces its
/// earlier entry. No two files of the result have the same name.
pub fn extract_symbols(params: &ExtractSymbolsRequest, sources: &Vec<SourceFile>) -> (files: Vec<
    FileSymbols,
>)
    ensures
        file_views(files@) == gathered(
            source_views(sources@),
            params.filter,
            params.start_line,
            params.end_line,
        ),
        distinct_names(file_views(files@)),
{
    let mut files: Vec<FileSymbols> = Vec::new();
    let ghost all = source_views(sources@);
    let mut i: usize = 0;
    proof {
        assert(file_views(files@) == Seq::<FileView>::empty());
        assert(all.take(0) == Seq::<SourceView>::empty());
    }
    while i < sources.len()
        invariant
            i <= sources.len(),
            all == source_views(sources@),
            file_views(files@) == gathered(
                all.take(i as int),
                params.filter,
                params.start_line,
                params.end_line,
            ),
        decreases sources.len() - i,
    {
        proof {
            assert(all.take(i + 1).drop_last() == all.take(i as int));
            assert(all.take(i + 1).last() == sources[i as int]@);
        }
        match extract_source(&sources[i], params.filter) {
            Some(symbols) => {
                put_symbols(
                    &mut files,
                    sources[i].path.as_str(),
                    &symbols,
                    params.start_line,
                    params.end_line,
                );
            },
            None => {},
        }
        i = i + 1;
    }
    proof {
        assert(all.take(i as int) == all);
        gathered_names_are_distinct(all, params.filter, params.start_line, params.end_line);
    }
    files
}

} // verus!
