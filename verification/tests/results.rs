use fs_query::ast::symbol::Symbol as FoundSymbol;
use fs_query::ast::SymbolKind;
use fs_query::server::ast_ops::{extract_source, line_in_window, put_symbols, select_symbols};
use fs_query::server::name_filter::{invalid_pattern_message, keep_flagged, retain_matching};
use fs_query::server::{extract_symbols, ExtractSymbolsRequest, FileSymbols, SourceFile, Symbol};

fn found(kind: SymbolKind, name: &str, start_line: usize, end_line: usize) -> FoundSymbol {
    FoundSymbol {
        kind,
        name: name.to_string(),
        start_line,
        end_line,
        full_range: 0..10,
        name_range: Some(0..1),
        body_range: Some(2..10),
    }
}

fn entry(kind: SymbolKind, name: &str, start_line: usize, end_line: usize) -> Symbol {
    Symbol { name: name.to_string(), kind, start_line, end_line }
}

fn file(filename: &str, symbols: Vec<Symbol>) -> FileSymbols {
    FileSymbols { filename: filename.to_string(), symbols }
}

fn source(path: &str, content: &str) -> SourceFile {
    SourceFile { path: path.to_string(), content: content.to_string() }
}

fn request(
    filter: Option<SymbolKind>,
    start_line: Option<usize>,
    end_line: Option<usize>,
) -> ExtractSymbolsRequest {
    ExtractSymbolsRequest { path_pattern: "unused".to_string(), filter, start_line, end_line }
}

fn listed(files: &[FileSymbols]) -> Vec<(String, Vec<(String, SymbolKind, usize, usize)>)> {
    files
        .iter()
        .map(|f| {
            (
                f.filename.clone(),
                f.symbols
                    .iter()
                    .map(|s| (s.name.clone(), s.kind, s.start_line, s.end_line))
                    .collect(),
            )
        })
        .collect()
}

fn few() -> Vec<FoundSymbol> {
    vec![
        found(SymbolKind::Class, "A", 1, 9),
        found(SymbolKind::Function, "f", 3, 4),
        found(SymbolKind::Function, "g", 5, 20),
        found(SymbolKind::Variable, "v", 12, 12),
    ]
}

#[test]
fn window_bounds_are_included() {
    assert!(line_in_window(5, Some(5), Some(5)));
    assert!(line_in_window(5, Some(5), Some(9)));
    assert!(line_in_window(9, Some(5), Some(9)));
    assert!(!line_in_window(4, Some(5), Some(9)));
    assert!(!line_in_window(10, Some(5), Some(9)));
    assert!(!line_in_window(5, Some(6), Some(4)));
}

#[test]
fn missing_bounds_do_not_bind() {
    assert!(line_in_window(0, None, None));
    assert!(line_in_window(usize::MAX, None, None));
    assert!(line_in_window(7, Some(7), None));
    assert!(line_in_window(usize::MAX, Some(7), None));
    assert!(!line_in_window(6, Some(7), None));
    assert!(line_in_window(7, None, Some(7)));
    assert!(line_in_window(0, None, Some(7)));
    assert!(!line_in_window(8, None, Some(7)));
}

#[test]
fn selection_goes_by_start_line_only() {
    let chosen = select_symbols(&few(), Some(3), Some(5));
    let seen: Vec<(&str, SymbolKind, usize, usize)> =
        chosen.iter().map(|s| (s.name.as_str(), s.kind, s.start_line, s.end_line)).collect();
    assert_eq!(
        seen,
        vec![("f", SymbolKind::Function, 3, 4), ("g", SymbolKind::Function, 5, 20)]
    );
}

#[test]
fn selection_without_window_keeps_all_in_order() {
    let chosen = select_symbols(&few(), None, None);
    let names: Vec<&str> = chosen.iter().map(|s| s.name.as_str()).collect();
    assert_eq!(names, vec!["A", "f", "g", "v"]);
    assert_eq!(chosen[0].end_line, 9);
    assert!(select_symbols(&Vec::new(), None, None).is_empty());
    assert!(select_symbols(&few(), Some(13), None).is_empty());
}

#[test]
fn symbols_are_put_in_as_a_new_file() {
    let mut files = vec![file("a.py", vec![entry(SymbolKind::Class, "Old", 1, 2)])];
    put_symbols(&mut files, "b.py", &few(), Some(2), None);
    assert_eq!(
        listed(&files),
        vec![
            ("a.py".to_string(), vec![("Old".to_string(), SymbolKind::Class, 1, 2)]),
            (
                "b.py".to_string(),
                vec![
                    ("f".to_string(), SymbolKind::Function, 3, 4),
                    ("g".to_string(), SymbolKind::Function, 5, 20),
                    ("v".to_string(), SymbolKind::Variable, 12, 12),
                ]
            ),
        ]
    );
}

#[test]
fn symbols_of_a_known_file_replace_the_earlier_ones() {
    let mut files = vec![
        file("a.py", vec![entry(SymbolKind::Class, "Old", 1, 2)]),
        file("b.py", vec![entry(SymbolKind::Class, "Other", 1, 2)]),
    ];
    put_symbols(&mut files, "a.py", &few(), None, Some(1));
    assert_eq!(
        listed(&files),
        vec![
            ("b.py".to_string(), vec![("Other".to_string(), SymbolKind::Class, 1, 2)]),
            ("a.py".to_string(), vec![("A".to_string(), SymbolKind::Class, 1, 9)]),
        ]
    );
}

#[test]
fn file_without_selected_symbols_changes_nothing() {
    let mut files = vec![file("a.py", vec![entry(SymbolKind::Class, "Old", 1, 2)])];
    put_symbols(&mut files, "a.py", &few(), Some(100), None);
    put_symbols(&mut files, "b.py", &Vec::new(), None, None);
    assert_eq!(
        listed(&files),
        vec![("a.py".to_string(), vec![("Old".to_string(), SymbolKind::Class, 1, 2)])]
    );
}

#[test]
fn one_source_gives_its_symbols() {
    let outcome = extract_source(&source("m.py", "def f():\n    pass\n"), None).unwrap();
    assert_eq!(outcome.len(), 1);
    assert_eq!(outcome[0].name, "f");
    let filtered =
        extract_source(&source("m.py", "def f():\n    pass\n"), Some(SymbolKind::Class)).unwrap();
    assert!(filtered.is_empty());
}

#[test]
fn source_without_grammar_gives_nothing() {
    assert!(extract_source(&source("notes.txt", "def f():\n    pass\n"), None).is_none());
    assert!(extract_source(&source("Makefile", "all:\n"), None).is_none());
}

#[test]
fn sources_give_one_entry_per_file_with_symbols() {
    let sources = vec![
        source("src/a.py", "def first():\n    pass\n\nclass Second:\n    pass\n"),
        source("README.md", "def ignored():\n    pass\n"),
        source("src/empty.py", "x = 1\n"),
        source("src/b.cpp", "int value = 1;\nvoid run() {}\n"),
    ];
    let files = extract_symbols(&request(None, None, None), &sources);
    assert_eq!(
        listed(&files),
        vec![
            (
                "src/a.py".to_string(),
                vec![
                    ("first".to_string(), SymbolKind::Function, 1, 2),
                    ("Second".to_string(), SymbolKind::Class, 4, 5),
                ]
            ),
            (
                "src/b.cpp".to_string(),
                vec![
                    ("value".to_string(), SymbolKind::Variable, 1, 1),
                    ("run".to_string(), SymbolKind::Function, 2, 2),
                ]
            ),
        ]
    );
}

#[test]
fn request_filter_and_window_apply_to_every_file() {
    let sources = vec![
        source("a.py", "def one():\n    pass\n\nclass Two:\n    pass\n\ndef three():\n    pass\n"),
        source("b.py", "class Only:\n    pass\n"),
        source("c.py", "def early():\n    pass\n"),
    ];
    let files = extract_symbols(&request(Some(SymbolKind::Function), Some(2), None), &sources);
    assert_eq!(
        listed(&files),
        vec![("a.py".to_string(), vec![("three".to_string(), SymbolKind::Function, 7, 8)])]
    );
}

#[test]
fn malformed_file_does_not_stop_the_others() {
    let sources = vec![
        source("bad.py", "def (((:\n\u{0}\n"),
        source("good.py", "def fine():\n    pass\n"),
    ];
    let files = extract_symbols(&request(None, None, None), &sources);
    assert!(files.iter().any(|f| f.filename == "good.py" && f.symbols[0].name == "fine"));
}

#[test]
fn repeated_path_keeps_its_last_content() {
    let sources = vec![
        source("a.py", "def old():\n    pass\n"),
        source("b.py", "def other():\n    pass\n"),
        source("a.py", "def new():\n    pass\n"),
    ];
    let files = extract_symbols(&request(None, None, None), &sources);
    assert_eq!(
        listed(&files),
        vec![
            ("b.py".to_string(), vec![("other".to_string(), SymbolKind::Function, 1, 2)]),
            ("a.py".to_string(), vec![("new".to_string(), SymbolKind::Function, 1, 2)]),
        ]
    );
}

#[test]
fn no_sources_give_no_files() {
    assert!(extract_symbols(&request(None, None, None), &Vec::new()).is_empty());
}

fn matching_names(names: &[&str], pattern: &str) -> Vec<String> {
    let symbols: Vec<Symbol> =
        names.iter().map(|name| entry(SymbolKind::Function, name, 1, 2)).collect();
    let kept = retain_matching(&vec![file("f", symbols)], pattern).unwrap();
    kept.into_iter().flat_map(|f| f.symbols).map(|s| s.name).collect()
}

#[test]
fn pattern_keeps_the_names_that_it_matches() {
    let files = vec![file(
        "a.py",
        vec![
            entry(SymbolKind::Function, "get_name", 1, 2),
            entry(SymbolKind::Function, "forget_me", 3, 4),
            entry(SymbolKind::Variable, "maxSize", 5, 5),
            entry(SymbolKind::Class, "Sizes", 6, 9),
            entry(SymbolKind::Function, "get_", 10, 11),
        ],
    )];
    let kept = retain_matching(&files, "^get_|Size$").unwrap();
    assert_eq!(
        listed(&kept),
        vec![(
            "a.py".to_string(),
            vec![
                ("get_name".to_string(), SymbolKind::Function, 1, 2),
                ("maxSize".to_string(), SymbolKind::Variable, 5, 5),
                ("get_".to_string(), SymbolKind::Function, 10, 11),
            ]
        )]
    );
}

#[test]
fn pattern_matches_anywhere_in_the_name() {
    assert_eq!(matching_names(&["test", "Nested", "set"], "est"), vec!["test", "Nested"]);
    assert_eq!(matching_names(&["test", "Nested", "set"], "^est"), Vec::<String>::new());
    assert_eq!(matching_names(&["test", "Nested", "set"], ""), vec!["test", "Nested", "set"]);
    assert_eq!(matching_names(&["a1", "b", "c22"], "[0-9]+$"), vec!["a1", "c22"]);
}

#[test]
fn files_left_without_symbols_are_dropped() {
    let files = vec![
        file("a.py", vec![entry(SymbolKind::Function, "walk", 1, 2)]),
        file(
            "b.py",
            vec![
                entry(SymbolKind::Function, "run_all", 1, 2),
                entry(SymbolKind::Function, "stop", 3, 4),
                entry(SymbolKind::Function, "run", 5, 6),
            ],
        ),
        file("c.py", vec![]),
        file("d.py", vec![entry(SymbolKind::Class, "runner", 7, 8)]),
    ];
    let kept = retain_matching(&files, "^run").unwrap();
    assert_eq!(
        listed(&kept),
        vec![
            (
                "b.py".to_string(),
                vec![
                    ("run_all".to_string(), SymbolKind::Function, 1, 2),
                    ("run".to_string(), SymbolKind::Function, 5, 6),
                ]
            ),
            ("d.py".to_string(), vec![("runner".to_string(), SymbolKind::Class, 7, 8)]),
        ]
    );
    assert!(retain_matching(&files, "^nothing$").unwrap().is_empty());
    assert!(retain_matching(&Vec::new(), "x").unwrap().is_empty());
}

#[test]
fn text_that_is_no_pattern_is_refused() {
    let files = vec![file("a.py", vec![entry(SymbolKind::Function, "walk", 1, 2)])];
    let message = retain_matching(&files, "(unclosed").unwrap_err();
    assert!(message.starts_with("Invalid regex pattern: "));
    assert!(message.len() > "Invalid regex pattern: ".len());
    assert!(retain_matching(&files, "[").is_err());
    assert!(retain_matching(&files, "").is_ok());
}

#[test]
fn invalid_pattern_message_names_the_reason() {
    assert_eq!(invalid_pattern_message("bad"), "Invalid regex pattern: bad");
}

#[test]
fn flagged_symbols_are_kept_in_order() {
    let symbols = vec![
        entry(SymbolKind::Function, "a", 1, 2),
        entry(SymbolKind::Class, "b", 3, 4),
        entry(SymbolKind::Variable, "c", 5, 6),
        entry(SymbolKind::Function, "d", 7, 8),
    ];
    let kept = keep_flagged(&symbols, &vec![true, false, true, true]);
    let seen: Vec<(&str, SymbolKind, usize, usize)> =
        kept.iter().map(|s| (s.name.as_str(), s.kind, s.start_line, s.end_line)).collect();
    assert_eq!(
        seen,
        vec![
            ("a", SymbolKind::Function, 1, 2),
            ("c", SymbolKind::Variable, 5, 6),
            ("d", SymbolKind::Function, 7, 8),
        ]
    );
    assert!(keep_flagged(&symbols, &vec![false, false, false, false]).is_empty());
}

#[test]
fn symbols_without_flag_are_left_out() {
    let symbols = vec![
        entry(SymbolKind::Function, "a", 1, 2),
        entry(SymbolKind::Class, "b", 3, 4),
        entry(SymbolKind::Variable, "c", 5, 6),
    ];
    let names = |flags: Vec<bool>| -> Vec<String> {
        keep_flagged(&symbols, &flags).into_iter().map(|s| s.name).collect()
    };
    assert_eq!(names(vec![true, true]), vec!["a", "b"]);
    assert_eq!(names(vec![]), Vec::<String>::new());
    assert_eq!(names(vec![false, true, true, true, true]), vec!["b", "c"]);
}
