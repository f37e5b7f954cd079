use fs_query::ast::get_language;
use fs_query::ast::parser::{
    extractor_for_extension, grammar_for_extension, language_failure_message, Extractor, Grammar,
};
use fs_query::server::{missing_path_message, plan_entry, plan_paths, EntryPlan, PathPlan};

#[test]
fn extensions_select_their_grammars() {
    for extension in ["cpp", "cc", "cxx", "c", "h", "hpp"] {
        assert_eq!(grammar_for_extension(extension), Some(Grammar::Cpp));
    }
    assert_eq!(grammar_for_extension("py"), Some(Grammar::Python));
    assert_eq!(grammar_for_extension("rs"), Some(Grammar::Rust));
    assert_eq!(grammar_for_extension("js"), Some(Grammar::JavaScript));
    assert_eq!(grammar_for_extension("ts"), Some(Grammar::JavaScript));
    assert_eq!(grammar_for_extension("go"), Some(Grammar::Go));
}

#[test]
fn other_extensions_select_no_grammar() {
    for extension in ["", "txt", "CPP", "Py", "cp", "cpps", "hh", "jsx", "tsx", "java", "golang"] {
        assert_eq!(grammar_for_extension(extension), None);
    }
}

#[test]
fn extensions_select_their_rules() {
    for extension in ["cpp", "cc", "cxx", "c", "h", "hpp"] {
        assert_eq!(extractor_for_extension(extension), Some(Extractor::Cpp));
    }
    assert_eq!(extractor_for_extension("py"), Some(Extractor::Python));
    assert_eq!(extractor_for_extension("js"), Some(Extractor::JavaScript));
    assert_eq!(extractor_for_extension("ts"), Some(Extractor::JavaScript));
    assert_eq!(extractor_for_extension("go"), Some(Extractor::Go));
}

#[test]
fn rust_has_a_grammar_but_no_rules() {
    assert_eq!(grammar_for_extension("rs"), Some(Grammar::Rust));
    assert_eq!(extractor_for_extension("rs"), None);
    assert_eq!(extractor_for_extension("txt"), None);
    assert_eq!(extractor_for_extension(""), None);
}

#[test]
fn paths_select_grammar_by_extension_of_last_component() {
    assert_eq!(get_language("test.cpp"), Some(Grammar::Cpp));
    assert_eq!(get_language("src/deep/er/module.py"), Some(Grammar::Python));
    assert_eq!(get_language("/abs/lib.rs"), Some(Grammar::Rust));
    assert_eq!(get_language("a.b.c.go"), Some(Grammar::Go));
    assert_eq!(get_language("archive.tar.js"), Some(Grammar::JavaScript));
    assert_eq!(get_language("./x.h"), Some(Grammar::Cpp));
    assert_eq!(get_language(".hidden.ts"), Some(Grammar::JavaScript));
}

#[test]
fn paths_without_known_extension_select_no_grammar() {
    assert_eq!(get_language(""), None);
    assert_eq!(get_language("Makefile"), None);
    assert_eq!(get_language("notes.txt"), None);
    assert_eq!(get_language("module.py/readme"), None);
    assert_eq!(get_language("main.cpp.bak"), None);
    assert_eq!(get_language("test.CPP"), None);
    assert_eq!(get_language("trailing."), None);
    assert_eq!(get_language(".."), None);
    assert_eq!(get_language("dir/.."), None);
}

#[test]
fn name_that_is_only_an_extension_has_none() {
    assert_eq!(get_language(".py"), None);
    assert_eq!(get_language("dir/.go"), None);
    assert_eq!(get_language("py"), None);
}

#[test]
fn language_failure_message_names_the_reason() {
    assert_eq!(language_failure_message("too old"), "Failed to set language: too old");
    assert_eq!(language_failure_message(""), "Failed to set language: ");
}

#[test]
fn existing_paths_are_taken_as_they_are() {
    assert_eq!(plan_paths("src/main.rs", true, false), PathPlan::SingleFile);
    assert_eq!(plan_paths("weird*name{}", true, false), PathPlan::SingleFile);
    assert_eq!(plan_paths("src", false, true), PathPlan::Directory);
    assert_eq!(plan_paths("src/[x]", false, true), PathPlan::Directory);
    assert_eq!(plan_paths("both", true, true), PathPlan::SingleFile);
}

#[test]
fn patterns_with_braces_are_brace_globs() {
    assert_eq!(plan_paths("**/*.{h,cpp}", false, false), PathPlan::BraceGlob);
    assert_eq!(plan_paths("src/{a,b}", false, false), PathPlan::BraceGlob);
    assert_eq!(plan_paths("{", false, false), PathPlan::BraceGlob);
}

#[test]
fn patterns_without_braces_are_simple_globs() {
    assert_eq!(plan_paths("src/*.py", false, false), PathPlan::SimpleGlob);
    assert_eq!(plan_paths("file?.go", false, false), PathPlan::SimpleGlob);
    assert_eq!(plan_paths("x[ab].c", false, false), PathPlan::SimpleGlob);
}

#[test]
fn other_texts_are_missing_paths() {
    assert_eq!(plan_paths("no/such/file.py", false, false), PathPlan::Missing);
    assert_eq!(plan_paths("", false, false), PathPlan::Missing);
    assert_eq!(plan_paths("a}b]c", false, false), PathPlan::Missing);
}

#[test]
fn missing_path_message_names_the_pattern() {
    assert_eq!(missing_path_message("no/such"), "Path does not exist: no/such");
}

#[test]
fn found_paths_are_taken_searched_or_skipped() {
    assert_eq!(plan_entry(true, false, true), EntryPlan::Take);
    assert_eq!(plan_entry(true, false, false), EntryPlan::Take);
    assert_eq!(plan_entry(true, true, true), EntryPlan::Take);
    assert_eq!(plan_entry(false, true, true), EntryPlan::Descend);
    assert_eq!(plan_entry(false, true, false), EntryPlan::Skip);
    assert_eq!(plan_entry(false, false, true), EntryPlan::Skip);
    assert_eq!(plan_entry(false, false, false), EntryPlan::Skip);
}
