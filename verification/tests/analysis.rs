use cursecov::comments::count_curse_comments_among;
use cursecov::{
    count_curse_comments, count_curse_comments_in_file, count_curse_comments_in_source,
    count_curse_comments_with, CurseMatcher, CursecovError, ErrorKind, FileCountAnalysis,
    SourceFile,
};

fn source(path: &str, text: &str) -> SourceFile {
    SourceFile { path: path.to_string(), contents: Ok(text.to_string()) }
}

fn counts(path: &str, comments: u32, cursed: u32) -> FileCountAnalysis {
    FileCountAnalysis::new(path.to_string(), comments, cursed).unwrap()
}

#[test]
fn matcher_finds_whole_words_only() {
    let m = CurseMatcher::new().unwrap();
    assert!(m.matches(" this is a fucking console log"));
    assert!(m.matches("ass"));
    assert!(m.matches("what an ass."));
    assert!(m.matches("dumbass"));
    assert!(m.matches("bullshit!"));
    assert!(m.matches("(motherfucking)"));
    assert!(m.matches("crappy crap"));
    assert!(!m.matches("class"));
    assert!(!m.matches("assert"));
    assert!(!m.matches("scrap"));
    assert!(!m.matches("fucks"));
    assert!(!m.matches("shitty"));
    assert!(!m.matches(""));
    assert!(!m.matches("a perfectly polite remark"));
}

#[test]
fn matcher_is_case_sensitive() {
    let m = CurseMatcher::new().unwrap();
    assert!(!m.matches("Fuck"));
    assert!(!m.matches("SHIT"));
    assert!(m.matches("shit"));
}

#[test]
fn pattern_lists_the_words_between_word_boundaries() {
    let pattern = cursecov::vocabulary::build_whole_word_pattern(&cursecov::vocabulary::curse_words());
    assert_eq!(
        pattern,
        "\\b(motherfucking|motherfucker|fucking|fucked|fucker|fuck|crappy|crap|dumbass|ass|shit|bullshit)\\b"
    );
    assert_eq!(cursecov::vocabulary::build_whole_word_pattern(&vec![]), "\\b()\\b");
    assert_eq!(cursecov::vocabulary::build_whole_word_pattern(&vec!["a"]), "\\b(a)\\b");
}

#[test]
fn counts_cursed_among_comments() {
    let m = CurseMatcher::new().unwrap();
    let comments = vec![" fuck".to_string(), " fine".to_string(), "crap".to_string()];
    assert_eq!(count_curse_comments_among(&comments, &m), 2);
    assert_eq!(count_curse_comments_among(&vec![], &m), 0);
}

#[test]
fn a_comment_with_several_curses_counts_once() {
    let m = CurseMatcher::new().unwrap();
    let file = source("a.js", "// shit, what a fucking crappy line\nlet a = 1;");
    assert_eq!(count_curse_comments_in_file(&file, &m), Ok(counts("a.js", 1, 1)));
}

#[test]
fn comment_markers_inside_literals_are_no_comments() {
    let m = CurseMatcher::new().unwrap();
    let text = "const a = \"// fuck\";\nconst b = `/* shit */`;\nconst c = /\\/\\/crap/;\n// real\n";
    let file = source("lit.js", text);
    assert_eq!(count_curse_comments_in_file(&file, &m), Ok(counts("lit.js", 1, 0)));
}

#[test]
fn line_and_block_comments_are_counted() {
    let m = CurseMatcher::new().unwrap();
    let text = "/* fuck */\n/**\n * a crappy doc\n */\n// fine\nlet a = 1; // ass\n";
    let file = source("src/a.ts", text);
    let analysis = count_curse_comments_in_file(&file, &m).unwrap();
    assert_eq!(analysis.path(), "src/a.ts");
    assert_eq!(analysis.comment_count(), 4);
    assert_eq!(analysis.curse_comment_count(), 3);
    assert_eq!(analysis.coverage(), 74);
}

#[test]
fn curse_next_to_the_marker_is_found() {
    let m = CurseMatcher::new().unwrap();
    let file = source("a.js", "//fuck\n/*shit*/\n");
    assert_eq!(count_curse_comments_in_file(&file, &m), Ok(counts("a.js", 2, 2)));
}

#[test]
fn source_is_read_in_the_given_dialect() {
    let m = CurseMatcher::new().unwrap();
    let ts = oxc_span::SourceType::from_path("a.ts").unwrap();
    let text = "// fuck types\nlet a: number = 1;";
    assert_eq!(count_curse_comments_in_source("a.ts", text, ts, &m), Ok(counts("a.ts", 1, 1)));
}

#[test]
fn unknown_extension_is_a_dialect_error() {
    let m = CurseMatcher::new().unwrap();
    let file = source("hello3.txt", "This fucking text file has no impact on the cursecov");
    assert_eq!(
        count_curse_comments_in_file(&file, &m),
        Err(CursecovError::Dialect("hello3.txt".to_string()))
    );
    let bare = source("Makefile", "// fuck");
    assert_eq!(count_curse_comments_in_file(&bare, &m).unwrap_err().kind(), ErrorKind::Dialect);
}

#[test]
fn unread_file_is_a_filesystem_error() {
    let m = CurseMatcher::new().unwrap();
    let file = SourceFile { path: "a.txt".to_string(), contents: Err("no such file".to_string()) };
    assert_eq!(
        count_curse_comments_in_file(&file, &m),
        Err(CursecovError::Filesystem("no such file".to_string()))
    );
}

#[test]
fn malformed_source_is_a_parse_error() {
    let m = CurseMatcher::new().unwrap();
    let file = source("bad.js", "// fuck\nconst = ;");
    assert_eq!(
        count_curse_comments_in_file(&file, &m),
        Err(CursecovError::Parse("bad.js".to_string()))
    );
}

#[test]
fn files_are_analysed_in_order() {
    let files = vec![
        source("a.js", "// fuck\n// fine\n"),
        source("b.jsx", "let a = 1;"),
        source("c.mts", "/* ok */"),
    ];
    let expected = vec![counts("a.js", 2, 1), counts("b.jsx", 0, 0), counts("c.mts", 1, 0)];
    assert_eq!(count_curse_comments(&files), Ok(expected.clone()));
    let m = CurseMatcher::new().unwrap();
    assert_eq!(count_curse_comments_with(&files, &m), Ok(expected));
    assert_eq!(count_curse_comments(&vec![]), Ok(vec![]));
}

#[test]
fn a_failing_file_leaves_no_partial_result() {
    let files = vec![
        source("a.js", "// fuck\n"),
        source("b.css", "/* shit */"),
        source("c.js", "const = ;"),
    ];
    assert_eq!(count_curse_comments(&files), Err(CursecovError::Dialect("b.css".to_string())));
}

#[test]
fn error_kinds() {
    assert_eq!(CursecovError::Pattern("x".to_string()).kind(), ErrorKind::Pattern);
    assert_eq!(CursecovError::Filesystem("x".to_string()).kind(), ErrorKind::Filesystem);
    assert_eq!(CursecovError::Dialect("x".to_string()).kind(), ErrorKind::Dialect);
    assert_eq!(CursecovError::Parse("x".to_string()).kind(), ErrorKind::Parse);
    assert_eq!(CursecovError::Config.kind(), ErrorKind::Config);
    assert_eq!(CursecovError::Vocabulary.kind(), ErrorKind::Vocabulary);
}

#[test]
fn a_run_over_resolved_paths_counts_no_ignored_file() {
    let included: Vec<String> =
        vec!["a.js", "vendor/x.js", "b.ts", "a.js"].into_iter().map(String::from).collect();
    let ignored: Vec<String> = vec!["vendor/x.js".to_string()];
    let paths = cursecov::resolve_paths(&included, &ignored);
    let files: Vec<SourceFile> =
        paths.iter().map(|p| source(p, "// fuck\nlet a = 1;")).collect();
    let analyses = count_curse_comments(&files).unwrap();
    let counted: Vec<&str> = analyses.iter().map(|a| a.path().as_str()).collect();
    assert_eq!(counted, vec!["a.js", "b.ts"]);
}
