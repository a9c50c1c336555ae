use cursecov::report::decimal_text;
use cursecov::{
    calculate_total_curse_coverage, check_coverage, coverage_percent, elide_path,
    generate_coverage_table, insufficient_coverage_message, report_run, resolve_paths, split_patterns, validate_min_coverage,
    CursecovError, FileCountAnalysis, Shortfall,
};

fn counts(path: &str, comments: u32, cursed: u32) -> FileCountAnalysis {
    FileCountAnalysis::new(path.to_string(), comments, cursed).unwrap()
}

fn strings(items: &[&str]) -> Vec<String> {
    items.iter().map(|s| s.to_string()).collect()
}

#[test]
fn coverage_of_no_comments_is_zero() {
    assert_eq!(coverage_percent(0, 0), 0);
    assert_eq!(calculate_total_curse_coverage(&vec![]), 0);
    assert_eq!(calculate_total_curse_coverage(&vec![counts("a.js", 0, 0)]), 0);
}

#[test]
fn coverage_is_floored_with_the_guard_in_the_divisor() {
    assert_eq!(coverage_percent(1, 1), 99);
    assert_eq!(coverage_percent(2, 4), 49);
    assert_eq!(coverage_percent(3, 10), 29);
    assert_eq!(coverage_percent(1, 3), 33);
    assert_eq!(coverage_percent(2, 3), 66);
    assert_eq!(coverage_percent(0, 7), 0);
    assert_eq!(coverage_percent(u32::MAX, u32::MAX), 99);
    assert_eq!(coverage_percent(5, 0), 5_000_000);
}

#[test]
fn coverage_agrees_with_the_floating_point_formula() {
    let mut total: u32 = 0;
    while total <= 40 {
        let mut curse: u32 = 0;
        while curse <= total {
            let expected = (100.0 * (curse as f64) / (total as f64 + 0.0001)).floor();
            assert_eq!(coverage_percent(curse, total) as f64, expected);
            curse += 1;
        }
        total += 1;
    }
}

#[test]
fn coverage_grows_with_curses_and_falls_with_comments() {
    let mut total: u32 = 0;
    while total < 30 {
        let mut curse: u32 = 0;
        while curse < 30 {
            assert!(coverage_percent(curse, total) <= coverage_percent(curse + 1, total));
            assert!(coverage_percent(curse, total) >= coverage_percent(curse, total + 1));
            curse += 1;
        }
        total += 1;
    }
}

#[test]
fn total_coverage_is_weighted_by_comments() {
    let files = vec![counts("a.js", 1, 1), counts("b.js", 9, 0)];
    assert_eq!(files[0].coverage(), 99);
    assert_eq!(files[1].coverage(), 0);
    assert_eq!(calculate_total_curse_coverage(&files), 9);
    let even = vec![counts("a.js", 3, 1), counts("b.js", 1, 1)];
    assert_eq!(calculate_total_curse_coverage(&even), 49);
}

#[test]
fn counts_never_hold_more_curses_than_comments() {
    assert!(FileCountAnalysis::new("a.js".to_string(), 1, 2).is_none());
    let a = counts("a.js", 2, 2);
    assert_eq!(a.comment_count(), 2);
    assert_eq!(a.curse_comment_count(), 2);
    assert_eq!(a.path(), "a.js");
    assert_eq!(a.clone(), a);
    assert_eq!(cursecov::coverage::sum_counts(&vec![a, counts("b.js", 5, 1)]), (3, 7));
}

#[test]
fn threshold_is_met_at_equality() {
    assert_eq!(check_coverage(30, 30), Ok(()));
    assert_eq!(check_coverage(49, 30), Ok(()));
    assert_eq!(check_coverage(49, 50), Err(Shortfall { expected: 50, actual: 49 }));
    assert_eq!(check_coverage(0, 30), Err(Shortfall { expected: 30, actual: 0 }));
    assert_eq!(check_coverage(0, 0), Ok(()));
}

#[test]
fn min_coverage_must_lie_within_zero_and_hundred() {
    assert_eq!(validate_min_coverage(150), Err(CursecovError::Config));
    assert_eq!(validate_min_coverage(-1), Err(CursecovError::Config));
    assert_eq!(validate_min_coverage(101), Err(CursecovError::Config));
    assert_eq!(validate_min_coverage(0), Ok(0));
    assert_eq!(validate_min_coverage(30), Ok(30));
    assert_eq!(validate_min_coverage(100), Ok(100));
}

#[test]
fn patterns_are_split_at_commas() {
    assert_eq!(split_patterns("**/*.js,**/*.ts"), strings(&["**/*.js", "**/*.ts"]));
    assert_eq!(split_patterns("src/**/*.js"), strings(&["src/**/*.js"]));
    assert_eq!(split_patterns(""), Vec::<String>::new());
    assert_eq!(split_patterns(","), strings(&["", ""]));
    assert_eq!(split_patterns("a,,b,"), strings(&["a", "", "b", ""]));
    assert_eq!(split_patterns("é*.js,ü"), strings(&["é*.js", "ü"]));
}

#[test]
fn ignored_paths_are_taken_out() {
    let included = strings(&["a.js", "b.js", "a.js", "lib/c.ts", "b.js"]);
    let ignored = strings(&["b.js", "other.js"]);
    assert_eq!(resolve_paths(&included, &ignored), strings(&["a.js", "lib/c.ts"]));
    assert_eq!(resolve_paths(&included, &vec![]), strings(&["a.js", "b.js", "lib/c.ts"]));
    assert_eq!(resolve_paths(&included, &included), Vec::<String>::new());
    assert_eq!(resolve_paths(&vec![], &ignored), Vec::<String>::new());
}

#[test]
fn long_paths_are_elided() {
    let sixty = "a".repeat(60);
    assert_eq!(elide_path(&sixty), sixty);
    let long = format!("{}{}{}", "h".repeat(30), "m", "t".repeat(30));
    assert_eq!(elide_path(&long), format!("{}...{}", "h".repeat(30), "t".repeat(30)));
    let wide = format!("{}{}", "é".repeat(40), "ü".repeat(40));
    assert_eq!(elide_path(&wide), format!("{}...{}", "é".repeat(30), "ü".repeat(30)));
    assert_eq!(elide_path(""), "");
}

#[test]
fn numbers_are_written_in_decimal() {
    assert_eq!(decimal_text(0), "0");
    assert_eq!(decimal_text(7), "7");
    assert_eq!(decimal_text(10), "10");
    assert_eq!(decimal_text(4096), "4096");
    assert_eq!(decimal_text(u64::MAX), "18446744073709551615");
}

#[test]
fn table_has_a_row_for_each_file() {
    let files = vec![counts("hello.js", 1, 1), counts("foo/hello2.js", 3, 1)];
    let total = calculate_total_curse_coverage(&files);
    let mut expected = String::new();
    expected.push_str(&format!("| {:<80} | {:<8} | {:<8} | {:<3} |\n", "file", "# curse", "# total", "%"));
    expected.push_str(&format!("| {:-<80} | {:-<8} | {:-<8} | {:-<3} |\n", "", "", "", ""));
    expected.push_str(&format!("| {:<80} | {:<8} | {:<8} | {:<3} |\n", "hello.js", 1, 1, 99));
    expected.push_str(&format!("| {:<80} | {:<8} | {:<8} | {:<3} |\n", "foo/hello2.js", 1, 3, 33));
    expected.push_str("\nTotal curse coverage: 49%");
    assert_eq!(generate_coverage_table(&files, total), expected);
}

#[test]
fn table_without_files_has_head_and_total() {
    let table = generate_coverage_table(&vec![], 0);
    let lines: Vec<&str> = table.split('\n').collect();
    assert_eq!(lines.len(), 4);
    assert_eq!(lines[0].len(), 112);
    assert_eq!(lines[1].len(), 112);
    assert_eq!(lines[2], "");
    assert_eq!(lines[3], "Total curse coverage: 0%");
}

#[test]
fn report_holds_a_table_only_when_asked() {
    let files = vec![counts("a.js", 4, 2)];
    let quiet = report_run(&files, 30, false);
    assert_eq!(quiet.total_coverage, 49);
    assert_eq!(quiet.table, None);
    assert_eq!(quiet.verdict, Ok(()));
    let loud = report_run(&files, 50, true);
    assert_eq!(loud.table, Some(generate_coverage_table(&files, 49)));
    assert_eq!(loud.verdict, Err(Shortfall { expected: 50, actual: 49 }));
}

#[test]
fn shortfall_is_put_into_words() {
    assert_eq!(
        insufficient_coverage_message("100", 33),
        "Insufficient curse word coverage: expected 100% but was 33%."
    );
    assert_eq!(
        insufficient_coverage_message("29.5", 0),
        "Insufficient curse word coverage: expected 29.5% but was 0%."
    );
}

#[test]
fn total_coverage_is_the_same_in_any_order() {
    let a = vec![counts("a.js", 3, 1), counts("b.js", 1, 1), counts("c.js", 7, 2)];
    let b = vec![counts("c.js", 7, 2), counts("a.js", 3, 1), counts("b.js", 1, 1)];
    let c = vec![counts("b.js", 1, 1), counts("c.js", 7, 2), counts("a.js", 3, 1)];
    assert_eq!(calculate_total_curse_coverage(&a), 36);
    assert_eq!(calculate_total_curse_coverage(&b), 36);
    assert_eq!(calculate_total_curse_coverage(&c), 36);
}
