//! A whole run over files that were found and read: counts, coverage, table and verdict.

use vstd::prelude::*;
use crate::comments::{count_curse_comments, counts_of, file_outcome, run_outcome, SourceFile};
use crate::coverage::FileCounts;
use crate::error::ErrorKind;
use crate::coverage::{
    calculate_total_curse_coverage, check_coverage, total_coverage, validate_min_coverage,
    FileCountAnalysis, Shortfall,
};
use crate::error::CursecovError;
use crate::paths::{kept_paths, lemma_ignored_path_is_excluded, lemma_kept_paths_are_the_difference};
use crate::report::{coverage_table, generate_coverage_table};
use crate::vocabulary::vocabulary_compiles;

verus! {

/// What a run found.
#[derive(Debug)]
pub struct RunReport {
    /// The coverage of the run, in whole percent.
    pub total_coverage: u64,
    /// The table of the run, where one was asked for.
    pub table: Option<String>,
    /// Whether the coverage reaches the least coverage asked for.
    pub verdict: Result<(), Shortfall>,
}

/// Whether `report` is the report on `analyses` for the least coverage
/// `min_coverage`, with a table exactly where `verbose` is set.
pub open spec fn reports_on(
    report: RunReport,
    analyses: Seq<FileCountAnalysis>,
    min_coverage: nat,
    verbose: bool,
) -> bool {
    &&& report.total_coverage == total_coverage(analyses)
    &&& report.table.is_some() == verbose
    &&& report.table matches Some(table) ==> table@ == coverage_table(
        analyses,
        total_coverage(analyses),
    )
    &&& report.verdict.is_ok() <==> total_coverage(analyses) >= min_coverage
    &&& report.verdict matches Err(s) ==> s.expected == min_coverage && s.actual == total_coverage(
        analyses,
    )
}

/// The report on files that were analysed: the coverage of the run, its
/// table where `verbose` is set, and whether the coverage reaches `min_coverage`.
pub fn report_run(analyses: &Vec<FileCountAnalysis>, min_coverage: u64, verbose: bool) -> (report:
    RunReport)
    ensures
        reports_on(report, analyses@, min_coverage as nat, verbose),
{
    let total = calculate_total_curse_coverage(analyses);
    let table = if verbose {
        Some(generate_coverage_table(analyses, total))
    } else {
        None
    };
    RunReport { total_coverage: total, table, verdict: check_coverage(total, min_coverage) }
}

/// A run over files that were found and read. A least coverage outside of
/// 0 to 100 is a configuration error, whatever the files hold. Else, where
/// there is a file and the regex engine refuses the curse words, the run
/// ends with a vocabulary error. Else the first file that fails ends the
/// run with its error, and where none does the run is reported. A coverage that falls short is no error: the report
/// holds it as its verdict.
pub fn run_cursecov(files: &Vec<SourceFile>, min_coverage: i64, verbose: bool) -> (r: Result<
    RunReport,
    CursecovError,
>)
    ensures
        !(0 <= min_coverage <= 100) ==> r == Err::<RunReport, CursecovError>(CursecovError::Config),
        0 <= min_coverage <= 100 && files@.len() > 0 && !vocabulary_compiles() ==> r == Err::<
            RunReport,
            CursecovError,
        >(CursecovError::Vocabulary),
        0 <= min_coverage <= 100 && (files@.len() == 0 || vocabulary_compiles()) ==> match r {
            Ok(report) => exists|analyses: Seq<FileCountAnalysis>|
                #![trigger counts_of(analyses)]
                run_outcome(files@) == Ok::<Seq<FileCounts>, (ErrorKind, Seq<char>)>(
                    counts_of(analyses),
                ) && reports_on(report, analyses, min_coverage as nat, verbose),
            Err(e) => run_outcome(files@) == Err::<Seq<FileCounts>, (ErrorKind, Seq<char>)>(
                (e.spec_kind(), e.spec_detail()),
            ),
        },
{
    let min = match validate_min_coverage(min_coverage) {
        Ok(min) => min,
        Err(e) => {
            return Err(e);
        },
    };
    match count_curse_comments(files) {
        Ok(analyses) => {
            let report = report_run(&analyses, min, verbose);
            assert(run_outcome(files@) == Ok::<Seq<FileCounts>, (ErrorKind, Seq<char>)>(
                counts_of(analyses@),
            ));
            Ok(report)
        },
        Err(e) => Err(e),
    }
}

/// The paths of the files, in their order.
pub open spec fn paths_of(files: Seq<SourceFile>) -> Seq<Seq<char>> {
    files.map_values(|f: SourceFile| f.path@)
}

/// The paths that the counts are for, in their order.
pub open spec fn counted_paths(counts: Seq<FileCounts>) -> Seq<Seq<char>> {
    counts.map_values(|c: FileCounts| c.path)
}

/// A run that ends with counts has counted each file once, in the order of the files.
pub proof fn lemma_run_counts_each_file(files: Seq<SourceFile>)
    ensures
        run_outcome(files) matches Ok(counts) ==> counted_paths(counts) == paths_of(files),
    decreases files.len(),
{
    if files.len() > 0 {
        lemma_run_counts_each_file(files.drop_last());
        if let Ok(counts) = run_outcome(files) {
            let before = run_outcome(files.drop_last())->Ok_0;
            let last = file_outcome(files.last())->Ok_0;
            assert(counts == before.push(last));
            assert(last.path == files.last().path@);
            assert(paths_of(files) =~= paths_of(files.drop_last()).push(files.last().path@));
            assert(counted_paths(counts) =~= counted_paths(before).push(last.path));
        }
    } else {
        assert(counted_paths(Seq::<FileCounts>::empty()) =~= paths_of(files));
    }
}

/// A run over the files at the resolved paths counts exactly the included
/// paths that are not ignored: each of them once, none of the ignored ones,
/// and as many entries as there are such paths.
pub proof fn lemma_run_over_resolved_paths(
    included: Seq<Seq<char>>,
    ignored: Set<Seq<char>>,
    files: Seq<SourceFile>,
)
    requires
        paths_of(files) == kept_paths(included, ignored),
    ensures
        run_outcome(files) matches Ok(counts) ==> {
            &&& counted_paths(counts) == kept_paths(included, ignored)
            &&& counted_paths(counts).to_set() == included.to_set().difference(ignored)
            &&& counted_paths(counts).no_duplicates()
            &&& counts.len() == included.to_set().difference(ignored).len()
            &&& forall|path: Seq<char>|
                ignored.contains(path) ==> !counted_paths(counts).contains(path)
        },
{
    if let Ok(counts) = run_outcome(files) {
        lemma_run_counts_each_file(files);
        lemma_kept_paths_are_the_difference(included, ignored);
        counted_paths(counts).unique_seq_to_set();
        assert forall|path: Seq<char>| ignored.contains(path) implies !counted_paths(
            counts,
        ).contains(path) by {
            lemma_ignored_path_is_excluded(included, ignored, path);
        }
    }
}

} // verus!
