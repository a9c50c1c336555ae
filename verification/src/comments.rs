//! The comments of a source file, and how many of them are cursed.

use vstd::prelude::*;
use crate::coverage::{FileCountAnalysis, FileCounts};
use crate::error::{CursecovError, ErrorKind};
use crate::paths::views;
use crate::vocabulary::{is_cursed, vocabulary_compiles, CurseMatcher};

verus! {

/// `oxc_span::SourceType`, the dialect that a source is read in; nothing inside it is seen here.
#[verifier::external_type_specification]
#[verifier::external_body]
pub struct ExSourceType(oxc_span::SourceType);

/// `oxc_span::UnknownExtension`, the error of a path without a known extension; only passed on.
#[verifier::external_type_specification]
#[verifier::external_body]
pub struct ExUnknownExtension(oxc_span::UnknownExtension);

/// What `oxc_parser::Parser::parse` makes of `source` read in `dialect`,
/// with regular expression literals parsed too: whether the parser gave up,
/// and the text of each comment in the order of the source, without its
/// `//` or `/*` and `*/`.
pub uninterp spec fn parse_outcome(source: Seq<char>, dialect: oxc_span::SourceType) -> (
    bool,
    Seq<Seq<char>>,
);

/// The dialect that `oxc_span::SourceType::from_path` reads off the file
/// name and the extension of `path`; `None` where it finds no file name or
/// no extension that it knows.
pub uninterp spec fn path_dialect(path: Seq<char>) -> Option<oxc_span::SourceType>;

/// Calls `oxc_span::SourceType::from_path`: the dialect, or the error,
/// depends on the path alone.
#[verifier::external_body]
fn dialect_of_path(path: &str) -> (r: Result<oxc_span::SourceType, oxc_span::UnknownExtension>)
    ensures
        r matches Ok(dialect) ==> path_dialect(path@) == Some(dialect),
        r is Err ==> path_dialect(path@) is None,
{
    oxc_span::SourceType::from_path(path)
}

/// Calls `oxc_parser::Parser::parse` on `source`, with the parsing of
/// regular expression literals switched on, and hands back its `panicked`
/// flag and the content of each comment of the program as a string. Both
/// depend on the source and the dialect alone.
#[verifier::external_body]
fn parse_comments(source: &str, dialect: oxc_span::SourceType) -> (r: (bool, Vec<String>))
    ensures
        r.0 == parse_outcome(source@, dialect).0,
        views(r.1@) == parse_outcome(source@, dialect).1,
{
    let allocator = oxc_allocator::Allocator::default();
    let options = oxc_parser::ParseOptions {
        parse_regular_expression: true,
        ..oxc_parser::ParseOptions::default()
    };
    let ret = oxc_parser::Parser::new(&allocator, source, dialect).with_options(options).parse();
    let comments =
        ret.program.comments.iter().map(|c| c.content_span().source_text(source).to_string()).collect();
    (ret.panicked, comments)
}

/// A file as it was found: its path, and its text or the reason why it could not be read.
#[derive(Debug)]
pub struct SourceFile {
    pub path: String,
    pub contents: Result<String, String>,
}

/// How the analysis of one file ends: with its counts, or with the kind of
/// the error and the text that the error carries.
pub type Outcome = Result<FileCounts, (ErrorKind, Seq<char>)>;

/// The outcome that a result of the analysis stands for.
pub open spec fn outcome_of(r: Result<FileCountAnalysis, CursecovError>) -> Outcome {
    match r {
        Ok(analysis) => Ok(analysis@),
        Err(e) => Err((e.spec_kind(), e.spec_detail())),
    }
}

/// How many of `comments` are cursed.
pub open spec fn count_cursed(comments: Seq<Seq<char>>) -> nat
    decreases comments.len(),
{
    if comments.len() == 0 {
        0
    } else {
        count_cursed(comments.drop_last()) + if is_cursed(comments.last()) {
            1nat
        } else {
            0nat
        }
    }
}

/// The outcome for a file at `path` with the text `source`, read in
/// `dialect`: a parse error where the parser gave up or found more comments
/// than a count can hold, else the number of its comments and of the cursed ones.
pub open spec fn source_outcome(path: Seq<char>, source: Seq<char>, dialect: oxc_span::SourceType) -> Outcome {
    let (gave_up, comments) = parse_outcome(source, dialect);
    if gave_up || comments.len() > u32::MAX {
        Err((ErrorKind::Parse, path))
    } else {
        Ok(
            FileCounts {
                path,
                comment_count: comments.len(),
                curse_comment_count: count_cursed(comments),
            },
        )
    }
}

/// The outcome for `file`. A file that could not be read ends with a
/// filesystem error that carries the reason. One whose path has no known
/// dialect ends with a dialect error that carries the path. Any other ends
/// as its text does in the dialect of its path.
pub open spec fn file_outcome(file: SourceFile) -> Outcome {
    match file.contents {
        Err(reason) => Err((ErrorKind::Filesystem, reason@)),
        Ok(text) => match path_dialect(file.path@) {
            None => Err((ErrorKind::Dialect, file.path@)),
            Some(dialect) => source_outcome(file.path@, text@, dialect),
        },
    }
}

/// The outcome of a run over `files`: the counts of each file, in the order
/// of the files, or the error of the first file that has one.
pub open spec fn run_outcome(files: Seq<SourceFile>) -> Result<Seq<FileCounts>, (ErrorKind, Seq<char>)>
    decreases files.len(),
{
    if files.len() == 0 {
        Ok(Seq::empty())
    } else {
        match run_outcome(files.drop_last()) {
            Err(e) => Err(e),
            Ok(counts) => match file_outcome(files.last()) {
                Err(e) => Err(e),
                Ok(c) => Ok(counts.push(c)),
            },
        }
    }
}

/// What each of `analyses` holds.
pub open spec fn counts_of(analyses: Seq<FileCountAnalysis>) -> Seq<FileCounts> {
    analyses.map_values(|a: FileCountAnalysis| a@)
}

/// The outcome that a result of a run stands for.
pub open spec fn run_outcome_of(r: Result<Vec<FileCountAnalysis>, CursecovError>) -> Result<
    Seq<FileCounts>,
    (ErrorKind, Seq<char>),
> {
    match r {
        Ok(analyses) => Ok(counts_of(analyses@)),
        Err(e) => Err((e.spec_kind(), e.spec_detail())),
    }
}

/// No more comments are cursed than there are.
pub proof fn lemma_cursed_are_comments(comments: Seq<Seq<char>>)
    ensures
        count_cursed(comments) <= comments.len(),
    decreases comments.len(),
{
    if comments.len() > 0 {
        lemma_cursed_are_comments(comments.drop_last());
    }
}

/// Whatever a file holds, its counts never show more cursed comments than comments.
pub proof fn lemma_file_counts_ordered(file: SourceFile)
    ensures
        file_outcome(file) matches Ok(counts) ==> counts.curse_comment_count
            <= counts.comment_count,
{
    if let Ok(text) = file.contents {
        if let Some(dialect) = path_dialect(file.path@) {
            lemma_cursed_are_comments(parse_outcome(text@, dialect).1);
        }
    }
}

/// How many of `comments` the matcher finds cursed.
pub fn count_curse_comments_among(comments: &Vec<String>, matcher: &CurseMatcher) -> (n: usize)
    ensures
        n == count_cursed(views(comments@)),
        n <= comments@.len(),
{
    let mut n: usize = 0;
    let mut i: usize = 0;
    proof {
        assert(views(comments@).take(0) =~= Seq::<Seq<char>>::empty());
    }
    while i < comments.len()
        invariant
            i <= comments.len(),
            n <= i,
            n == count_cursed(views(comments@).take(i as int)),
        decreases comments.len() - i,
    {
        let cursed = matcher.matches(comments[i].as_str());
        proof {
            let next = views(comments@).take(i + 1);
            assert(next.drop_last() =~= views(comments@).take(i as int));
            assert(next.last() == comments@[i as int]@);
        }
        if cursed {
            n += 1;
        }
        i += 1;
    }
    proof {
        assert(views(comments@).take(comments.len() as int) =~= views(comments@));
    }
    n
}

/// Counts the comments of `source`, the text of the file at `path`, read in
/// `dialect`, and those among them that are cursed.
pub fn count_curse_comments_in_source(
    path: &str,
    source: &str,
    dialect: oxc_span::SourceType,
    matcher: &CurseMatcher,
) -> (r: Result<FileCountAnalysis, CursecovError>)
    ensures
        outcome_of(r) == source_outcome(path@, source@, dialect),
{
    let (gave_up, comments) = parse_comments(source, dialect);
    if gave_up || comments.len() > u32::MAX as usize {
        return Err(CursecovError::Parse(path.to_owned()));
    }
    let cursed = count_curse_comments_among(&comments, matcher);
    match FileCountAnalysis::new(path.to_owned(), comments.len() as u32, cursed as u32) {
        Some(analysis) => Ok(analysis),
        None => Err(CursecovError::Parse(path.to_owned())),
    }
}

/// Counts the comments of one file, and those among them that are cursed.
/// The dialect is read off the path only once the file's text is there.
pub fn count_curse_comments_in_file(file: &SourceFile, matcher: &CurseMatcher) -> (r: Result<
    FileCountAnalysis,
    CursecovError,
>)
    ensures
        outcome_of(r) == file_outcome(*file),
{
    match &file.contents {
        Err(reason) => Err(CursecovError::Filesystem(reason.clone())),
        Ok(text) => match dialect_of_path(file.path.as_str()) {
            Err(_) => Err(CursecovError::Dialect(file.path.clone())),
            Ok(dialect) => count_curse_comments_in_source(
                file.path.as_str(),
                text.as_str(),
                dialect,
                matcher,
            ),
        },
    }
}

/// Counts the comments of each file with the given matcher. The first file
/// that fails ends the run with its error, and nothing is reported of the others.
pub fn count_curse_comments_with(files: &Vec<SourceFile>, matcher: &CurseMatcher) -> (r: Result<
    Vec<FileCountAnalysis>,
    CursecovError,
>)
    ensures
        run_outcome_of(r) == run_outcome(files@),
{
    let mut analyses: Vec<FileCountAnalysis> = Vec::new();
    let mut i: usize = 0;
    proof {
        assert(files@.take(0) =~= Seq::<SourceFile>::empty());
        assert(counts_of(analyses@) =~= Seq::<FileCounts>::empty());
    }
    while i < files.len()
        invariant
            i <= files.len(),
            run_outcome(files@.take(i as int)) == Ok::<Seq<FileCounts>, (ErrorKind, Seq<char>)>(
                counts_of(analyses@),
            ),
        decreases files.len() - i,
    {
        let ghost before = analyses@;
        proof {
            let next = files@.take(i + 1);
            assert(next.drop_last() =~= files@.take(i as int));
            assert(next.last() == files@[i as int]);
        }
        match count_curse_comments_in_file(&files[i], matcher) {
            Ok(analysis) => {
                analyses.push(analysis);
                proof {
                    assert(counts_of(analyses@) =~= counts_of(before).push(analysis@));
                }
            },
            Err(e) => {
                proof {
                    lemma_failure_ends_run(files@, i + 1);
                }
                return Err(e);
            },
        }
        i += 1;
    }
    proof {
        assert(files@.take(files.len() as int) =~= files@);
    }
    Ok(analyses)
}

/// Once the first `n` files end in an error, so does every longer run, in the same one.
pub proof fn lemma_failure_ends_run(files: Seq<SourceFile>, n: int)
    requires
        0 <= n <= files.len(),
        run_outcome(files.take(n)) is Err,
    ensures
        run_outcome(files) == run_outcome(files.take(n)),
    decreases files.len(),
{
    if n == files.len() {
        assert(files.take(n) =~= files);
    } else {
        assert(files.drop_last().take(n) =~= files.take(n));
        lemma_failure_ends_run(files.drop_last(), n);
    }
}

/// Counts the comments of each file, and those among them that are cursed.
/// Where there is a file to inspect and the regex engine refuses the curse
/// words, the run ends with a vocabulary error; in every other case it ends
/// as the files do.
pub fn count_curse_comments(files: &Vec<SourceFile>) -> (r: Result<
    Vec<FileCountAnalysis>,
    CursecovError,
>)
    ensures
        files@.len() == 0 || vocabulary_compiles() ==> run_outcome_of(r) == run_outcome(files@),
        files@.len() > 0 && !vocabulary_compiles() ==> r == Err::<
            Vec<FileCountAnalysis>,
            CursecovError,
        >(CursecovError::Vocabulary),
{
    if files.len() == 0 {
        let none: Vec<FileCountAnalysis> = Vec::new();
        assert(counts_of(none@) =~= Seq::<FileCounts>::empty());
        return Ok(none);
    }
    match CurseMatcher::new() {
        Ok(matcher) => count_curse_comments_with(files, &matcher),
        Err(e) => Err(e),
    }
}

} // verus!
