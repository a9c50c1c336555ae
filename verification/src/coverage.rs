//! Comment counts of a file, and the coverage ratio of a file and of a run.

use vstd::prelude::*;
use vstd::arithmetic::div_mod::{lemma_div_is_ordered, lemma_div_is_ordered_by_denominator, lemma_fundamental_div_mod};
use crate::error::CursecovError;

verus! {

/// The coverage of `curse` cursed comments among `total` comments, in whole
/// percent: the floor of `100 * curse / (total + 1/10000)`.
///
/// The ten-thousandth in the denominator makes the coverage of no comments 0.
/// With both sides of the fraction scaled by 10000 it is a quotient of integers.
pub open spec fn coverage(curse: nat, total: nat) -> nat {
    (1_000_000 * curse) / (10_000 * total + 1)
}

/// What a [`FileCountAnalysis`] holds.
pub struct FileCounts {
    pub path: Seq<char>,
    pub comment_count: nat,
    pub curse_comment_count: nat,
}

/// The comments of one file, counted: how many there are, and how many of
/// them hold a curse word. Never more cursed comments than comments.
#[derive(Debug, PartialEq, Eq)]
pub struct FileCountAnalysis {
    path: String,
    comment_count: u32,
    curse_comment_count: u32,
}

impl View for FileCountAnalysis {
    type V = FileCounts;

    closed spec fn view(&self) -> FileCounts {
        FileCounts {
            path: self.path@,
            comment_count: self.comment_count as nat,
            curse_comment_count: self.curse_comment_count as nat,
        }
    }
}

impl Clone for FileCountAnalysis {
    fn clone(&self) -> (copy: Self)
        ensures
            copy@ == self@,
    {
        proof {
            use_type_invariant(self);
        }
        FileCountAnalysis {
            path: self.path.clone(),
            comment_count: self.comment_count,
            curse_comment_count: self.curse_comment_count,
        }
    }
}

impl FileCountAnalysis {
    #[verifier::type_invariant]
    spec fn counts_ordered(&self) -> bool {
        self.curse_comment_count <= self.comment_count
    }

    /// The analysis of the file at `path` with these counts; `None` where
    /// more comments are said to be cursed than there are.
    pub fn new(path: String, comment_count: u32, curse_comment_count: u32) -> (r: Option<Self>)
        ensures
            r.is_some() <==> curse_comment_count <= comment_count,
            r matches Some(a) ==> a@ == (FileCounts {
                path: path@,
                comment_count: comment_count as nat,
                curse_comment_count: curse_comment_count as nat,
            }),
    {
        if curse_comment_count <= comment_count {
            Some(FileCountAnalysis { path, comment_count, curse_comment_count })
        } else {
            None
        }
    }

    /// The path of the file.
    pub fn path(&self) -> (p: &String)
        ensures
            p@ == self@.path,
    {
        &self.path
    }

    /// The number of comments in the file.
    pub fn comment_count(&self) -> (n: u32)
        ensures
            n == self@.comment_count,
            self@.curse_comment_count <= n,
    {
        proof {
            use_type_invariant(self);
        }
        self.comment_count
    }

    /// The number of comments in the file that hold a curse word.
    pub fn curse_comment_count(&self) -> (n: u32)
        ensures
            n == self@.curse_comment_count,
            n <= self@.comment_count,
    {
        proof {
            use_type_invariant(self);
        }
        self.curse_comment_count
    }

    /// The coverage of this file alone, in whole percent.
    pub fn coverage(&self) -> (pct: u64)
        ensures
            pct == coverage(self@.curse_comment_count, self@.comment_count),
            pct <= 99,
    {
        proof {
            use_type_invariant(self);
            lemma_coverage_below_hundred(self@.curse_comment_count, self@.comment_count);
        }
        coverage_percent(self.curse_comment_count, self.comment_count)
    }
}

/// The coverage of `curse` cursed comments among `total` comments, in whole percent.
pub fn coverage_percent(curse: u32, total: u32) -> (pct: u64)
    ensures
        pct == coverage(curse as nat, total as nat),
{
    let scaled: u64 = 1_000_000u64 * (curse as u64);
    let divisor: u64 = 10_000u64 * (total as u64) + 1u64;
    scaled / divisor
}

/// The comments of all the files together.
pub open spec fn total_comments(analyses: Seq<FileCountAnalysis>) -> nat
    decreases analyses.len(),
{
    if analyses.len() == 0 {
        0
    } else {
        total_comments(analyses.drop_last()) + analyses.last()@.comment_count
    }
}

/// The cursed comments of all the files together.
pub open spec fn total_curse_comments(analyses: Seq<FileCountAnalysis>) -> nat
    decreases analyses.len(),
{
    if analyses.len() == 0 {
        0
    } else {
        total_curse_comments(analyses.drop_last()) + analyses.last()@.curse_comment_count
    }
}

/// The coverage of a run: that of the summed counts, so that each file
/// weighs as much as it has comments. It is not the mean of the files' coverages.
pub open spec fn total_coverage(analyses: Seq<FileCountAnalysis>) -> nat {
    coverage(total_curse_comments(analyses), total_comments(analyses))
}

/// The cursed comments and the comments of all the files together, in this order.
pub fn sum_counts(analyses: &Vec<FileCountAnalysis>) -> (sums: (u128, u128))
    ensures
        sums.0 == total_curse_comments(analyses@),
        sums.1 == total_comments(analyses@),
        sums.0 <= sums.1,
        sums.1 <= analyses@.len() * 0xffff_ffff,
{
    let mut curse: u128 = 0;
    let mut comments: u128 = 0;
    let mut i: usize = 0;
    proof {
        assert(analyses@.take(0) =~= Seq::<FileCountAnalysis>::empty());
    }
    while i < analyses.len()
        invariant
            i <= analyses.len(),
            curse == total_curse_comments(analyses@.take(i as int)),
            comments == total_comments(analyses@.take(i as int)),
            curse <= comments,
            comments <= i * 0xffff_ffff,
        decreases analyses.len() - i,
    {
        let file_curse = analyses[i].curse_comment_count();
        let file_comments = analyses[i].comment_count();
        proof {
            let next = analyses@.take(i + 1);
            assert(next.drop_last() =~= analyses@.take(i as int));
            assert(next.last() == analyses@[i as int]);
            assert((i + 1) * 0xffff_ffff == i * 0xffff_ffff + 0xffff_ffff) by (nonlinear_arith);
            assert(i * 0xffff_ffff <= 0xffff_ffff_ffff_ffff * 0xffff_ffff) by (nonlinear_arith)
                requires
                    i <= 0xffff_ffff_ffff_ffff,
            ;
        }
        curse = curse + file_curse as u128;
        comments = comments + file_comments as u128;
        i += 1;
    }
    proof {
        assert(analyses@.take(analyses.len() as int) =~= analyses@);
    }
    (curse, comments)
}

/// The coverage of a run over these files, in whole percent.
pub fn calculate_total_curse_coverage(analyses: &Vec<FileCountAnalysis>) -> (pct: u64)
    ensures
        pct == total_coverage(analyses@),
        pct <= 99,
{
    let (curse, comments) = sum_counts(analyses);
    let files = analyses.len();
    proof {
        assert(analyses@.len() * 0xffff_ffff <= 0xffff_ffff_ffff_ffff * 0xffff_ffff) by (nonlinear_arith)
            requires
                analyses@.len() <= 0xffff_ffff_ffff_ffff,
        ;
        lemma_coverage_below_hundred(curse as nat, comments as nat);
    }
    let scaled: u128 = 1_000_000u128 * curse;
    let divisor: u128 = 10_000u128 * comments + 1u128;
    (scaled / divisor) as u64
}

/// A run that is short of the coverage asked for.
#[derive(Debug, Clone, Copy, PartialEq, Eq, Structural)]
pub struct Shortfall {
    /// The least coverage that passes, in whole percent.
    pub expected: u64,
    /// The coverage of the run, in whole percent.
    pub actual: u64,
}

/// Whether a run with this coverage passes: it does when the coverage is
/// at least `min_coverage`. What falls short is reported with both numbers.
pub fn check_coverage(total_coverage: u64, min_coverage: u64) -> (r: Result<(), Shortfall>)
    ensures
        r.is_ok() <==> total_coverage >= min_coverage,
        r matches Err(s) ==> s == (Shortfall { expected: min_coverage, actual: total_coverage }),
{
    if total_coverage >= min_coverage {
        Ok(())
    } else {
        Err(Shortfall { expected: min_coverage, actual: total_coverage })
    }
}

/// The least coverage that a run must reach, where it lies within 0 to 100
/// percent; anything else is a configuration error.
pub fn validate_min_coverage(min_coverage: i64) -> (r: Result<u64, CursecovError>)
    ensures
        r.is_ok() <==> 0 <= min_coverage <= 100,
        r matches Ok(m) ==> m == min_coverage,
        r matches Err(e) ==> e == CursecovError::Config,
{
    if 0 <= min_coverage && min_coverage <= 100 {
        Ok(min_coverage as u64)
    } else {
        Err(CursecovError::Config)
    }
}

/// In every list of files, no more comments are cursed than there are.
pub proof fn lemma_totals_ordered(analyses: Seq<FileCountAnalysis>)
    requires
        forall|i: int| 0 <= i < analyses.len() ==> #[trigger] analyses[i]@.curse_comment_count <= analyses[i]@.comment_count,
    ensures
        total_curse_comments(analyses) <= total_comments(analyses),
    decreases analyses.len(),
{
    if analyses.len() > 0 {
        lemma_totals_ordered(analyses.drop_last());
    }
}

/// The totals of two lists of files, one after the other, are the sums of
/// the totals of each.
pub proof fn lemma_totals_of_concat(a: Seq<FileCountAnalysis>, b: Seq<FileCountAnalysis>)
    ensures
        total_comments(a + b) == total_comments(a) + total_comments(b),
        total_curse_comments(a + b) == total_curse_comments(a) + total_curse_comments(b),
    decreases b.len(),
{
    if b.len() == 0 {
        assert(a + b =~= a);
    } else {
        lemma_totals_of_concat(a, b.drop_last());
        assert((a + b).drop_last() =~= a + b.drop_last());
        assert((a + b).last() == b.last());
    }
}

/// The totals of a list of files are those of the list without one file, and that file's counts.
pub proof fn lemma_totals_of_removal(analyses: Seq<FileCountAnalysis>, k: int)
    requires
        0 <= k < analyses.len(),
    ensures
        total_comments(analyses) == total_comments(analyses.remove(k))
            + analyses[k]@.comment_count,
        total_curse_comments(analyses) == total_curse_comments(analyses.remove(k))
            + analyses[k]@.curse_comment_count,
{
    let head = analyses.take(k);
    let tail = analyses.skip(k + 1);
    let with = head.push(analyses[k]);
    assert(analyses =~= with + tail);
    assert(analyses.remove(k) =~= head + tail);
    assert(with.drop_last() =~= head);
    lemma_totals_of_concat(with, tail);
    lemma_totals_of_concat(head, tail);
}

/// The totals and the coverage of a run do not depend on the order of the
/// files: two lists that hold the same files, each as often, give the same.
pub proof fn lemma_total_coverage_ignores_order(a: Seq<FileCountAnalysis>, b: Seq<FileCountAnalysis>)
    requires
        a.to_multiset() == b.to_multiset(),
    ensures
        total_comments(a) == total_comments(b),
        total_curse_comments(a) == total_curse_comments(b),
        total_coverage(a) == total_coverage(b),
    decreases a.len(),
{
    a.to_multiset_ensures();
    b.to_multiset_ensures();
    if a.len() > 0 {
        let x = a.last();
        let rest = a.drop_last();
        rest.to_multiset_ensures();
        assert(a =~= rest.push(x));
        assert(a.to_multiset().count(x) > 0);
        assert(b.contains(x));
        let k = choose|k: int| 0 <= k < b.len() && b[k] == x;
        assert(rest.to_multiset() =~= a.to_multiset().remove(x));
        assert(b.remove(k).to_multiset() =~= rest.to_multiset());
        lemma_total_coverage_ignores_order(rest, b.remove(k));
        lemma_totals_of_removal(b, k);
    }
}

/// No comments, or no cursed ones, give a coverage of 0.
pub proof fn lemma_coverage_without_curses(total: nat)
    ensures
        coverage(0, total) == 0,
{
}

/// While no more comments are cursed than there are, the coverage stays
/// under 100: the ten-thousandth keeps even a fully cursed file at 99.
pub proof fn lemma_coverage_below_hundred(curse: nat, total: nat)
    requires
        curse <= total,
    ensures
        coverage(curse, total) <= 99,
{
    let d = (10_000 * total + 1) as int;
    let n = (1_000_000 * curse) as int;
    lemma_fundamental_div_mod(n, d);
    assert(n < 100 * d);
    assert(n / d < 100) by (nonlinear_arith)
        requires
            n == d * (n / d) + n % d,
            0 <= n % d,
            n < 100 * d,
            d > 0,
    ;
}

/// The coverage does not fall when more comments are cursed among as many.
pub proof fn lemma_coverage_grows_with_curses(curse_a: nat, curse_b: nat, total: nat)
    requires
        curse_a <= curse_b,
    ensures
        coverage(curse_a, total) <= coverage(curse_b, total),
{
    lemma_div_is_ordered(
        (1_000_000 * curse_a) as int,
        (1_000_000 * curse_b) as int,
        (10_000 * total + 1) as int,
    );
}

/// The coverage does not rise when there are more comments and as many cursed ones.
pub proof fn lemma_coverage_falls_with_comments(curse: nat, total_a: nat, total_b: nat)
    requires
        total_a <= total_b,
    ensures
        coverage(curse, total_a) >= coverage(curse, total_b),
{
    lemma_div_is_ordered_by_denominator(
        (1_000_000 * curse) as int,
        (10_000 * total_a + 1) as int,
        (10_000 * total_b + 1) as int,
    );
}

} // verus!
