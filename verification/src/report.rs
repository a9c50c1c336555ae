//! The table of a run: a row of counts for each file, and the coverage of the run.

use vstd::prelude::*;
use vstd::string::{StrSliceExecFns, StringExecFns};
use crate::coverage::{coverage, FileCountAnalysis};

verus! {

/// The decimal digit for `d`.
pub open spec fn digit(d: nat) -> char {
    if d == 0 {
        '0'
    } else if d == 1 {
        '1'
    } else if d == 2 {
        '2'
    } else if d == 3 {
        '3'
    } else if d == 4 {
        '4'
    } else if d == 5 {
        '5'
    } else if d == 6 {
        '6'
    } else if d == 7 {
        '7'
    } else if d == 8 {
        '8'
    } else {
        '9'
    }
}

/// The number `n` in decimal digits, without leading zeros.
pub open spec fn decimal(n: nat) -> Seq<char>
    decreases n,
{
    if n < 10 {
        seq![digit(n)]
    } else {
        decimal(n / 10).push(digit(n % 10))
    }
}

/// `count` times the character `c`.
pub open spec fn repeated(c: char, count: nat) -> Seq<char> {
    Seq::new(count, |i: int| c)
}

/// `text`, followed by as many of `fill` as it is short of `width` characters.
pub open spec fn padded(text: Seq<char>, width: nat, fill: char) -> Seq<char> {
    if text.len() >= width {
        text
    } else {
        text + repeated(fill, (width - text.len()) as nat)
    }
}

/// A path as the table shows it: one of more than 60 characters is cut to
/// its first 30 and its last 30, with three dots between them.
pub open spec fn elided(name: Seq<char>) -> Seq<char> {
    if name.len() > 60 {
        name.take(30) + seq!['.', '.', '.'] + name.skip(name.len() - 30)
    } else {
        name
    }
}

/// One line of the table: four cells, 80, 8, 8 and 3 characters wide at least.
pub open spec fn table_line(
    file: Seq<char>,
    curse: Seq<char>,
    total: Seq<char>,
    percent: Seq<char>,
    fill: char,
) -> Seq<char> {
    seq!['|', ' '] + padded(file, 80, fill) + seq![' ', '|', ' '] + padded(curse, 8, fill) + seq![
        ' ',
        '|',
        ' ',
    ] + padded(total, 8, fill) + seq![' ', '|', ' '] + padded(percent, 3, fill) + seq![
        ' ',
        '|',
        '\n',
    ]
}

/// The line of the table for one file.
pub open spec fn file_line(analysis: FileCountAnalysis) -> Seq<char> {
    table_line(
        elided(analysis@.path),
        decimal(analysis@.curse_comment_count),
        decimal(analysis@.comment_count),
        decimal(coverage(analysis@.curse_comment_count, analysis@.comment_count)),
        ' ',
    )
}

/// The lines of the files, in their order.
pub open spec fn file_lines(analyses: Seq<FileCountAnalysis>) -> Seq<char>
    decreases analyses.len(),
{
    if analyses.len() == 0 {
        Seq::empty()
    } else {
        file_lines(analyses.drop_last()) + file_line(analyses.last())
    }
}

/// The table of a run: the head, a rule, a line for each file, an empty
/// line, and the coverage of the run.
pub open spec fn coverage_table(analyses: Seq<FileCountAnalysis>, total_coverage: nat) -> Seq<char> {
    table_line("file"@, "# curse"@, "# total"@, "%"@, ' ') + table_line(
        Seq::empty(),
        Seq::empty(),
        Seq::empty(),
        Seq::empty(),
        '-',
    ) + file_lines(analyses) + seq!['\n'] + "Total curse coverage: "@ + decimal(total_coverage)
        + seq!['%']
}

fn digit_text(d: u64) -> (text: &'static str)
    requires
        d < 10,
    ensures
        text@ == seq![digit(d as nat)],
{
    proof {
        reveal_strlit("0");
        reveal_strlit("1");
        reveal_strlit("2");
        reveal_strlit("3");
        reveal_strlit("4");
        reveal_strlit("5");
        reveal_strlit("6");
        reveal_strlit("7");
        reveal_strlit("8");
        reveal_strlit("9");
    }
    let text = if d == 0 {
        "0"
    } else if d == 1 {
        "1"
    } else if d == 2 {
        "2"
    } else if d == 3 {
        "3"
    } else if d == 4 {
        "4"
    } else if d == 5 {
        "5"
    } else if d == 6 {
        "6"
    } else if d == 7 {
        "7"
    } else if d == 8 {
        "8"
    } else {
        "9"
    };
    assert(text@ =~= seq![digit(d as nat)]);
    text
}

/// The number `n` in decimal digits.
pub fn decimal_text(n: u64) -> (text: String)
    ensures
        text@ == decimal(n as nat),
    decreases n,
{
    if n < 10 {
        String::from_str(digit_text(n))
    } else {
        let mut text = decimal_text(n / 10);
        text.append(digit_text(n % 10));
        assert(text@ =~= decimal(n as nat));
        text
    }
}

/// A path as the table shows it.
pub fn elide_path(name: &str) -> (shown: String)
    ensures
        shown@ == elided(name@),
{
    let n = name.unicode_len();
    if n > 60 {
        let mut shown = String::from_str(name.substring_char(0, 30));
        shown.append("...");
        shown.append(name.substring_char(n - 30, n));
        proof {
            reveal_strlit("...");
            assert(shown@ =~= elided(name@));
        }
        shown
    } else {
        String::from_str(name)
    }
}

/// Appends `text` to `line`, filled up to `width` characters with spaces,
/// or with dashes where `dashes` is set.
fn append_cell(line: &mut String, text: &str, width: usize, dashes: bool)
    ensures
        final(line)@ == old(line)@ + padded(
            text@,
            width as nat,
            if dashes {
                '-'
            } else {
                ' '
            },
        ),
{
    let ghost before = line@;
    let ghost fill = if dashes {
        '-'
    } else {
        ' '
    };
    let n = text.unicode_len();
    line.append(text);
    let mut i: usize = n;
    proof {
        assert(line@ =~= before + text@ + repeated(fill, 0));
    }
    while i < width
        invariant
            n == text@.len(),
            n <= i,
            n < width ==> i <= width,
            n >= width ==> i == n,
            fill == if dashes {
                '-'
            } else {
                ' '
            },
            line@ == before + text@ + repeated(fill, (i - n) as nat),
        decreases width - i,
    {
        proof {
            reveal_strlit("-");
            reveal_strlit(" ");
        }
        if dashes {
            line.append("-");
        } else {
            line.append(" ");
        }
        i += 1;
        proof {
            assert(line@ =~= before + text@ + repeated(fill, (i - n) as nat));
        }
    }
    proof {
        if n >= width {
            assert(repeated(fill, 0) =~= Seq::<char>::empty());
            assert(line@ =~= before + text@);
        } else {
            assert(line@ =~= before + (text@ + repeated(fill, (width - n) as nat)));
        }
    }
}

/// Appends one line of four cells to `table`.
fn append_line(table: &mut String, file: &str, curse: &str, total: &str, percent: &str, dashes: bool)
    ensures
        final(table)@ == old(table)@ + table_line(
            file@,
            curse@,
            total@,
            percent@,
            if dashes {
                '-'
            } else {
                ' '
            },
        ),
{
    let ghost before = table@;
    proof {
        reveal_strlit("| ");
        reveal_strlit(" | ");
        reveal_strlit(" |\n");
    }
    table.append("| ");
    append_cell(table, file, 80, dashes);
    table.append(" | ");
    append_cell(table, curse, 8, dashes);
    table.append(" | ");
    append_cell(table, total, 8, dashes);
    table.append(" | ");
    append_cell(table, percent, 3, dashes);
    table.append(" |\n");
    proof {
        let fill = if dashes {
            '-'
        } else {
            ' '
        };
        assert("| "@ =~= seq!['|', ' ']);
        assert(" | "@ =~= seq![' ', '|', ' ']);
        assert(" |\n"@ =~= seq![' ', '|', '\n']);
        assert(table@ =~= before + table_line(file@, curse@, total@, percent@, fill));
    }
}

/// The table of a run over these files, whose coverage is `total_coverage`.
pub fn generate_coverage_table(analyses: &Vec<FileCountAnalysis>, total_coverage: u64) -> (table:
    String)
    ensures
        table@ == coverage_table(analyses@, total_coverage as nat),
{
    let mut table = String::new();
    append_line(&mut table, "file", "# curse", "# total", "%", false);
    append_line(&mut table, "", "", "", "", true);
    proof {
        reveal_strlit("");
        assert(""@ =~= Seq::<char>::empty());
        assert(analyses@.take(0) =~= Seq::<FileCountAnalysis>::empty());
    }
    let ghost head = table@;
    assert(head =~= head + file_lines(analyses@.take(0)));
    let mut i: usize = 0;
    while i < analyses.len()
        invariant
            i <= analyses.len(),
            table@ == head + file_lines(analyses@.take(i as int)),
        decreases analyses.len() - i,
    {
        let analysis = &analyses[i];
        let shown = elide_path(analysis.path().as_str());
        let curse = decimal_text(analysis.curse_comment_count() as u64);
        let total = decimal_text(analysis.comment_count() as u64);
        let percent = decimal_text(analysis.coverage());
        append_line(&mut table, shown.as_str(), curse.as_str(), total.as_str(), percent.as_str(), false);
        proof {
            let next = analyses@.take(i + 1);
            assert(next.drop_last() =~= analyses@.take(i as int));
            assert(next.last() == analyses@[i as int]);
            assert(table@ =~= head + file_lines(next));
        }
        i += 1;
    }
    proof {
        assert(analyses@.take(analyses.len() as int) =~= analyses@);
        reveal_strlit("\n");
        reveal_strlit("%");
    }
    table.append("\n");
    table.append("Total curse coverage: ");
    table.append(decimal_text(total_coverage).as_str());
    table.append("%");
    proof {
        assert("\n"@ =~= seq!['\n']);
        assert("%"@ =~= seq!['%']);
        assert(table@ =~= coverage_table(analyses@, total_coverage as nat));
    }
    table
}

/// What is said of a run that falls short: the least coverage as the
/// caller writes it, and the coverage that the run reached.
pub open spec fn shortfall_message(expected: Seq<char>, actual: nat) -> Seq<char> {
    "Insufficient curse word coverage: expected "@ + expected + "% but was "@ + decimal(actual)
        + "%."@
}

/// The message for a run that reached `actual` percent where `expected` were asked for.
pub fn insufficient_coverage_message(expected: &str, actual: u64) -> (message: String)
    ensures
        message@ == shortfall_message(expected@, actual as nat),
{
    let mut message = String::from_str("Insufficient curse word coverage: expected ");
    message.append(expected);
    message.append("% but was ");
    message.append(decimal_text(actual).as_str());
    message.append("%.");
    assert(message@ =~= shortfall_message(expected@, actual as nat));
    message
}

} // verus!
