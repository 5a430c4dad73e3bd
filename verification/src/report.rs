//! The report emitter: the counters of a run as lines of text and as the
//! table from which the chart is drawn.

use vstd::prelude::*;
use vstd::string::StringExecFns;
use crate::dates::day_format;
use crate::dates::day_of;
use crate::dates::day_text;
use crate::dates::shown_day;
use crate::identity::text_of;
use crate::kinds::AnnotationKind;
use crate::stream::CommitRecord;
use crate::text::chars_of;
use crate::totals::Bucket;
use crate::totals::ReportMode;
use crate::totals::RunTotals;
use crate::totals::Totals;

verus! {

/// The character of a decimal digit.
pub open spec fn digit(value: nat) -> char {
    if value == 0 {
        '0'
    } else if value == 1 {
        '1'
    } else if value == 2 {
        '2'
    } else if value == 3 {
        '3'
    } else if value == 4 {
        '4'
    } else if value == 5 {
        '5'
    } else if value == 6 {
        '6'
    } else if value == 7 {
        '7'
    } else if value == 8 {
        '8'
    } else {
        '9'
    }
}

/// A number written in decimal digits, without leading zeros.
pub open spec fn decimal(value: nat) -> Seq<char>
    decreases value,
{
    if value < 10 {
        seq![digit(value)]
    } else {
        decimal(value / 10).push(digit(value % 10))
    }
}

/// The character of a decimal digit.
fn digit_char(value: u64) -> (c: char)
    requires
        value < 10,
    ensures
        c == digit(value as nat),
{
    if value == 0 {
        '0'
    } else if value == 1 {
        '1'
    } else if value == 2 {
        '2'
    } else if value == 3 {
        '3'
    } else if value == 4 {
        '4'
    } else if value == 5 {
        '5'
    } else if value == 6 {
        '6'
    } else if value == 7 {
        '7'
    } else if value == 8 {
        '8'
    } else {
        '9'
    }
}

/// Writes a number in decimal digits.
pub fn decimal_text(value: u64) -> (text: String)
    ensures
        text@ == decimal(value as nat),
    decreases value,
{
    if value < 10 {
        let mut text = String::new();
        text.push(digit_char(value));
        assert(text@ == seq![digit(value as nat)]);
        text
    } else {
        let mut text = decimal_text(value / 10);
        text.push(digit_char(value % 10));
        text
    }
}

/// A label with its count.
pub type Row = (String, u64);

/// The mathematical content of rows: the characters of each label, and its count.
pub open spec fn rows_of(rows: Seq<Row>) -> Seq<(Seq<char>, nat)> {
    rows.map_values(|row: Row| (row.0@, row.1 as nat))
}

/// The buckets of a run with their labels: all three in a single-identity
/// report; in a multi-identity report the authored commits and the commits
/// left over.
pub open spec fn category_rows(totals: Totals) -> Seq<(Seq<char>, nat)> {
    match totals.mode {
        ReportMode::SingleIdentity => seq![
            ("Authored"@, totals.authored),
            ("Touched"@, totals.touched),
            ("Ignored"@, totals.ignored),
        ],
        ReportMode::MultiIdentity => seq![
            ("Authored"@, totals.authored),
            ("No interaction"@, totals.residual()),
        ],
    }
}

/// The annotation counters of a run with their labels, in the fixed order of
/// the kinds.
pub open spec fn annotation_rows(totals: Totals) -> Seq<(Seq<char>, nat)> {
    seq![
        ("Signed-off"@, totals.signed_off),
        ("Reviewed"@, totals.reviewed),
        ("Acked"@, totals.acked),
        ("Tested"@, totals.tested),
        ("Reported"@, totals.reported),
    ]
}

/// The rows of the summary: the commits scanned, then the buckets, then the
/// annotation counters.
pub open spec fn summary_rows_of(totals: Totals) -> Seq<(Seq<char>, nat)> {
    seq![("Total Scanned"@, totals.total_scanned)] + category_rows(totals) + annotation_rows(totals)
}

/// The rows of the chart: the three buckets in a single-identity report; in
/// a multi-identity report the authored commits, every annotation counter
/// and the commits left over. Each of the five kinds has a row of its own,
/// which makes seven rows: every counter that is taken off to find the
/// commits left over is a row, so that no commit scanned is lost from the
/// chart.
pub open spec fn chart_rows_of(totals: Totals) -> Seq<(Seq<char>, nat)> {
    match totals.mode {
        ReportMode::SingleIdentity => category_rows(totals),
        ReportMode::MultiIdentity => seq![("Authored"@, totals.authored)] + annotation_rows(
            totals,
        ) + seq![("No interaction"@, totals.residual())],
    }
}

/// The sum of the counts of the rows of a table.
pub open spec fn values_sum(rows: Seq<(Seq<char>, nat)>) -> nat
    decreases rows.len(),
{
    if rows.len() == 0 {
        0
    } else {
        values_sum(rows.drop_last()) + rows.last().1
    }
}

/// The table of the chart, or none where the run scanned no commit: then no
/// chart is drawn.
pub open spec fn chart_table_of(totals: Totals) -> Option<Seq<(Seq<char>, nat)>> {
    if totals.total_scanned == 0 {
        None
    } else {
        Some(chart_rows_of(totals))
    }
}

/// Adds a row to the end of a table.
fn push_row(rows: &mut Vec<Row>, label: &str, value: u64)
    ensures
        rows_of(final(rows)@) == rows_of(old(rows)@).push((label@, value as nat)),
{
    let ghost before = rows@;
    rows.push((String::from_str(label), value));
    assert(rows_of(rows@) =~= rows_of(before).push((label@, value as nat)));
}

/// Adds the rows of the buckets to the end of a table.
fn push_category_rows(rows: &mut Vec<Row>, totals: &RunTotals)
    ensures
        rows_of(final(rows)@) == rows_of(old(rows)@) + category_rows(totals@),
{
    let ghost before = rows_of(rows@);
    push_row(rows, "Authored", totals.bucket_count(Bucket::Authored));
    match totals.mode() {
        ReportMode::SingleIdentity => {
            push_row(rows, "Touched", totals.bucket_count(Bucket::Touched));
            push_row(rows, "Ignored", totals.bucket_count(Bucket::Ignored));
        },
        ReportMode::MultiIdentity => {
            push_row(rows, "No interaction", totals.residual());
        },
    }
    assert(rows_of(rows@) =~= before + category_rows(totals@));
}

/// The rows of the summary of a run: the commits scanned, then the buckets,
/// then the annotation counters.
pub fn summary_rows(totals: &RunTotals) -> (rows: Vec<Row>)
    ensures
        rows_of(rows@) == summary_rows_of(totals@),
{
    let mut rows: Vec<Row> = Vec::new();
    assert(rows_of(rows@) =~= Seq::empty());
    push_row(&mut rows, "Total Scanned", totals.total_scanned());
    push_category_rows(&mut rows, totals);
    push_row(&mut rows, "Signed-off", totals.counter(AnnotationKind::SignedOffBy));
    push_row(&mut rows, "Reviewed", totals.counter(AnnotationKind::ReviewedBy));
    push_row(&mut rows, "Acked", totals.counter(AnnotationKind::AckedBy));
    push_row(&mut rows, "Tested", totals.counter(AnnotationKind::TestedBy));
    push_row(&mut rows, "Reported", totals.counter(AnnotationKind::ReportedBy));
    assert(rows_of(rows@) =~= summary_rows_of(totals@));
    rows
}

/// The table from which the chart of a run is drawn, or none where the run
/// scanned no commit. The counts of a table add up to at least the number
/// of commits scanned, so a chart that is drawn has a sector that is not
/// empty.
pub fn chart_table(totals: &RunTotals) -> (table: Option<Vec<Row>>)
    ensures
        match table {
            Some(rows) => chart_table_of(totals@) == Some(rows_of(rows@)),
            None => chart_table_of(totals@) is None,
        },
        table matches Some(rows) ==> values_sum(rows_of(rows@)) >= totals@.total_scanned >= 1,
{
    if totals.total_scanned() == 0 {
        return None;
    }
    let mut rows: Vec<Row> = Vec::new();
    assert(rows_of(rows@) =~= Seq::empty());
    match totals.mode() {
        ReportMode::SingleIdentity => {
            push_category_rows(&mut rows, totals);
        },
        ReportMode::MultiIdentity => {
            push_row(&mut rows, "Authored", totals.authored());
            push_row(&mut rows, "Signed-off", totals.counter(AnnotationKind::SignedOffBy));
            push_row(&mut rows, "Reviewed", totals.counter(AnnotationKind::ReviewedBy));
            push_row(&mut rows, "Acked", totals.counter(AnnotationKind::AckedBy));
            push_row(&mut rows, "Tested", totals.counter(AnnotationKind::TestedBy));
            push_row(&mut rows, "Reported", totals.counter(AnnotationKind::ReportedBy));
            push_row(&mut rows, "No interaction", totals.residual());
        },
    }
    assert(rows_of(rows@) =~= chart_rows_of(totals@));
    proof {
        lemma_chart_accounts_for_every_commit(totals@);
    }
    Some(rows)
}

/// Adding a row to a table adds its count to the sum of the counts.
pub proof fn lemma_sum_with_row(rows: Seq<(Seq<char>, nat)>, row: (Seq<char>, nat))
    ensures
        values_sum(rows.push(row)) == values_sum(rows) + row.1,
{
    assert(rows.push(row).drop_last() == rows);
}

/// The rows of the chart account for every commit scanned: their counts add
/// up to at least the number of commits scanned. In a single-identity
/// report they add up to exactly that number; in a multi-identity report
/// every counter that the commits left over are reduced by is a row.
pub proof fn lemma_chart_accounts_for_every_commit(totals: Totals)
    requires
        totals.consistent(),
    ensures
        values_sum(chart_rows_of(totals)) >= totals.total_scanned,
        totals.mode == ReportMode::SingleIdentity ==> values_sum(chart_rows_of(totals))
            == totals.total_scanned,
        totals.mode == ReportMode::MultiIdentity ==> values_sum(chart_rows_of(totals))
            == totals.authored + totals.annotation_sum() + totals.residual(),
{
    let none = Seq::<(Seq<char>, nat)>::empty();
    assert(values_sum(none) == 0);
    match totals.mode {
        ReportMode::SingleIdentity => {
            let one = none.push(("Authored"@, totals.authored));
            let two = one.push(("Touched"@, totals.touched));
            let three = two.push(("Ignored"@, totals.ignored));
            lemma_sum_with_row(none, ("Authored"@, totals.authored));
            lemma_sum_with_row(one, ("Touched"@, totals.touched));
            lemma_sum_with_row(two, ("Ignored"@, totals.ignored));
            assert(chart_rows_of(totals) =~= three);
        },
        ReportMode::MultiIdentity => {
            let one = none.push(("Authored"@, totals.authored));
            let two = one.push(("Signed-off"@, totals.signed_off));
            let three = two.push(("Reviewed"@, totals.reviewed));
            let four = three.push(("Acked"@, totals.acked));
            let five = four.push(("Tested"@, totals.tested));
            let six = five.push(("Reported"@, totals.reported));
            let seven = six.push(("No interaction"@, totals.residual()));
            lemma_sum_with_row(none, ("Authored"@, totals.authored));
            lemma_sum_with_row(one, ("Signed-off"@, totals.signed_off));
            lemma_sum_with_row(two, ("Reviewed"@, totals.reviewed));
            lemma_sum_with_row(three, ("Acked"@, totals.acked));
            lemma_sum_with_row(four, ("Tested"@, totals.tested));
            lemma_sum_with_row(five, ("Reported"@, totals.reported));
            lemma_sum_with_row(six, ("No interaction"@, totals.residual()));
            assert(chart_rows_of(totals) =~= seven);
        },
    }
}

/// The sectors of the pie for the rows of a table: each count, then its label.
pub open spec fn slices_of(rows: Seq<(Seq<char>, nat)>) -> Seq<(nat, Seq<char>)> {
    rows.map_values(|row: (Seq<char>, nat)| (row.1, row.0))
}

/// The mathematical content of sectors.
pub open spec fn sectors_of(slices: Seq<(u64, String)>) -> Seq<(nat, Seq<char>)> {
    slices.map_values(|slice: (u64, String)| (slice.0 as nat, slice.1@))
}

/// Turns the rows of a table into the sectors of a pie, in the same order:
/// the value comes first, the name second.
pub fn pie_slices(table: &[Row]) -> (slices: Vec<(u64, String)>)
    ensures
        sectors_of(slices@) == slices_of(rows_of(table@)),
{
    let mut slices: Vec<(u64, String)> = Vec::new();
    let mut i: usize = 0;
    while i < table.len()
        invariant
            i <= table.len(),
            sectors_of(slices@) == slices_of(rows_of(table@.take(i as int))),
        decreases table.len() - i,
    {
        let ghost before = slices@;
        slices.push((table[i].1, table[i].0.clone()));
        proof {
            assert(table@.take(i + 1) == table@.take(i as int).push(table@[i as int]));
            assert(sectors_of(slices@) =~= sectors_of(before).push(
                (table@[i as int].1 as nat, table@[i as int].0@),
            ));
            assert(slices_of(rows_of(table@.take(i + 1))) =~= slices_of(
                rows_of(table@.take(i as int)),
            ).push((table@[i as int].1 as nat, table@[i as int].0@)));
        }
        i += 1;
    }
    proof {
        assert(table@.take(table.len() as int) == table@);
    }
    slices
}

/// The name of the image file of a chart: its title and the ending of a PNG file.
pub fn chart_file_name(title: &str) -> (name: String)
    ensures
        name@ == title@ + ".png"@,
{
    let mut name = String::from_str(title);
    name.append(".png");
    name
}

/// The line under the title of a chart: the time window of the run.
pub open spec fn subtitle_of(since: Option<Seq<char>>) -> Seq<char> {
    match since {
        Some(day) => day + " -- Today"@,
        None => "Overall"@,
    }
}

/// The line under the title of a chart: from the lower bound of the time
/// window until today, or the whole history where there is no bound.
pub fn chart_subtitle(since: Option<&str>) -> (subtitle: String)
    ensures
        subtitle@ == subtitle_of(text_of(since)),
{
    match since {
        Some(day) => {
            let mut subtitle = String::from_str(day);
            subtitle.append(" -- Today");
            subtitle
        },
        None => String::from_str("Overall"),
    }
}

/// The column at which the counts of the summary start, where the label leaves room.
pub const VALUE_COLUMN: usize = 15;

/// The number of blanks between the colon after a label and its count: as
/// many as bring the count to the value column, and at least one.
pub open spec fn gap(label_len: nat) -> nat {
    if label_len + 2 <= VALUE_COLUMN {
        (VALUE_COLUMN - label_len - 1) as nat
    } else {
        1
    }
}

/// A text of blanks.
pub open spec fn blanks(count: nat) -> Seq<char> {
    Seq::new(count, |i: int| ' ')
}

/// A row of the summary as a line of text: the label, a colon, blanks, the count.
pub open spec fn row_text_of(row: (Seq<char>, nat)) -> Seq<char> {
    row.0 + seq![':'] + blanks(gap(row.0.len())) + decimal(row.1)
}

/// Writes a row of the summary as a line of text.
pub fn row_text(label: &str, value: u64) -> (line: String)
    ensures
        line@ == row_text_of((label@, value as nat)),
{
    let mut line = String::from_str(label);
    line.push(':');
    let width = label.unicode_len();
    let count: usize = if width <= VALUE_COLUMN - 2 {
        VALUE_COLUMN - width - 1
    } else {
        1
    };
    let mut i: usize = 0;
    while i < count
        invariant
            i <= count,
            line@ == label@ + seq![':'] + blanks(i as nat),
        decreases count - i,
    {
        line.push(' ');
        assert(blanks((i + 1) as nat) =~= blanks(i as nat).push(' '));
        assert(line@ =~= label@ + seq![':'] + blanks((i + 1) as nat));
        i += 1;
    }
    let digits = decimal_text(value);
    line.append(digits.as_str());
    line
}

/// The lines of the summary: a heading, then one line for each row.
pub open spec fn summary_lines_of(totals: Totals) -> Seq<Seq<char>> {
    seq!["Summary:"@] + summary_rows_of(totals).map_values(
        |row: (Seq<char>, nat)| row_text_of(row),
    )
}

/// The characters of each line.
pub open spec fn lines_text(lines: Seq<String>) -> Seq<Seq<char>> {
    lines.map_values(|line: String| line@)
}

/// The lines of the summary of a run, in the order in which they are printed.
pub fn summary_lines(totals: &RunTotals) -> (lines: Vec<String>)
    ensures
        lines_text(lines@) == summary_lines_of(totals@),
{
    let rows = summary_rows(totals);
    let mut lines: Vec<String> = Vec::new();
    lines.push(String::from_str("Summary:"));
    let ghost texts = summary_rows_of(totals@).map_values(|row: (Seq<char>, nat)| row_text_of(row));
    assert(lines_text(lines@) =~= seq!["Summary:"@] + texts.take(0));
    let mut i: usize = 0;
    while i < rows.len()
        invariant
            i <= rows.len(),
            rows_of(rows@) == summary_rows_of(totals@),
            texts == summary_rows_of(totals@).map_values(|row: (Seq<char>, nat)| row_text_of(row)),
            lines_text(lines@) == seq!["Summary:"@] + texts.take(i as int),
        decreases rows.len() - i,
    {
        let ghost before = lines@;
        let line = row_text(rows[i].0.as_str(), rows[i].1);
        proof {
            assert(rows_of(rows@)[i as int] == (rows@[i as int].0@, rows@[i as int].1 as nat));
            assert(line@ == texts[i as int]);
        }
        lines.push(line);
        proof {
            assert(lines_text(lines@) =~= lines_text(before).push(texts[i as int]));
            assert(texts.take(i + 1) =~= texts.take(i as int).push(texts[i as int]));
        }
        i += 1;
    }
    proof {
        assert(texts.take(rows.len() as int) == texts);
    }
    lines
}

/// How many characters of a commit's hash are shown.
pub const SHORT_ID_LEN: usize = 7;

/// The start of a hash that is shown for it: its first seven characters, or
/// all of it where it has fewer.
pub open spec fn short_id(id: Seq<char>) -> Seq<char> {
    if id.len() <= SHORT_ID_LEN {
        id
    } else {
        id.take(SHORT_ID_LEN as int)
    }
}

/// The words that stand for the summary of a commit that has none.
pub open spec fn shown_summary(summary: Option<Seq<char>>) -> Seq<char> {
    match summary {
        Some(text) => text,
        None => "No message"@,
    }
}

/// The line that announces a commit: its short hash, its day and its
/// summary, with a bar between them.
pub open spec fn commit_line_of(
    id: Seq<char>,
    day: Seq<char>,
    summary: Option<Seq<char>>,
) -> Seq<char> {
    short_id(id) + " | "@ + day + " | "@ + shown_summary(summary)
}

/// Writes the line that announces a commit whose day is already written.
pub fn commit_line(id: &str, day: &str, summary: Option<&str>) -> (line: String)
    ensures
        line@ == commit_line_of(id@, day@, text_of(summary)),
{
    let hash = chars_of(id);
    let shown: usize = if hash.len() <= SHORT_ID_LEN {
        hash.len()
    } else {
        SHORT_ID_LEN
    };
    let mut line = String::new();
    let mut i: usize = 0;
    while i < shown
        invariant
            i <= shown <= hash.len(),
            line@ == hash@.take(i as int),
        decreases shown - i,
    {
        line.push(hash[i]);
        assert(hash@.take(i + 1) =~= hash@.take(i as int).push(hash@[i as int]));
        i += 1;
    }
    assert(line@ == short_id(id@)) by {
        assert(hash@.take(hash.len() as int) == hash@);
    }
    line.append(" | ");
    line.append(day);
    line.append(" | ");
    match summary {
        Some(text) => {
            line.append(text);
        },
        None => {
            line.append("No message");
        },
    }
    line
}

/// Writes the line that announces a commit: its short hash, the UTC day of
/// its commit time and its summary.
pub fn verbose_line(commit: &CommitRecord, summary: Option<&str>) -> (line: String)
    ensures
        line@ == commit_line_of(
            commit@.id,
            shown_day(day_of(commit@.time, day_format())),
            text_of(summary),
        ),
{
    let day = day_text(commit.time);
    commit_line(commit.id.as_str(), day.as_str(), summary)
}

} // verus!
