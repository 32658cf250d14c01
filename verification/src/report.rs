//! Reports on the log: the entries as comma-separated values and as a
//! table in Markdown, and the way back from comma-separated values.

use vstd::prelude::*;
use crate::csv::csv_line;
use crate::csv::field_views;
use crate::csv::line_is_read_back;
use crate::csv::push_line;
use crate::csv::read_records;
use crate::csv::record_views;
use crate::csv::take_record;
use crate::csv::take_records;
use crate::date::date_text;
use crate::date::date_text_is_read_back;
use crate::date::date_value;
use crate::date::Date;
use crate::hours::hours_text;
use crate::hours::hours_text_is_read_back;
use crate::hours::hours_value;
use crate::hours::Hours;
use crate::model::entry_views;
use crate::model::EntryView;
use crate::model::TloggEntry;
use crate::text::chars_of;
use crate::text::string_of;

verus! {

/// What a line of a report says: the project, what was done, the time
/// spent and the day.
pub ghost struct RowView {
    pub project: Seq<char>,
    pub description: Seq<char>,
    pub duration: Hours,
    pub created: Date,
}

/// A line of a report.
#[derive(Clone, Debug, PartialEq, Eq)]
pub struct ReportRow {
    pub project: String,
    pub description: String,
    pub duration: Hours,
    pub created: Date,
}

impl View for ReportRow {
    type V = RowView;

    open spec fn view(&self) -> RowView {
        RowView {
            project: self.project@,
            description: self.description@,
            duration: self.duration,
            created: self.created,
        }
    }
}

/// The views of a list of rows, in the same order.
pub open spec fn row_views(rows: Seq<ReportRow>) -> Seq<RowView> {
    rows.map_values(|r: ReportRow| r@)
}

/// The line of a report that stands for a log entry.
pub open spec fn row_of(e: EntryView) -> RowView {
    RowView { project: e.project, description: e.message, duration: e.duration, created: e.created }
}

/// The lines of a report that stand for the given entries, in the same
/// order.
pub open spec fn rows_of(entries: Seq<EntryView>) -> Seq<RowView> {
    entries.map_values(|e: EntryView| row_of(e))
}

/// The four fields that a row is written as.
pub open spec fn fields_of(r: RowView) -> Seq<Seq<char>> {
    seq![r.project, r.description, hours_text(r.duration), date_text(r.created)]
}

/// The names of the four columns.
pub open spec fn header_fields() -> Seq<Seq<char>> {
    seq!["project"@, "description"@, "hours"@, "date"@]
}

/// The first line of a report in comma-separated values.
pub open spec fn header_line() -> Seq<char> {
    csv_line("project"@, "description"@, "hours"@, "date"@)
}

/// A row as a line of comma-separated values.
pub open spec fn row_line(r: RowView) -> Seq<char> {
    csv_line(r.project, r.description, hours_text(r.duration), date_text(r.created))
}

/// The rows as lines of comma-separated values, one after the other.
pub open spec fn csv_lines(rows: Seq<RowView>) -> Seq<char>
    decreases rows.len(),
{
    if rows.len() == 0 {
        Seq::empty()
    } else {
        row_line(rows[0]) + csv_lines(rows.skip(1))
    }
}

/// A report in comma-separated values: the header, then one line for
/// each row, in the order of the rows.
pub open spec fn csv_text(rows: Seq<RowView>) -> Seq<char> {
    header_line() + csv_lines(rows)
}

/// The row that four fields stand for, if the third is a duration and
/// the fourth a date.
pub open spec fn row_of_fields(fields: Seq<Seq<char>>) -> Option<RowView> {
    if fields.len() == 4 {
        match (hours_value(fields[2]), date_value(fields[3])) {
            (Some(duration), Some(created)) => Some(
                RowView { project: fields[0], description: fields[1], duration, created },
            ),
            _ => None,
        }
    } else {
        None
    }
}

/// The rows that the records stand for, if every one stands for a row.
pub open spec fn rows_of_records(records: Seq<Seq<Seq<char>>>) -> Option<Seq<RowView>>
    decreases records.len(),
{
    if records.len() == 0 {
        Some(Seq::empty())
    } else {
        match (row_of_fields(records[0]), rows_of_records(records.skip(1))) {
            (Some(row), Some(rows)) => Some(seq![row] + rows),
            _ => None,
        }
    }
}

/// The rows of a report in comma-separated values: the text is made of
/// records, the first is the header, and each of the others stands for
/// a row.
pub open spec fn csv_rows(text: Seq<char>) -> Option<Seq<RowView>> {
    match take_records(text) {
        None => None,
        Some(records) => if records.len() >= 1 && records[0] == header_fields() {
            rows_of_records(records.skip(1))
        } else {
            None
        },
    }
}

/// The lines of rows and one more row are the lines of the rows and then
/// the line of that row.
pub proof fn csv_lines_push(rows: Seq<RowView>, row: RowView)
    ensures
        csv_lines(rows.push(row)) == csv_lines(rows) + row_line(row),
    decreases rows.len(),
{
    let longer = rows.push(row);
    if rows.len() == 0 {
        assert(longer.skip(1) =~= Seq::<RowView>::empty());
        assert(csv_lines(longer.skip(1)) =~= Seq::<char>::empty());
        assert(csv_lines(rows) =~= Seq::<char>::empty());
        assert(longer[0] == row);
        assert(csv_lines(longer) =~= csv_lines(rows) + row_line(row));
    } else {
        csv_lines_push(rows.skip(1), row);
        assert(longer.skip(1) =~= rows.skip(1).push(row));
        assert(csv_lines(longer) =~= csv_lines(rows) + row_line(row));
    }
}

/// The lines of rows, read as records, give the fields of each row, and
/// these stand for the rows again.
pub proof fn lines_are_read_back(rows: Seq<RowView>)
    requires
        forall|i: int| 0 <= i < rows.len() ==> (#[trigger] rows[i]).created.wf(),
    ensures
        take_records(csv_lines(rows)) == Some(rows.map_values(|r: RowView| fields_of(r))),
        rows_of_records(rows.map_values(|r: RowView| fields_of(r))) == Some(rows),
    decreases rows.len(),
{
    let records = rows.map_values(|r: RowView| fields_of(r));
    if rows.len() > 0 {
        let first = rows[0];
        let others = rows.skip(1);
        let later = others.map_values(|r: RowView| fields_of(r));
        assert(others.len() < rows.len());
        assert forall|i: int| 0 <= i < others.len() implies (#[trigger] others[i]).created.wf() by {
            assert(others[i] == rows[i + 1]);
        }
        lines_are_read_back(others);
        line_is_read_back(
            first.project,
            first.description,
            hours_text(first.duration),
            date_text(first.created),
            csv_lines(others),
        );
        hours_text_is_read_back(first.duration);
        date_text_is_read_back(first.created);
        assert(records.skip(1) =~= later);
        assert(records[0] == fields_of(first));
        assert(seq![fields_of(first)] + later =~= records);
        assert(seq![first] + others =~= rows);
        assert(row_of_fields(fields_of(first)) == Some(first));
    } else {
        assert(records =~= Seq::<Seq<Seq<char>>>::empty());
    }
}

/// A report in comma-separated values, read back, gives the rows it was
/// written from, in their order.
pub proof fn csv_is_read_back(rows: Seq<RowView>)
    requires
        forall|i: int| 0 <= i < rows.len() ==> (#[trigger] rows[i]).created.wf(),
    ensures
        csv_rows(csv_text(rows)) == Some(rows),
{
    let records = rows.map_values(|r: RowView| fields_of(r));
    lines_are_read_back(rows);
    line_is_read_back("project"@, "description"@, "hours"@, "date"@, csv_lines(rows));
    let all = seq![header_fields()] + records;
    assert(take_records(csv_text(rows)) == Some(all));
    assert(all.skip(1) =~= records);
}

/// The entries as comma-separated values, with a header line, in the
/// order of the entries. Fields that hold a comma, a quotation mark or a
/// line break are quoted.
pub fn to_csv(entries: &Vec<TloggEntry>) -> (r: String)
    ensures
        r@ == csv_text(rows_of(entry_views(entries@))),
{
    let ghost rows = rows_of(entry_views(entries@));
    let mut out: Vec<char> = Vec::new();
    push_line(
        &mut out,
        &chars_of("project"),
        &chars_of("description"),
        &chars_of("hours"),
        &chars_of("date"),
    );
    let mut i: usize = 0;
    proof {
        assert(rows.take(0) =~= Seq::<RowView>::empty());
        assert(out@ =~= header_line() + csv_lines(rows.take(0)));
    }
    while i < entries.len()
        invariant
            i <= entries.len(),
            rows == rows_of(entry_views(entries@)),
            out@ == header_line() + csv_lines(rows.take(i as int)),
        decreases entries.len() - i,
    {
        let entry = &entries[i];
        let mut hours: Vec<char> = Vec::new();
        entry.duration.push_text(&mut hours);
        let mut day: Vec<char> = Vec::new();
        entry.created.push_text(&mut day);
        proof {
            assert(hours@ =~= hours_text(entry.duration));
            assert(day@ =~= date_text(entry.created));
            assert(rows[i as int] == row_of(entries[i as int]@));
            assert(rows.take(i + 1) =~= rows.take(i as int).push(rows[i as int]));
            csv_lines_push(rows.take(i as int), rows[i as int]);
        }
        push_line(
            &mut out,
            &chars_of(entry.project.as_str()),
            &chars_of(entry.message.as_str()),
            &hours,
            &day,
        );
        proof {
            assert(out@ =~= header_line() + csv_lines(rows.take(i + 1)));
        }
        i = i + 1;
    }
    proof {
        assert(rows.take(i as int) =~= rows);
    }
    string_of(&out)
}

/// Whether two lists of characters are the same.
fn same_chars(a: &Vec<char>, b: &Vec<char>) -> (r: bool)
    ensures
        r == (a@ == b@),
{
    if a.len() != b.len() {
        return false;
    }
    let mut i: usize = 0;
    while i < a.len()
        invariant
            i <= a.len() == b.len(),
            forall|k: int| 0 <= k < i ==> a@[k] == b@[k],
        decreases a.len() - i,
    {
        if a[i] != b[i] {
            return false;
        }
        i = i + 1;
    }
    proof {
        assert(a@ =~= b@);
    }
    true
}

/// Whether the record is the header of a report.
fn is_header(fields: &Vec<Vec<char>>) -> (r: bool)
    ensures
        r == (field_views(fields@) == header_fields()),
{
    if fields.len() != 4 {
        assert(header_fields().len() == 4);
        return false;
    }
    let ghost views = field_views(fields@);
    proof {
        assert(views[0] == fields[0]@);
        assert(views[1] == fields[1]@);
        assert(views[2] == fields[2]@);
        assert(views[3] == fields[3]@);
    }
    let same = same_chars(&fields[0], &chars_of("project")) && same_chars(
        &fields[1],
        &chars_of("description"),
    ) && same_chars(&fields[2], &chars_of("hours")) && same_chars(&fields[3], &chars_of("date"));
    proof {
        if same {
            assert(views =~= header_fields());
        }
    }
    same
}

/// The row that the fields of a record stand for, if they stand for one.
fn row_from_fields(fields: &Vec<Vec<char>>) -> (r: Option<ReportRow>)
    ensures
        match r {
            Some(row) => row_of_fields(field_views(fields@)) == Some(row@),
            None => row_of_fields(field_views(fields@)) is None,
        },
{
    if fields.len() != 4 {
        return None;
    }
    let ghost views = field_views(fields@);
    proof {
        assert(views[0] == fields[0]@);
        assert(views[1] == fields[1]@);
        assert(views[2] == fields[2]@);
        assert(views[3] == fields[3]@);
    }
    match (Hours::parse_chars(&fields[2]), Date::parse_chars(&fields[3])) {
        (Some(duration), Some(created)) => Some(
            ReportRow {
                project: string_of(&fields[0]),
                description: string_of(&fields[1]),
                duration,
                created,
            },
        ),
        _ => None,
    }
}

/// The result of reading rows, with `first` in front of them.
pub open spec fn with_rows(first: Seq<RowView>, r: Option<Seq<RowView>>) -> Option<Seq<RowView>> {
    match r {
        Some(rows) => Some(first + rows),
        None => None,
    }
}

/// Reads a report in comma-separated values: the rows after the header,
/// in their order. There are none where the text is not made of records,
/// does not begin with the header, or holds a record that is no row.
pub fn parse_csv(text: &str) -> (r: Option<Vec<ReportRow>>)
    ensures
        match r {
            Some(rows) => csv_rows(text@) == Some(row_views(rows@)),
            None => csv_rows(text@) is None,
        },
{
    let chars = chars_of(text);
    let records = match read_records(&chars) {
        None => {
            return None;
        },
        Some(records) => records,
    };
    let ghost all = record_views(records@);
    if records.len() < 1 {
        return None;
    }
    proof {
        assert(all[0] == field_views(records[0]@));
    }
    if !is_header(&records[0]) {
        return None;
    }
    let mut rows: Vec<ReportRow> = Vec::new();
    let mut i: usize = 1;
    proof {
        let r = rows_of_records(all.skip(1));
        if r is Some {
            assert(row_views(rows@) + r->Some_0 =~= r->Some_0);
        }
    }
    while i < records.len()
        invariant
            1 <= i <= records.len(),
            all == record_views(records@),
            take_records(text@) == Some(all),
            all[0] == header_fields(),
            rows_of_records(all.skip(1)) == with_rows(
                row_views(rows@),
                rows_of_records(all.skip(i as int)),
            ),
        decreases records.len() - i,
    {
        let ghost here = all.skip(i as int);
        proof {
            assert(here[0] == field_views(records[i as int]@));
            assert(here.skip(1) =~= all.skip(i + 1));
        }
        match row_from_fields(&records[i]) {
            None => {
                return None;
            },
            Some(row) => {
                let ghost before = rows@;
                let ghost added = row@;
                rows.push(row);
                proof {
                    assert(row_views(rows@) =~= row_views(before).push(added));
                    let r = rows_of_records(all.skip(i + 1));
                    if r is Some {
                        assert(row_views(rows@) + r->Some_0 =~= row_views(before) + (seq![added]
                            + r->Some_0));
                    }
                }
            },
        }
        i = i + 1;
    }
    proof {
        assert(all.skip(i as int) =~= Seq::<Seq<Seq<char>>>::empty());
        assert(row_views(rows@) + Seq::<RowView>::empty() =~= row_views(rows@));
    }
    Some(rows)
}

/// A character as it stands in a cell of a Markdown table: a bar gets a
/// backslash in front, and a line break becomes a space.
pub open spec fn md_char(c: char) -> Seq<char> {
    if c == '|' {
        seq!['\\', '|']
    } else if c == '\n' || c == '\r' {
        seq![' ']
    } else {
        seq![c]
    }
}

/// A text as it stands in a cell of a Markdown table.
pub open spec fn md_cell(text: Seq<char>) -> Seq<char>
    decreases text.len(),
{
    if text.len() == 0 {
        Seq::empty()
    } else {
        md_cell(text.drop_last()) + md_char(text.last())
    }
}

/// A row of a Markdown table with four cells.
pub open spec fn md_row(a: Seq<char>, b: Seq<char>, c: Seq<char>, d: Seq<char>) -> Seq<char> {
    seq!['|', ' '] + md_cell(a) + seq![' ', '|', ' '] + md_cell(b) + seq![' ', '|', ' '] + md_cell(
        c,
    ) + seq![' ', '|', ' '] + md_cell(d) + seq![' ', '|', '\n']
}

/// The line between the header of a Markdown table and its rows.
pub open spec fn md_rule() -> Seq<char> {
    seq![
        '|',
        '-',
        '-',
        '-',
        '|',
        '-',
        '-',
        '-',
        '|',
        '-',
        '-',
        '-',
        '|',
        '-',
        '-',
        '-',
        '|',
        '\n',
    ]
}

/// The rows of a report as rows of a Markdown table, one after the other.
pub open spec fn md_rows(rows: Seq<RowView>) -> Seq<char>
    decreases rows.len(),
{
    if rows.len() == 0 {
        Seq::empty()
    } else {
        md_rows(rows.drop_last()) + md_row(
            rows.last().project,
            rows.last().description,
            hours_text(rows.last().duration),
            date_text(rows.last().created),
        )
    }
}

/// A report as a Markdown table: the header, the rule, then one row of
/// the table for each row of the report, in the order of the rows.
pub open spec fn markdown_text(rows: Seq<RowView>) -> Seq<char> {
    md_row("project"@, "description"@, "hours"@, "date"@) + md_rule() + md_rows(rows)
}

/// Appends `text` to `out` as a cell of a Markdown table.
fn push_cell(out: &mut Vec<char>, text: &Vec<char>)
    ensures
        final(out)@ == old(out)@ + md_cell(text@),
{
    let mut i: usize = 0;
    proof {
        assert(text@.take(0) =~= Seq::<char>::empty());
        assert(out@ =~= old(out)@ + md_cell(text@.take(0)));
    }
    while i < text.len()
        invariant
            i <= text.len(),
            out@ == old(out)@ + md_cell(text@.take(i as int)),
        decreases text.len() - i,
    {
        let c = text[i];
        let ghost before = out@;
        proof {
            let longer = text@.take(i + 1);
            assert(longer.drop_last() =~= text@.take(i as int));
            assert(longer.last() == c);
        }
        if c == '|' {
            out.push('\\');
            out.push('|');
            proof {
                assert(out@ =~= before + md_char(c));
            }
        } else if c == '\n' || c == '\r' {
            out.push(' ');
            proof {
                assert(out@ =~= before + md_char(c));
            }
        } else {
            out.push(c);
            proof {
                assert(out@ =~= before + md_char(c));
            }
        }
        proof {
            assert(out@ =~= old(out)@ + md_cell(text@.take(i + 1)));
        }
        i = i + 1;
    }
    proof {
        assert(text@.take(i as int) =~= text@);
    }
}

/// Appends what stands between two cells of a row to `out`.
fn push_bar(out: &mut Vec<char>)
    ensures
        final(out)@ == old(out)@ + seq![' ', '|', ' '],
{
    out.push(' ');
    out.push('|');
    out.push(' ');
    proof {
        assert(out@ =~= old(out)@ + seq![' ', '|', ' ']);
    }
}

/// Appends a row of a Markdown table with four cells to `out`.
fn push_row(out: &mut Vec<char>, a: &Vec<char>, b: &Vec<char>, c: &Vec<char>, d: &Vec<char>)
    ensures
        final(out)@ == old(out)@ + md_row(a@, b@, c@, d@),
{
    out.push('|');
    out.push(' ');
    push_cell(out, a);
    push_bar(out);
    push_cell(out, b);
    push_bar(out);
    push_cell(out, c);
    push_bar(out);
    push_cell(out, d);
    out.push(' ');
    out.push('|');
    out.push('\n');
    proof {
        assert(out@ =~= old(out)@ + md_row(a@, b@, c@, d@));
    }
}

/// Appends the line between the header and the rows to `out`.
fn push_rule(out: &mut Vec<char>)
    ensures
        final(out)@ == old(out)@ + md_rule(),
{
    let mut k: usize = 0;
    while k < 4
        invariant
            k <= 4,
            out@.len() == old(out)@.len() + 4 * k,
            out@.take(old(out)@.len() as int) == old(out)@,
            forall|j: int| 0 <= j < 4 * k ==> out@[old(out)@.len() + j] == md_rule()[j],
        decreases 4 - k,
    {
        let ghost before = out@;
        out.push('|');
        out.push('-');
        out.push('-');
        out.push('-');
        proof {
            assert(out@.take(old(out)@.len() as int) =~= before.take(old(out)@.len() as int));
        }
        k = k + 1;
    }
    let ghost before = out@;
    out.push('|');
    out.push('\n');
    proof {
        assert(out@.take(old(out)@.len() as int) =~= before.take(old(out)@.len() as int));
        assert(out@ =~= old(out)@ + md_rule());
    }
}

/// The entries as a table in Markdown, in the order of the entries.
pub fn to_markdown(entries: &Vec<TloggEntry>) -> (r: String)
    ensures
        r@ == markdown_text(rows_of(entry_views(entries@))),
{
    let ghost rows = rows_of(entry_views(entries@));
    let mut out: Vec<char> = Vec::new();
    push_row(
        &mut out,
        &chars_of("project"),
        &chars_of("description"),
        &chars_of("hours"),
        &chars_of("date"),
    );
    let ghost head = out@;
    push_rule(&mut out);
    proof {
        assert(rows.take(0) =~= Seq::<RowView>::empty());
        assert(out@ =~= head + md_rule() + md_rows(rows.take(0)));
    }
    let mut i: usize = 0;
    while i < entries.len()
        invariant
            i <= entries.len(),
            rows == rows_of(entry_views(entries@)),
            head == md_row("project"@, "description"@, "hours"@, "date"@),
            out@ == head + md_rule() + md_rows(rows.take(i as int)),
        decreases entries.len() - i,
    {
        let entry = &entries[i];
        let mut hours: Vec<char> = Vec::new();
        entry.duration.push_text(&mut hours);
        let mut day: Vec<char> = Vec::new();
        entry.created.push_text(&mut day);
        proof {
            assert(hours@ =~= hours_text(entry.duration));
            assert(day@ =~= date_text(entry.created));
            assert(rows[i as int] == row_of(entries[i as int]@));
            let longer = rows.take(i + 1);
            assert(longer.drop_last() =~= rows.take(i as int));
            assert(longer.last() == rows[i as int]);
        }
        push_row(
            &mut out,
            &chars_of(entry.project.as_str()),
            &chars_of(entry.message.as_str()),
            &hours,
            &day,
        );
        proof {
            assert(out@ =~= head + md_rule() + md_rows(rows.take(i + 1)));
        }
        i = i + 1;
    }
    proof {
        assert(rows.take(i as int) =~= rows);
    }
    string_of(&out)
}

} // verus!
