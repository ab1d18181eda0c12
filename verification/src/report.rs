//! Reports: which records a report kind lists and under which columns, the text
//! framing a report, its CSV export, and the table read from an uploaded CSV for
//! stored-data analysis.

use crate::db::{lines, lines_of};
use crate::pharma::or_system;
use crate::text::{
    chars_of, eq_str, split_chars, split_on, string_from, to_uppercase, trim, trim_chars,
    unicode_upper, views,
};
use vstd::prelude::*;

verus! {

// ---------------------------------------------------------------------------
// Outside call: std's `Debug` text of a string
// ---------------------------------------------------------------------------

/// What std's `Debug` formatting prints for a string: the text in double quotes,
/// with escapes.
pub uninterp spec fn debug_quoted(s: Seq<char>) -> Seq<char>;

/// std `<str as Debug>::fmt`, through `format!("{:?}", s)`. Its result is named
/// `debug_quoted`; nothing more is claimed of it.
#[verifier::external_body]
fn debug_text(s: &str) -> (r: String)
    ensures
        r@ == debug_quoted(s@),
{
    format!("{:?}", s)
}

// ---------------------------------------------------------------------------
// Report kinds
// ---------------------------------------------------------------------------

/// What a report lists.
#[derive(PartialEq, Eq, Structural, Clone, Copy, Debug)]
pub enum ReportKind {
    /// Audit-trail events in the date range.
    Audit,
    /// Sampling tasks scheduled in the date range.
    Sampling,
    /// The active sensors with their last readings (`trend` and `data`).
    Sensors,
}

/// Why a report request was refused.
#[derive(PartialEq, Eq, Structural, Clone, Copy, Debug)]
pub enum ReportError {
    UnsupportedKind,
    NotFound,
}

impl ReportError {
    /// The API error code.
    pub fn code(&self) -> (r: i64)
        ensures
            r == match self {
                ReportError::UnsupportedKind => 10000int,
                ReportError::NotFound => 4040int,
            },
    {
        match self {
            ReportError::UnsupportedKind => 10000,
            ReportError::NotFound => 4040,
        }
    }

    /// The message shown to the user.
    pub fn message(&self) -> (r: &'static str)
        ensures
            r@ == match self {
                ReportError::UnsupportedKind => "不支持的报告类型"@,
                ReportError::NotFound => "报告不存在"@,
            },
    {
        match self {
            ReportError::UnsupportedKind => "不支持的报告类型",
            ReportError::NotFound => "报告不存在",
        }
    }
}

/// The kind a name selects: `audit`, `sampling`, or `trend` and `data`.
pub open spec fn report_kind_of(kind: Seq<char>) -> Option<ReportKind> {
    if kind == "audit"@ {
        Some(ReportKind::Audit)
    } else if kind == "sampling"@ {
        Some(ReportKind::Sampling)
    } else if kind == "trend"@ || kind == "data"@ {
        Some(ReportKind::Sensors)
    } else {
        None
    }
}

/// The kind of report a request names; other names are refused.
pub fn report_kind(kind: &str) -> (r: Result<ReportKind, ReportError>)
    ensures
        match report_kind_of(kind@) {
            Some(k) => r == Ok::<ReportKind, ReportError>(k),
            None => r == Err::<ReportKind, ReportError>(ReportError::UnsupportedKind),
        },
{
    let c = chars_of(kind);
    if eq_str(c.as_slice(), "audit") {
        Ok(ReportKind::Audit)
    } else if eq_str(c.as_slice(), "sampling") {
        Ok(ReportKind::Sampling)
    } else if eq_str(c.as_slice(), "trend") || eq_str(c.as_slice(), "data") {
        Ok(ReportKind::Sensors)
    } else {
        Err(ReportError::UnsupportedKind)
    }
}

/// The columns of a report's body.
pub open spec fn report_columns(k: ReportKind) -> Seq<Seq<char>> {
    match k {
        ReportKind::Audit => seq![
            "eventTime"@,
            "action"@,
            "targetType"@,
            "targetId"@,
            "performedBy"@,
            "reason"@,
        ],
        ReportKind::Sampling => seq![
            "id"@,
            "recipeName"@,
            "scheduledAt"@,
            "samplingMode"@,
            "status"@,
            "createdBy"@,
        ],
        ReportKind::Sensors => seq!["sensorId"@, "customId"@, "category"@, "lastValue"@],
    }
}

/// The texts of a vector of strings.
pub open spec fn texts(v: Seq<String>) -> Seq<Seq<char>> {
    v.map_values(|s: String| s@)
}

fn push_text(v: &mut Vec<String>, s: &str)
    ensures
        texts(final(v)@) == texts(old(v)@).push(s@),
{
    v.push(String::from_str(s));
    assert(texts(v@) =~= texts(old(v)@).push(s@));
}

impl ReportKind {
    /// The columns of the report's body.
    pub fn columns(&self) -> (r: Vec<String>)
        ensures
            texts(r@) == report_columns(*self),
    {
        let mut r: Vec<String> = Vec::new();
        match self {
            ReportKind::Audit => {
                push_text(&mut r, "eventTime");
                push_text(&mut r, "action");
                push_text(&mut r, "targetType");
                push_text(&mut r, "targetId");
                push_text(&mut r, "performedBy");
                push_text(&mut r, "reason");
            },
            ReportKind::Sampling => {
                push_text(&mut r, "id");
                push_text(&mut r, "recipeName");
                push_text(&mut r, "scheduledAt");
                push_text(&mut r, "samplingMode");
                push_text(&mut r, "status");
                push_text(&mut r, "createdBy");
            },
            ReportKind::Sensors => {
                push_text(&mut r, "sensorId");
                push_text(&mut r, "customId");
                push_text(&mut r, "category");
                push_text(&mut r, "lastValue");
            },
        }
        assert(texts(r@) =~= report_columns(*self));
        r
    }

    /// The key under which the summary counts the listed records.
    pub fn summary_key(&self) -> (r: &'static str)
        ensures
            r@ == match self {
                ReportKind::Audit => "totalEvents"@,
                ReportKind::Sampling => "totalSamplings"@,
                ReportKind::Sensors => "sensorCount"@,
            },
    {
        match self {
            ReportKind::Audit => "totalEvents",
            ReportKind::Sampling => "totalSamplings",
            ReportKind::Sensors => "sensorCount",
        }
    }
}

// ---------------------------------------------------------------------------
// The frame of a report
// ---------------------------------------------------------------------------

/// The texts around a report's body.
pub struct ReportFrame {
    pub title: String,
    pub facility: String,
    pub date_range: String,
    pub filters_summary: String,
    pub page_note: String,
    pub signed_info: String,
    /// Who generated the report (`system` when no one is named).
    pub generated_by: String,
}

/// The `Debug` text of an optional string.
pub open spec fn debug_option(v: Option<Seq<char>>) -> Seq<char> {
    match v {
        Some(s) => "Some("@ + debug_quoted(s) + ")"@,
        None => "None"@,
    }
}

/// Who generated a report.
pub open spec fn author(generated_by: Option<String>) -> Seq<char> {
    match generated_by {
        Some(s) => s@,
        None => "system"@,
    }
}

/// The frame of a report: the title is the kind in upper case followed by
/// ` Report`, the range reads `<from> ~ <to>`, the filters `mode=<mode>,
/// interval=<interval as Debug>`, and the footer names who generated it.
pub fn report_frame(
    kind: &str,
    mode: &str,
    date_from: &str,
    date_to: &str,
    interval: &Option<String>,
    generated_by: Option<String>,
) -> (r: ReportFrame)
    ensures
        r.title@ == unicode_upper(kind@) + " Report"@,
        r.facility@ == "Pharmaceutical Net Pro"@,
        r.date_range@ == date_from@ + " ~ "@ + date_to@,
        r.filters_summary@ == "mode="@ + mode@ + ", interval="@ + debug_option(
            match *interval {
                Some(s) => Some(s@),
                None => None,
            },
        ),
        r.page_note@ == "Generated by Pharmaceutical Net Pro"@,
        r.signed_info@ == "Generated by "@ + author(generated_by),
        r.generated_by@ == author(generated_by),
{
    let mut title = to_uppercase(kind);
    title.append(" Report");
    let mut range = String::from_str(date_from);
    range.append(" ~ ");
    range.append(date_to);
    let mut filters = String::from_str("mode=");
    filters.append(mode);
    filters.append(", interval=");
    match interval {
        Some(s) => {
            filters.append("Some(");
            let d = debug_text(s.as_str());
            filters.append(d.as_str());
            filters.append(")");
        },
        None => {
            filters.append("None");
        },
    }
    let by = or_system(generated_by);
    let mut signed = String::from_str("Generated by ");
    signed.append(by.as_str());
    ReportFrame {
        title,
        facility: String::from_str("Pharmaceutical Net Pro"),
        date_range: range,
        filters_summary: filters,
        page_note: String::from_str("Generated by Pharmaceutical Net Pro"),
        signed_info: signed,
        generated_by: by,
    }
}

// ---------------------------------------------------------------------------
// CSV export
// ---------------------------------------------------------------------------

/// One field of a stored row: its key and its text (`None` for JSON `null`; a
/// string field holds the string, any other value its JSON text).
pub type Field = (String, Option<String>);

/// A section of a stored report body: its columns (a column that is not a string
/// is `None`) and its rows, each absent when the stored value is not an array.
pub struct ReportSection {
    pub columns: Option<Vec<Option<String>>>,
    pub rows: Option<Vec<Vec<Field>>>,
}

/// The text of an optional string, empty when absent.
pub open spec fn text_of(v: Option<String>) -> Seq<char> {
    match v {
        Some(s) => s@,
        None => Seq::empty(),
    }
}

/// The text of a row's field `key`: the first field of that key, empty when there
/// is none or it is `null`.
pub open spec fn field_text(row: Seq<Field>, key: Seq<char>) -> Seq<char>
    decreases row.len(),
{
    if row.len() == 0 {
        Seq::empty()
    } else if row[0].0@ == key {
        text_of(row[0].1)
    } else {
        field_text(row.skip(1), key)
    }
}

/// `parts` joined by `sep`.
pub open spec fn join(parts: Seq<Seq<char>>, sep: char) -> Seq<char>
    decreases parts.len(),
{
    if parts.len() == 0 {
        Seq::empty()
    } else if parts.len() == 1 {
        parts[0]
    } else {
        join(parts.drop_last(), sep).push(sep) + parts.last()
    }
}

/// The header names of a section.
pub open spec fn header_names(cols: Seq<Option<String>>) -> Seq<Seq<char>> {
    cols.map_values(|c: Option<String>| text_of(c))
}

/// The CSV line of a row: its fields under the headers, joined by commas, and a
/// line feed.
pub open spec fn row_line(row: Seq<Field>, headers: Seq<Seq<char>>) -> Seq<char> {
    join(headers.map_values(|h: Seq<char>| field_text(row, h)), ',').push('\n')
}

/// The CSV lines of rows.
pub open spec fn rows_text(rows: Seq<Vec<Field>>, headers: Seq<Seq<char>>) -> Seq<char>
    decreases rows.len(),
{
    if rows.len() == 0 {
        Seq::empty()
    } else {
        rows_text(rows.drop_last(), headers) + row_line(rows.last()@, headers)
    }
}

/// The CSV text of a section: nothing without columns, else the header line and
/// one line per row.
pub open spec fn section_text(sec: ReportSection) -> Seq<char> {
    match sec.columns {
        None => Seq::empty(),
        Some(cols) => {
            let hs = header_names(cols@);
            join(hs, ',').push('\n') + match sec.rows {
                Some(rows) => rows_text(rows@, hs),
                None => Seq::empty(),
            }
        },
    }
}

/// The CSV text of a report body: its sections one after the other.
pub open spec fn csv_text(sections: Seq<ReportSection>) -> Seq<char>
    decreases sections.len(),
{
    if sections.len() == 0 {
        Seq::empty()
    } else {
        csv_text(sections.drop_last()) + section_text(sections.last())
    }
}

fn append_chars(out: &mut Vec<char>, s: &str)
    ensures
        final(out)@ == old(out)@ + s@,
{
    let c = chars_of(s);
    let mut i: usize = 0;
    while i < c.len()
        invariant
            i <= c@.len(),
            out@ == old(out)@ + c@.take(i as int),
        decreases c.len() - i,
    {
        out.push(c[i]);
        i += 1;
        assert(out@ =~= old(out)@ + c@.take(i as int));
    }
    assert(c@.take(c@.len() as int) =~= c@);
}

fn field_of<'a>(row: &'a Vec<Field>, key: &str) -> (r: Option<&'a Option<String>>)
    ensures
        match r {
            Some(v) => text_of(*v) == field_text(row@, key@),
            None => field_text(row@, key@) == Seq::<char>::empty(),
        },
{
    let k = chars_of(key);
    let mut i: usize = 0;
    assert(row@.skip(0) =~= row@);
    while i < row.len()
        invariant
            i <= row@.len(),
            k@ == key@,
            field_text(row@, key@) == field_text(row@.skip(i as int), key@),
        decreases row.len() - i,
    {
        let kc = chars_of(row[i].0.as_str());
        assert(row@.skip(i as int)[0] == row@[i as int]);
        if crate::text::eq(kc.as_slice(), k.as_slice()) {
            return Some(&row[i].1);
        }
        assert(row@.skip(i as int).skip(1) =~= row@.skip(i + 1));
        i += 1;
    }
    None
}

fn append_field(out: &mut Vec<char>, row: &Vec<Field>, key: &str)
    ensures
        final(out)@ == old(out)@ + field_text(row@, key@),
{
    match field_of(row, key) {
        Some(Some(v)) => append_chars(out, v.as_str()),
        _ => {
            assert(old(out)@ + Seq::<char>::empty() =~= old(out)@);
        },
    }
}

proof fn lemma_join_push(parts: Seq<Seq<char>>, x: Seq<char>, sep: char)
    requires
        parts.len() > 0,
    ensures
        join(parts.push(x), sep) == join(parts, sep).push(sep) + x,
{
    assert(parts.push(x).drop_last() =~= parts);
}

fn append_row(out: &mut Vec<char>, row: &Vec<Field>, headers: &Vec<String>)
    ensures
        final(out)@ == old(out)@ + row_line(row@, texts(headers@)),
{
    let ghost hs = texts(headers@);
    let ghost fs = hs.map_values(|h: Seq<char>| field_text(row@, h));
    let ghost start = out@;
    let mut i: usize = 0;
    while i < headers.len()
        invariant
            i <= headers@.len(),
            hs == texts(headers@),
            fs == hs.map_values(|h: Seq<char>| field_text(row@, h)),
            out@ == start + join(fs.take(i as int), ','),
        decreases headers.len() - i,
    {
        let ghost before = out@;
        if i > 0 {
            out.push(',');
        }
        append_field(out, row, headers[i].as_str());
        proof {
            assert(fs.take(i + 1) =~= fs.take(i as int).push(fs[i as int]));
            assert(fs[i as int] == field_text(row@, headers@[i as int]@));
            if i > 0 {
                lemma_join_push(fs.take(i as int), fs[i as int], ',');
            } else {
                assert(fs.take(1) =~= seq![fs[0]]);
            }
            assert(out@ =~= start + join(fs.take(i + 1), ','));
        }
        i += 1;
    }
    assert(fs.take(headers@.len() as int) =~= fs);
    out.push('\n');
    assert(out@ =~= start + row_line(row@, hs));
}

fn header_strings(cols: &Vec<Option<String>>) -> (r: Vec<String>)
    ensures
        texts(r@) == header_names(cols@),
{
    let mut r: Vec<String> = Vec::new();
    let mut i: usize = 0;
    while i < cols.len()
        invariant
            i <= cols@.len(),
            texts(r@) == header_names(cols@.take(i as int)),
        decreases cols.len() - i,
    {
        let h = match &cols[i] {
            Some(s) => String::from_str(s.as_str()),
            None => String::new(),
        };
        assert(h@ =~= text_of(cols@[i as int]));
        let ghost before = texts(r@);
        r.push(h);
        assert(texts(r@) =~= before.push(h@));
        assert(cols@.take(i + 1) =~= cols@.take(i as int).push(cols@[i as int]));
        i += 1;
        assert(texts(r@) =~= header_names(cols@.take(i as int)));
    }
    assert(cols@.take(cols@.len() as int) =~= cols@);
    r
}

fn append_section(out: &mut Vec<char>, sec: &ReportSection)
    ensures
        final(out)@ == old(out)@ + section_text(*sec),
{
    match &sec.columns {
        None => {
            assert(old(out)@ + Seq::<char>::empty() =~= old(out)@);
        },
        Some(cols) => {
            let headers = header_strings(cols);
            let ghost hs = texts(headers@);
            let ghost start = out@;
            let mut i: usize = 0;
            while i < headers.len()
                invariant
                    i <= headers@.len(),
                    hs == texts(headers@),
                    out@ == start + join(hs.take(i as int), ','),
                decreases headers.len() - i,
            {
                if i > 0 {
                    out.push(',');
                }
                append_chars(out, headers[i].as_str());
                proof {
                    assert(hs.take(i + 1) =~= hs.take(i as int).push(hs[i as int]));
                    if i > 0 {
                        lemma_join_push(hs.take(i as int), hs[i as int], ',');
                    } else {
                        assert(hs.take(1) =~= seq![hs[0]]);
                    }
                    assert(out@ =~= start + join(hs.take(i + 1), ','));
                }
                i += 1;
            }
            assert(hs.take(headers@.len() as int) =~= hs);
            out.push('\n');
            let ghost head = out@;
            assert(head == start + join(hs, ',').push('\n'));
            match &sec.rows {
                None => {
                    assert(out@ =~= start + section_text(*sec));
                },
                Some(rows) => {
                    let mut j: usize = 0;
                    while j < rows.len()
                        invariant
                            j <= rows@.len(),
                            hs == texts(headers@),
                            out@ == head + rows_text(rows@.take(j as int), hs),
                        decreases rows.len() - j,
                    {
                        append_row(out, &rows[j], &headers);
                        assert(rows@.take(j + 1).drop_last() =~= rows@.take(j as int));
                        j += 1;
                        assert(out@ =~= head + rows_text(rows@.take(j as int), hs));
                    }
                    assert(rows@.take(rows@.len() as int) =~= rows@);
                    assert(out@ =~= start + section_text(*sec));
                },
            }
        },
    }
}

/// The CSV export of a report body: each section with columns gives its header
/// line and one comma-separated line per row, a field missing from a row or
/// `null` being empty.
pub fn export_csv(sections: &Vec<ReportSection>) -> (r: String)
    ensures
        r@ == csv_text(sections@),
{
    let mut out: Vec<char> = Vec::new();
    let mut i: usize = 0;
    while i < sections.len()
        invariant
            i <= sections@.len(),
            out@ == csv_text(sections@.take(i as int)),
        decreases sections.len() - i,
    {
        append_section(&mut out, &sections[i]);
        assert(sections@.take(i + 1).drop_last() =~= sections@.take(i as int));
        i += 1;
    }
    assert(sections@.take(sections@.len() as int) =~= sections@);
    string_from(out.as_slice())
}

// ---------------------------------------------------------------------------
// Stored-data analysis of an uploaded CSV
// ---------------------------------------------------------------------------

/// Why an analysis was refused.
#[derive(PartialEq, Eq, Structural, Clone, Copy, Debug)]
pub enum SdaError {
    MissingContent,
    SessionNotFound,
}

impl SdaError {
    /// The API error code.
    pub fn code(&self) -> (r: i64)
        ensures
            r == match self {
                SdaError::MissingContent => 10000int,
                SdaError::SessionNotFound => 4040int,
            },
    {
        match self {
            SdaError::MissingContent => 10000,
            SdaError::SessionNotFound => 4040,
        }
    }

    /// The message shown to the user.
    pub fn message(&self) -> (r: &'static str)
        ensures
            r@ == match self {
                SdaError::MissingContent => "缺少 CSV 内容"@,
                SdaError::SessionNotFound => "SDA 会话不存在或无 CSV"@,
            },
    {
        match self {
            SdaError::MissingContent => "缺少 CSV 内容",
            SdaError::SessionNotFound => "SDA 会话不存在或无 CSV",
        }
    }
}

/// The stored session whose CSV is analysed: only when the request carries no
/// CSV text, and only when it names a session by a number or a decimal string.
pub fn session_to_load(csv_content: &str, session_id: &Option<crate::pharma::JsonId>) -> (r:
    Option<i64>)
    ensures
        csv_content@.len() > 0 ==> r is None,
        csv_content@.len() == 0 ==> crate::pharma::opt_int(r) == match *session_id {
            Some(v) => crate::pharma::json_id_value(v),
            None => None,
        },
{
    if !csv_content.is_empty() {
        return None;
    }
    crate::pharma::parse_opt_id(session_id)
}

/// A line holding only white space.
pub open spec fn blank(l: Seq<char>) -> bool {
    trim(l).len() == 0
}

/// The lines that are not blank, in order.
pub open spec fn kept_lines(ls: Seq<Seq<char>>) -> Seq<Seq<char>>
    decreases ls.len(),
{
    if ls.len() == 0 {
        Seq::empty()
    } else if blank(ls.last()) {
        kept_lines(ls.drop_last())
    } else {
        kept_lines(ls.drop_last()).push(ls.last())
    }
}

/// The column names of a header line: its comma-separated parts, trimmed.
pub open spec fn header_of(line: Seq<char>) -> Seq<Seq<char>> {
    split_on(line, ',').map_values(|p: Seq<char>| trim(p))
}

/// The cells of a data line under `n` columns: its comma-separated parts as they
/// are, an empty cell for each column past its last part.
pub open spec fn cells_of(n: nat, line: Seq<char>) -> Seq<Seq<char>> {
    let cols = split_on(line, ',');
    Seq::new(
        n,
        |i: int|
            if i < cols.len() {
                cols[i]
            } else {
                Seq::empty()
            },
    )
}

/// The table read from CSV text: `None` when the text is blank; else the first
/// non-blank line gives the columns and each later non-blank line a row.
pub open spec fn sda_table_of(content: Seq<char>) -> Option<(Seq<Seq<char>>, Seq<Seq<Seq<char>>>)> {
    if trim(content).len() == 0 {
        None
    } else {
        let ls = kept_lines(lines(content));
        let first = if ls.len() > 0 {
            ls[0]
        } else {
            "timestamp,value"@
        };
        let header = header_of(first);
        let body = if ls.len() > 0 {
            ls.skip(1)
        } else {
            Seq::empty()
        };
        Some((header, body.map_values(|l: Seq<char>| cells_of(header.len(), l))))
    }
}

/// The table of an uploaded CSV: its columns and, per data line, one raw cell
/// per column.
pub struct SdaTable {
    pub header: Vec<String>,
    pub rows: Vec<Vec<String>>,
}

/// The texts of the rows of a table.
pub open spec fn row_texts(rows: Seq<Vec<String>>) -> Seq<Seq<Seq<char>>> {
    rows.map_values(|r: Vec<String>| texts(r@))
}

fn keep_lines(ls: &Vec<Vec<char>>) -> (r: Vec<Vec<char>>)
    ensures
        views(r@) == kept_lines(views(ls@)),
{
    let ghost all = views(ls@);
    let mut out: Vec<Vec<char>> = Vec::new();
    let mut i: usize = 0;
    while i < ls.len()
        invariant
            i <= ls@.len(),
            all == views(ls@),
            views(out@) == kept_lines(all.take(i as int)),
        decreases ls.len() - i,
    {
        assert(all.take(i + 1).drop_last() =~= all.take(i as int));
        assert(all.take(i + 1).last() == ls@[i as int]@);
        let t = trim_chars(ls[i].as_slice());
        if t.len() > 0 {
            let ghost before = views(out@);
            let line = crate::text::slice_chars(ls[i].as_slice(), 0, ls[i].len());
            assert(line@ =~= ls@[i as int]@);
            out.push(line);
            assert(views(out@) =~= before.push(line@));
        }
        i += 1;
    }
    assert(all.take(ls@.len() as int) =~= all);
    out
}

fn row_cells(n: usize, line: &Vec<char>) -> (r: Vec<String>)
    ensures
        texts(r@) == cells_of(n as nat, line@),
{
    let cols = split_chars(line.as_slice(), ',');
    let ghost cs = split_on(line@, ',');
    let mut r: Vec<String> = Vec::new();
    let mut i: usize = 0;
    while i < n
        invariant
            i <= n,
            views(cols@) == cs,
            cs == split_on(line@, ','),
            texts(r@) == cells_of(n as nat, line@).take(i as int),
        decreases n - i,
    {
        let cell = if i < cols.len() {
            assert(cols@[i as int]@ == cs[i as int]);
            string_from(cols[i].as_slice())
        } else {
            String::new()
        };
        let ghost before = texts(r@);
        r.push(cell);
        assert(texts(r@) =~= before.push(cell@));
        assert(cells_of(n as nat, line@).take(i + 1) =~= cells_of(n as nat, line@).take(
            i as int,
        ).push(cell@));
        i += 1;
    }
    assert(cells_of(n as nat, line@).take(n as int) =~= cells_of(n as nat, line@));
    r
}

/// Reads the table of an uploaded CSV. Blank text is refused; blank lines are
/// skipped; the first line gives the column names (trimmed), every later line a
/// row of raw cells, one per column.
pub fn sda_table(content: &str) -> (r: Result<SdaTable, SdaError>)
    ensures
        match sda_table_of(content@) {
            None => r == Err::<SdaTable, SdaError>(SdaError::MissingContent),
            Some((h, rows)) => (r matches Ok(t) && texts(t.header@) == h && row_texts(t.rows@)
                == rows),
        },
{
    let c = chars_of(content);
    let t = trim_chars(c.as_slice());
    if t.len() == 0 {
        return Err(SdaError::MissingContent);
    }
    let ls = lines_of(c.as_slice());
    let kept = keep_lines(&ls);
    let ghost ks = views(kept@);
    let first: Vec<char> = if kept.len() > 0 {
        crate::text::slice_chars(kept[0].as_slice(), 0, kept[0].len())
    } else {
        chars_of("timestamp,value")
    };
    assert(first@ == if ks.len() > 0 {
        ks[0]
    } else {
        "timestamp,value"@
    });
    let parts = split_chars(first.as_slice(), ',');
    let ghost hs = header_of(first@);
    let mut header: Vec<String> = Vec::new();
    let mut i: usize = 0;
    while i < parts.len()
        invariant
            i <= parts@.len(),
            views(parts@) == split_on(first@, ','),
            hs == header_of(first@),
            texts(header@) == hs.take(i as int),
        decreases parts.len() - i,
    {
        let p = trim_chars(parts[i].as_slice());
        let h = string_from(p.as_slice());
        let ghost before = texts(header@);
        header.push(h);
        assert(texts(header@) =~= before.push(h@));
        assert(hs.take(i + 1) =~= hs.take(i as int).push(hs[i as int]));
        i += 1;
    }
    assert(hs.take(parts@.len() as int) =~= hs);
    let n = header.len();
    let ghost body = if ks.len() > 0 {
        ks.skip(1)
    } else {
        Seq::<Seq<char>>::empty()
    };
    let ghost want = body.map_values(|l: Seq<char>| cells_of(hs.len(), l));
    let mut rows: Vec<Vec<String>> = Vec::new();
    let mut j: usize = 1;
    while j < kept.len()
        invariant
            1 <= j,
            j <= kept@.len() || (kept@.len() == 0 && j == 1),
            ks == views(kept@),
            n == hs.len(),
            body == (if ks.len() > 0 {
                ks.skip(1)
            } else {
                Seq::<Seq<char>>::empty()
            }),
            want == body.map_values(|l: Seq<char>| cells_of(hs.len(), l)),
            row_texts(rows@) == want.take(j - 1),
        decreases kept.len() - j,
    {
        let row = row_cells(n, &kept[j]);
        let ghost before = row_texts(rows@);
        rows.push(row);
        assert(row_texts(rows@) =~= before.push(texts(row@)));
        assert(want.take(j as int) =~= want.take(j - 1).push(want[j - 1]));
        j += 1;
    }
    assert(want.take(want.len() as int) =~= want);
    if kept.len() == 0 {
        assert(want =~= Seq::<Seq<Seq<char>>>::empty());
        assert(want.take(0) =~= want);
    }
    assert(ks == kept_lines(lines(content@)));
    assert(sda_table_of(content@) == Some((hs, want)));
    Ok(SdaTable { header, rows })
}

/// Exporting two bodies one after the other gives the two exports one after the
/// other: sections are written independently.
pub proof fn law_csv_concat(a: Seq<ReportSection>, b: Seq<ReportSection>)
    ensures
        csv_text(a + b) == csv_text(a) + csv_text(b),
    decreases b.len(),
{
    if b.len() == 0 {
        assert(a + b =~= a);
        assert(csv_text(a) + Seq::<char>::empty() =~= csv_text(a));
    } else {
        law_csv_concat(a, b.drop_last());
        assert((a + b).drop_last() =~= a + b.drop_last());
        assert((a + b).last() == b.last());
        assert(csv_text(a) + csv_text(b.drop_last()) + section_text(b.last()) =~= csv_text(a) + (
        csv_text(b.drop_last()) + section_text(b.last())));
    }
}

/// Every row read from a CSV has exactly one cell per column.
pub proof fn law_sda_rows_match_header(content: Seq<char>)
    ensures
        sda_table_of(content) matches Some((h, rows)) ==> forall|i: int|
            0 <= i < rows.len() ==> #[trigger] rows[i].len() == h.len(),
{
}

} // verus!
