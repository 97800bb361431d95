//! The report of a fuzz run as text: totals by origin, then the results
//! grouped by status code in rising order.

use vstd::prelude::*;
use vstd::string::StringExecFns;
use crate::fuzz::{FuzzResult, FuzzSource};
use crate::text::{
    before_char, chars_of, decimal, owned, push_char, push_decimal, str_before_char, string_of,
};
use crate::urls::{ParsedUrl, UrlParts, parse_outcome};

verus! {

/// The heavy rule that frames the report.
pub open spec fn heavy_rule() -> Seq<char> {
    "═══════════════════════════════════════════════════════════════════════════════\n"@
}

/// The light rule under the heading of a status code.
pub open spec fn light_rule() -> Seq<char> {
    "───────────────────────────────────────────────────────────────────────────────\n"@
}

/// The number of results with the origin `source`.
pub open spec fn count_source(results: Seq<FuzzResult>, source: FuzzSource) -> nat
    decreases results.len(),
{
    if results.len() == 0 {
        0
    } else if results.last().source == source {
        count_source(results.drop_last(), source) + 1
    } else {
        count_source(results.drop_last(), source)
    }
}

/// The number of results with the status `code`.
pub open spec fn count_status(results: Seq<FuzzResult>, code: u16) -> nat
    decreases results.len(),
{
    if results.len() == 0 {
        0
    } else if results.last().status_code == code {
        count_status(results.drop_last(), code) + 1
    } else {
        count_status(results.drop_last(), code)
    }
}

/// The heading of a status code: the code in brackets, and what it means.
pub open spec fn status_label(code: u16) -> Seq<char> {
    "["@ + decimal(code as nat) + (if 200 <= code <= 299 {
        "] Success"@
    } else if 300 <= code <= 399 {
        "] Redirect"@
    } else if 400 <= code <= 499 {
        "] Client Error"@
    } else {
        "]"@
    })
}

/// The mark that shows where a result came from.
pub open spec fn source_marker(source: FuzzSource) -> Seq<char> {
    match source {
        FuzzSource::Initial => ""@,
        FuzzSource::Database => " [DB]"@,
        FuzzSource::Discovered => " [DISC]"@,
    }
}

/// The line of one result: its URL, the mark of its origin, its length in
/// bytes and its content type without parameters, as far as they are known.
pub open spec fn result_line(r: FuzzResult) -> Seq<char> {
    "  "@ + r.url@ + source_marker(r.source) + (match r.content_length {
        Some(n) => " ("@ + decimal(n as nat) + " bytes)"@,
        None => Seq::empty(),
    }) + (match r.content_type {
        Some(ct) => " ["@ + before_char(ct@, ';') + "]"@,
        None => Seq::empty(),
    }) + "\n"@
}

/// The lines of the results with the status `code`, in the order of the
/// results.
pub open spec fn lines_for_status(results: Seq<FuzzResult>, code: u16) -> Seq<char>
    decreases results.len(),
{
    if results.len() == 0 {
        Seq::empty()
    } else if results.last().status_code == code {
        lines_for_status(results.drop_last(), code) + result_line(results.last())
    } else {
        lines_for_status(results.drop_last(), code)
    }
}

/// The section of the status `code`: nothing where no result has it, else
/// the heading with the number of results, a rule, the lines and an empty
/// line.
pub open spec fn status_section(results: Seq<FuzzResult>, code: u16) -> Seq<char> {
    if count_status(results, code) == 0 {
        Seq::empty()
    } else {
        status_label(code) + " ("@ + decimal(count_status(results, code)) + " findings)\n"@
            + light_rule() + lines_for_status(results, code) + "\n"@
    }
}

/// The sections of the status codes below `to`, in rising order.
pub open spec fn sections_below(results: Seq<FuzzResult>, to: int) -> Seq<char>
    decreases to,
{
    if to <= 0 {
        Seq::empty()
    } else {
        sections_below(results, to - 1) + status_section(results, (to - 1) as u16)
    }
}

/// The lines that break the total down by origin. They are shown only where
/// some result did not come from the initial targets.
pub open spec fn breakdown(results: Seq<FuzzResult>) -> Seq<char> {
    let stored = count_source(results, FuzzSource::Database);
    let discovered = count_source(results, FuzzSource::Discovered);
    if stored > 0 || discovered > 0 {
        "  "@ + decimal(count_source(results, FuzzSource::Initial)) + " from initial targets\n"@ + (
        if stored > 0 {
            "  "@ + decimal(stored) + " from database endpoints\n"@
        } else {
            Seq::empty()
        }) + (if discovered > 0 {
            "  "@ + decimal(discovered) + " from discovered endpoints\n"@
        } else {
            Seq::empty()
        })
    } else {
        Seq::empty()
    }
}

/// The legend of the marks, shown where something was discovered.
pub open spec fn legend(results: Seq<FuzzResult>) -> Seq<char> {
    if count_source(results, FuzzSource::Discovered) > 0 {
        "  [DB] = From database  [DISC] = Discovered during fuzzing\n"@ + heavy_rule()
    } else {
        Seq::empty()
    }
}

/// The report of a fuzz run.
pub open spec fn fuzz_report(results: Seq<FuzzResult>) -> Seq<char> {
    "\n"@ + heavy_rule() + "                            FUZZ RESULTS\n"@ + heavy_rule() + "\n"@
        + "Total findings: "@ + decimal(results.len()) + "\n"@ + breakdown(results) + "\n"@
        + sections_below(results, 65536) + heavy_rule() + legend(results)
        + "                            End of Report\n"@ + heavy_rule()
}

fn count_from(results: &[FuzzResult], source: FuzzSource) -> (n: usize)
    ensures
        n == count_source(results@, source),
{
    let mut n: usize = 0;
    let mut i: usize = 0;
    assert(results@.take(0) =~= Seq::<FuzzResult>::empty());
    while i < results.len()
        invariant
            i <= results.len(),
            n == count_source(results@.take(i as int), source),
            n <= i,
        decreases results.len() - i,
    {
        assert(results@.take(i + 1).drop_last() =~= results@.take(i as int));
        if results[i].source == source {
            n += 1;
        }
        i += 1;
    }
    assert(results@.take(i as int) =~= results@);
    n
}

fn push_result_line(out: &mut String, r: &FuzzResult)
    ensures
        final(out)@ == old(out)@ + result_line(*r),
{
    let mut line = owned("  ");
    line.append(r.url.as_str());
    match r.source {
        FuzzSource::Initial => {
            line.append("");
        },
        FuzzSource::Database => {
            line.append(" [DB]");
        },
        FuzzSource::Discovered => {
            line.append(" [DISC]");
        },
    }
    let ghost after_marker = line@;
    match r.content_length {
        Some(n) => {
            line.append(" (");
            push_decimal(&mut line, n as u128);
            line.append(" bytes)");
            assert(line@ =~= after_marker + (" ("@ + decimal(n as nat) + " bytes)"@));
        },
        None => {
            assert(line@ =~= after_marker + Seq::<char>::empty());
        },
    }
    let ghost after_length = line@;
    match &r.content_type {
        Some(ct) => {
            let short = str_before_char(ct.as_str(), ';');
            line.append(" [");
            line.append(short.as_str());
            line.append("]");
            assert(line@ =~= after_length + (" ["@ + before_char(ct@, ';') + "]"@));
        },
        None => {
            assert(line@ =~= after_length + Seq::<char>::empty());
        },
    }
    line.append("\n");
    out.append(line.as_str());
}

fn push_status_section(out: &mut String, results: &[FuzzResult], code: u16)
    ensures
        final(out)@ == old(out)@ + status_section(results@, code),
{
    let mut lines = String::new();
    let mut n: usize = 0;
    let mut i: usize = 0;
    assert(results@.take(0) =~= Seq::<FuzzResult>::empty());
    while i < results.len()
        invariant
            i <= results.len(),
            n == count_status(results@.take(i as int), code),
            n <= i,
            lines@ == lines_for_status(results@.take(i as int), code),
        decreases results.len() - i,
    {
        assert(results@.take(i + 1).drop_last() =~= results@.take(i as int));
        if results[i].status_code == code {
            n += 1;
            push_result_line(&mut lines, &results[i]);
        }
        i += 1;
    }
    assert(results@.take(i as int) =~= results@);
    if n > 0 {
        let mut section = owned("[");
        push_decimal(&mut section, code as u128);
        if code >= 200 && code <= 299 {
            section.append("] Success");
        } else if code >= 300 && code <= 399 {
            section.append("] Redirect");
        } else if code >= 400 && code <= 499 {
            section.append("] Client Error");
        } else {
            section.append("]");
        }
        section.append(" (");
        push_decimal(&mut section, n as u128);
        section.append(" findings)\n");
        section.append(
            "───────────────────────────────────────────────────────────────────────────────\n",
        );
        section.append(lines.as_str());
        section.append("\n");
        assert(section@ =~= status_section(results@, code));
        out.append(section.as_str());
    } else {
        assert(old(out)@ + status_section(results@, code) =~= old(out)@);
    }
}

/// Writes the report of a fuzz run: the number of results, where they came
/// from, and the results under their status codes in rising order.
pub fn generate_fuzz_report(results: &[FuzzResult]) -> (report: String)
    ensures
        report@ == fuzz_report(results@),
{
    let initial_count = count_from(results, FuzzSource::Initial);
    let db_count = count_from(results, FuzzSource::Database);
    let discovered_count = count_from(results, FuzzSource::Discovered);

    // Which status codes occur at all.
    let mut present: Vec<bool> = Vec::new();
    let mut c: usize = 0;
    while c < 65536
        invariant
            c <= 65536,
            present@.len() == c,
            forall|k: int| 0 <= k < c ==> !(#[trigger] present@[k]),
        decreases 65536 - c,
    {
        present.push(false);
        c += 1;
    }
    let mut i: usize = 0;
    assert(results@.take(0) =~= Seq::<FuzzResult>::empty());
    while i < results.len()
        invariant
            i <= results.len(),
            present@.len() == 65536,
            forall|k: int|
                0 <= k < 65536 && !(#[trigger] present@[k]) ==> count_status(
                    results@.take(i as int),
                    k as u16,
                ) == 0,
        decreases results.len() - i,
    {
        assert(results@.take(i + 1).drop_last() =~= results@.take(i as int));
        present.set(results[i].status_code as usize, true);
        i += 1;
    }
    assert(results@.take(i as int) =~= results@);

    let mut report = owned("\n");
    report.append(
        "═══════════════════════════════════════════════════════════════════════════════\n",
    );
    report.append("                            FUZZ RESULTS\n");
    report.append(
        "═══════════════════════════════════════════════════════════════════════════════\n",
    );
    report.append("\n");
    report.append("Total findings: ");
    push_decimal(&mut report, results.len() as u128);
    report.append("\n");
    let ghost before_breakdown = report@;
    if db_count > 0 || discovered_count > 0 {
        report.append("  ");
        push_decimal(&mut report, initial_count as u128);
        report.append(" from initial targets\n");
        let ghost b1 = report@;
        if db_count > 0 {
            report.append("  ");
            push_decimal(&mut report, db_count as u128);
            report.append(" from database endpoints\n");
            assert(report@ =~= b1 + ("  "@ + decimal(db_count as nat)
                + " from database endpoints\n"@));
        } else {
            assert(report@ =~= b1 + Seq::<char>::empty());
        }
        let ghost b2 = report@;
        if discovered_count > 0 {
            report.append("  ");
            push_decimal(&mut report, discovered_count as u128);
            report.append(" from discovered endpoints\n");
            assert(report@ =~= b2 + ("  "@ + decimal(discovered_count as nat)
                + " from discovered endpoints\n"@));
        } else {
            assert(report@ =~= b2 + Seq::<char>::empty());
        }
    }
    assert(report@ =~= before_breakdown + breakdown(results@));
    report.append("\n");
    let ghost head = report@;
    assert(head =~= "\n"@ + heavy_rule() + "                            FUZZ RESULTS\n"@
        + heavy_rule() + "\n"@ + "Total findings: "@ + decimal(results@.len()) + "\n"@
        + breakdown(results@) + "\n"@);

    let mut code: usize = 0;
    assert(head + sections_below(results@, 0) =~= head);
    while code < 65536
        invariant
            code <= 65536,
            present@.len() == 65536,
            forall|k: int|
                0 <= k < 65536 && !(#[trigger] present@[k]) ==> count_status(results@, k as u16)
                    == 0,
            report@ == head + sections_below(results@, code as int),
        decreases 65536 - code,
    {
        let ghost before = report@;
        if present[code] {
            push_status_section(&mut report, results, code as u16);
        } else {
            assert(status_section(results@, code as u16) =~= Seq::<char>::empty());
            assert(before + status_section(results@, code as u16) =~= before);
        }
        assert(report@ =~= head + sections_below(results@, code + 1));
        code += 1;
    }

    report.append(
        "═══════════════════════════════════════════════════════════════════════════════\n",
    );
    let ghost before_legend = report@;
    if discovered_count > 0 {
        report.append("  [DB] = From database  [DISC] = Discovered during fuzzing\n");
        report.append(
            "═══════════════════════════════════════════════════════════════════════════════\n",
        );
        assert(report@ =~= before_legend + legend(results@));
    } else {
        assert(report@ =~= before_legend + legend(results@));
    }
    report.append("                            End of Report\n");
    report.append(
        "═══════════════════════════════════════════════════════════════════════════════\n",
    );
    assert(report@ =~= fuzz_report(results@));
    report
}

/// The path of a URL as the list of hits shows it: the path, cut down to
/// three dots and its last 37 characters where it has more than 40; the text
/// itself where it is no URL.
pub open spec fn display_path(outcome: Result<UrlParts, Seq<char>>, url: Seq<char>) -> Seq<char> {
    match outcome {
        Ok(parts) => if parts.path.len() > 40 {
            "..."@ + parts.path.subrange(parts.path.len() - 37, parts.path.len() as int)
        } else {
            parts.path
        },
        Err(_) => url,
    }
}

/// The path of `url` as the list of hits shows it.
pub fn extract_path(url: &str) -> (path: String)
    ensures
        path@ == display_path(parse_outcome(url@), url@),
{
    match ParsedUrl::parse(url) {
        Ok(parts) => {
            let v = chars_of(parts.path.as_str());
            if v.len() > 40 {
                let tail = string_of(&v, v.len() - 37, v.len());
                owned("...").concat(tail.as_str())
            } else {
                parts.path
            }
        },
        Err(_) => owned(url),
    }
}

/// The most hits that stand in one column.
pub const HITS_PER_COLUMN: usize = 10;

/// `n` spaces.
pub open spec fn spaces(n: nat) -> Seq<char> {
    Seq::new(n, |i: int| ' ')
}

/// `s` with spaces after it up to the width `width`.
pub open spec fn padded(s: Seq<char>, width: nat) -> Seq<char> {
    if s.len() >= width {
        s
    } else {
        s + spaces((width - s.len()) as nat)
    }
}

/// The first `n` hits, one on a line.
pub open spec fn hit_lines(hits: Seq<String>, n: int) -> Seq<char>
    decreases n,
{
    if n <= 0 {
        Seq::empty()
    } else {
        hit_lines(hits, n - 1) + "  "@ + hits[n - 1]@ + "\n"@
    }
}

/// The number of columns that `total` hits take.
pub open spec fn column_count(total: int) -> int {
    (total + HITS_PER_COLUMN - 1) / (HITS_PER_COLUMN as int)
}

/// What stands in the row `row` of the column `col`: the hit, padded to 50
/// characters behind two spaces, or 52 spaces where the column ends
/// earlier; and two more spaces unless the column is the last.
pub open spec fn cell(hits: Seq<String>, row: int, col: int) -> Seq<char> {
    (if col * HITS_PER_COLUMN + row < hits.len() {
        "  "@ + padded(hits[col * HITS_PER_COLUMN + row]@, 50)
    } else {
        spaces(52)
    }) + (if col < column_count(hits.len() as int) - 1 {
        "  "@
    } else {
        Seq::empty()
    })
}

/// The first `n` cells of the row `row`.
pub open spec fn row_cells(hits: Seq<String>, row: int, n: int) -> Seq<char>
    decreases n,
{
    if n <= 0 {
        Seq::empty()
    } else {
        row_cells(hits, row, n - 1) + cell(hits, row, n - 1)
    }
}

/// The first `n` rows of the columns.
pub open spec fn hit_rows(hits: Seq<String>, n: int) -> Seq<char>
    decreases n,
{
    if n <= 0 {
        Seq::empty()
    } else {
        hit_rows(hits, n - 1) + row_cells(hits, n - 1, column_count(hits.len() as int)) + "\n"@
    }
}

/// The list of hits as it is shown: the number of hits, then the hits one
/// on a line; or, with more than ten, in columns of ten side by side.
pub open spec fn hits_display(hits: Seq<String>) -> Seq<char> {
    if hits.len() == 0 {
        "Hits: 0"@
    } else if hits.len() <= HITS_PER_COLUMN {
        "Hits: "@ + decimal(hits.len()) + "\n"@ + hit_lines(hits, hits.len() as int)
    } else {
        "Hits: "@ + decimal(hits.len()) + " (showing in "@ + decimal(
            column_count(hits.len() as int) as nat,
        ) + " columns)\n"@ + hit_rows(hits, HITS_PER_COLUMN as int)
    }
}

fn push_spaces(out: &mut String, n: usize)
    ensures
        final(out)@ == old(out)@ + spaces(n as nat),
{
    let mut i: usize = 0;
    assert(out@ =~= old(out)@ + spaces(0));
    while i < n
        invariant
            i <= n,
            out@ == old(out)@ + spaces(i as nat),
        decreases n - i,
    {
        push_char(out, ' ');
        assert(out@ =~= old(out)@ + spaces((i + 1) as nat));
        i += 1;
    }
}

fn push_cell(out: &mut String, hits: &[String], row: usize, col: usize, columns: usize)
    requires
        row < HITS_PER_COLUMN,
        col < columns,
        columns == column_count(hits@.len() as int),
    ensures
        final(out)@ == old(out)@ + cell(hits@, row as int, col as int),
{
    let mut text = String::new();
    let index: u128 = (col as u128) * (HITS_PER_COLUMN as u128) + (row as u128);
    if index < hits.len() as u128 {
        let hit = hits[index as usize].as_str();
        text.append("  ");
        text.append(hit);
        let len = hit.unicode_len();
        if len < 50 {
            push_spaces(&mut text, 50 - len);
        } else {
            assert(text@ =~= "  "@ + padded(hit@, 50));
        }
        assert(text@ =~= "  "@ + padded(hit@, 50));
    } else {
        push_spaces(&mut text, 52);
        assert(text@ =~= spaces(52));
    }
    let ghost before = text@;
    if col < columns - 1 {
        text.append("  ");
    } else {
        assert(text@ =~= before + Seq::<char>::empty());
    }
    out.append(text.as_str());
}

fn push_row(out: &mut String, hits: &[String], row: usize, columns: usize)
    requires
        row < HITS_PER_COLUMN,
        columns == column_count(hits@.len() as int),
    ensures
        final(out)@ == old(out)@ + row_cells(hits@, row as int, columns as int) + "\n"@,
{
    let mut cells = String::new();
    let mut col: usize = 0;
    while col < columns
        invariant
            col <= columns,
            row < HITS_PER_COLUMN,
            columns == column_count(hits@.len() as int),
            cells@ == row_cells(hits@, row as int, col as int),
        decreases columns - col,
    {
        push_cell(&mut cells, hits, row, col, columns);
        col += 1;
    }
    cells.append("\n");
    out.append(cells.as_str());
}

/// Writes the list of hits: the number of hits, then the hits one on a
/// line; or, with more than ten, in columns of ten side by side.
pub fn format_hits_display(hits: &[String]) -> (display: String)
    ensures
        display@ == hits_display(hits@),
{
    let total = hits.len();
    if total == 0 {
        return owned("Hits: 0");
    }
    let mut display = owned("Hits: ");
    push_decimal(&mut display, total as u128);
    if total <= HITS_PER_COLUMN {
        display.append("\n");
        let ghost head = display@;
        let mut i: usize = 0;
        assert(head + hit_lines(hits@, 0) =~= head);
        while i < total
            invariant
                i <= total,
                total == hits@.len(),
                display@ == head + hit_lines(hits@, i as int),
            decreases total - i,
        {
            display.append("  ");
            display.append(hits[i].as_str());
            display.append("\n");
            assert(display@ =~= head + hit_lines(hits@, i + 1));
            i += 1;
        }
        display
    } else {
        let columns: usize = (total - 1) / HITS_PER_COLUMN + 1;
        assert(columns == column_count(total as int));
        display.append(" (showing in ");
        push_decimal(&mut display, columns as u128);
        display.append(" columns)\n");
        let ghost head = display@;
        let mut row: usize = 0;
        assert(head + hit_rows(hits@, 0) =~= head);
        while row < HITS_PER_COLUMN
            invariant
                row <= HITS_PER_COLUMN,
                columns == column_count(hits@.len() as int),
                display@ == head + hit_rows(hits@, row as int),
            decreases HITS_PER_COLUMN - row,
        {
            push_row(&mut display, hits, row, columns);
            assert(display@ =~= head + hit_rows(hits@, row + 1));
            row += 1;
        }
        display
    }
}

} // verus!
