//! The Markdown file format, stated as spec functions: how a file is read
//! (`parse_file_spec`) and how logs are written (`daily_log_text`,
//! `backlog_text`).
//!
//! A file is an HTML comment header, an H1 heading with a date or `Backlog`,
//! and a GFM table with the columns Status | Bullet | Notes | Migration | ID.

use crate::date::{date_text, parsed_date, Date};
use crate::error::ErrorView;
use crate::id::is_valid_id;
use crate::model::{
    status_emoji, status_of_emoji, BulletView, Link, DailyLogView, MigrationFromView, MigrationTarget,
    MigrationToView,
};
use crate::text::{contains, find, first_from, join_lines, lines, starts_with, trim, trim_start};
use vstd::prelude::*;

verus! {

// ---------------------------------------------------------------------------
// Escaping of pipes inside cells

/// Each `|` written as `\|`.
pub open spec fn escape(s: Seq<char>) -> Seq<char>
    decreases s.len(),
{
    if s.len() == 0 {
        seq![]
    } else if s[0] == '|' {
        seq!['\\', '|'] + escape(s.drop_first())
    } else {
        seq![s[0]] + escape(s.drop_first())
    }
}

/// Each `\|` read as `|`.
pub open spec fn unescape(s: Seq<char>) -> Seq<char>
    decreases s.len(),
{
    if s.len() == 0 {
        seq![]
    } else if s.len() >= 2 && s[0] == '\\' && s[1] == '|' {
        seq!['|'] + unescape(s.skip(2))
    } else {
        seq![s[0]] + unescape(s.drop_first())
    }
}

// ---------------------------------------------------------------------------
// Table rows

/// A `|` at `k` that is not escaped by a backslash separates cells.
pub open spec fn is_sep(s: Seq<char>, k: int) -> bool {
    s[k] == '|' && (k == 0 || s[k - 1] != '\\')
}

pub open spec fn sep_index(s: Seq<char>) -> int {
    first_from(s.len() as int, 0, |k: int| is_sep(s, k))
}

/// The pieces of `s` between separating pipes.
pub open spec fn split_cells(s: Seq<char>) -> Seq<Seq<char>>
    decreases s.len(),
{
    let i = sep_index(s);
    if 0 <= i < s.len() {
        seq![s.take(i)] + split_cells(s.skip(i + 1))
    } else {
        seq![s]
    }
}

/// A row without its leading pipe and without an unescaped trailing pipe.
pub open spec fn row_inner(row: Seq<char>) -> Seq<char> {
    let t = trim(row);
    let a = if t.len() > 0 && t[0] == '|' {
        t.drop_first()
    } else {
        t
    };
    if a.len() > 0 && a.last() == '|' && !(a.len() >= 2 && a[a.len() - 2] == '\\') {
        a.drop_last()
    } else {
        a
    }
}

/// The trimmed cells of a table row.
pub open spec fn row_cells(row: Seq<char>) -> Seq<Seq<char>> {
    split_cells(row_inner(row)).map_values(|c: Seq<char>| trim(c))
}

// ---------------------------------------------------------------------------
// Notes

pub open spec fn ascii_lower(c: char) -> char {
    if 'A' <= c && c <= 'Z' {
        ((c as int) + 32) as char
    } else {
        c
    }
}

/// The length of the `<br>`, `<br/>` or `<br />` tag (in any case) at `k`, or 0.
pub open spec fn br_len_at(s: Seq<char>, k: int) -> int {
    if 0 <= k && k + 4 <= s.len() && s[k] == '<' && ascii_lower(s[k + 1]) == 'b' && ascii_lower(
        s[k + 2],
    ) == 'r' {
        if s[k + 3] == '>' {
            4
        } else if k + 5 <= s.len() && s[k + 3] == '/' && s[k + 4] == '>' {
            5
        } else if k + 6 <= s.len() && s[k + 3] == ' ' && s[k + 4] == '/' && s[k + 5] == '>' {
            6
        } else {
            0
        }
    } else {
        0
    }
}

pub open spec fn br_index(s: Seq<char>) -> int {
    first_from(s.len() as int, 0, |k: int| br_len_at(s, k) > 0)
}

/// The pieces of `s` between `<br>` tags.
pub open spec fn split_br(s: Seq<char>) -> Seq<Seq<char>>
    decreases s.len(),
{
    let i = br_index(s);
    if 0 <= i < s.len() && br_len_at(s, i) > 0 {
        seq![s.take(i)] + split_br(s.skip(i + br_len_at(s, i)))
    } else {
        seq![s]
    }
}

/// The trimmed pieces that are not empty.
pub open spec fn clean_notes(ps: Seq<Seq<char>>) -> Seq<Seq<char>>
    decreases ps.len(),
{
    if ps.len() == 0 {
        seq![]
    } else if trim(ps[0]).len() > 0 {
        seq![trim(ps[0])] + clean_notes(ps.drop_first())
    } else {
        clean_notes(ps.drop_first())
    }
}

/// The notes that a Notes cell holds.
pub open spec fn notes_of(s: Seq<char>) -> Seq<Seq<char>> {
    clean_notes(split_br(trim(s)))
}

// ---------------------------------------------------------------------------
// Migration links

pub open spec fn lit_to() -> Seq<char> {
    seq!['t', 'o', ' ']
}

pub open spec fn lit_from() -> Seq<char> {
    seq!['f', 'r', 'o', 'm', ' ']
}

pub open spec fn lit_backlog() -> Seq<char> {
    seq!['b', 'a', 'c', 'k', 'l', 'o', 'g']
}

pub open spec fn lit_close_open() -> Seq<char> {
    seq![']', '(']
}

/// The index of the last `/` in `s`, or -1.
pub open spec fn last_slash(s: Seq<char>) -> int {
    let j = first_from(s.len() as int, 0, |k: int| s[s.len() - 1 - k] == '/');
    if j < s.len() {
        s.len() - 1 - j
    } else {
        -1
    }
}

pub open spec fn missing_slash_detail(reference: Seq<char>) -> Seq<char> {
    "migration reference missing '/': "@ + reference
}

/// `to DATE/ID` or `to backlog/ID`, without the `to `.
pub open spec fn parse_to_ref(reference: Seq<char>, line: nat) -> Result<Link, ErrorView> {
    let p = last_slash(reference);
    if p < 0 {
        Err(ErrorView::MalformedRow { line, detail: missing_slash_detail(reference) })
    } else {
        let target = reference.take(p);
        let id = reference.skip(p + 1);
        if target == lit_backlog() {
            Ok(Link::To(MigrationToView { target_date: MigrationTarget::Backlog, target_id: id }))
        } else {
            match parsed_date(target) {
                Some(d) => Ok(
                    Link::To(MigrationToView { target_date: MigrationTarget::Date(d), target_id: id }),
                ),
                None => Err(ErrorView::InvalidDate { value: target }),
            }
        }
    }
}

/// `from DATE/ID`, without the `from `.
pub open spec fn parse_from_ref(reference: Seq<char>, line: nat) -> Result<Link, ErrorView> {
    let p = last_slash(reference);
    if p < 0 {
        Err(ErrorView::MalformedRow { line, detail: missing_slash_detail(reference) })
    } else {
        let source = reference.take(p);
        let id = reference.skip(p + 1);
        match parsed_date(source) {
            Some(d) => Ok(Link::From(MigrationFromView { source_date: d, source_id: id })),
            None => Err(ErrorView::InvalidDate { value: source }),
        }
    }
}

/// Reads the link at the start of `t` (`[text](url)`); gives the link and
/// what follows its closing parenthesis. `cell` is the whole cell, which
/// errors quote.
pub open spec fn parse_link(t: Seq<char>, cell: Seq<char>, line: nat) -> Result<
    (Link, Seq<char>),
    ErrorView,
> {
    if t.len() == 0 || t[0] != '[' {
        Err(ErrorView::InvalidMigrationLink { value: cell })
    } else {
        let w = t.drop_first();
        let p = find(w, lit_close_open());
        if p >= w.len() {
            Err(ErrorView::InvalidMigrationLink { value: cell })
        } else {
            let text = w.take(p);
            let e = first_from(w.len() as int, p + 2, |k: int| w[k] == ')');
            let rest = if e < w.len() {
                w.skip(e + 1)
            } else {
                seq![]
            };
            if starts_with(text, lit_to()) {
                match parse_to_ref(text.skip(3), line) {
                    Ok(l) => Ok((l, rest)),
                    Err(err) => Err(err),
                }
            } else if starts_with(text, lit_from()) {
                match parse_from_ref(text.skip(5), line) {
                    Ok(l) => Ok((l, rest)),
                    Err(err) => Err(err),
                }
            } else {
                Err(ErrorView::InvalidMigrationLink { value: cell })
            }
        }
    }
}

/// A Migration cell read as a single link: nothing when the cell is blank,
/// otherwise the link at its start (what follows the link is not read).
pub open spec fn parse_single_link_spec(m: Seq<char>, line: nat) -> Result<Option<Link>, ErrorView> {
    let t = trim(m);
    if t.len() == 0 {
        Ok(None)
    } else {
        match parse_link(t, t, line) {
            Ok((l, _rest)) => Ok(Some(l)),
            Err(e) => Err(e),
        }
    }
}

pub open spec fn link_pair(l: Link) -> (Option<MigrationToView>, Option<MigrationFromView>) {
    match l {
        Link::To(t) => (Some(t), None),
        Link::From(f) => (None, Some(f)),
    }
}

/// The Migration cell: nothing, one link, or a `from` link and a `to` link
/// (in either order) separated by whitespace.
pub open spec fn parse_migration_spec(m: Seq<char>, line: nat) -> Result<
    (Option<MigrationToView>, Option<MigrationFromView>),
    ErrorView,
> {
    let t = trim(m);
    if t.len() == 0 {
        Ok((None, None))
    } else {
        match parse_link(t, t, line) {
            Err(e) => Err(e),
            Ok((l1, rest)) => {
                let r = trim(rest);
                if r.len() == 0 {
                    Ok(link_pair(l1))
                } else {
                    match parse_link(r, t, line) {
                        Err(e) => Err(e),
                        Ok((l2, rest2)) => {
                            if trim(rest2).len() != 0 {
                                Err(ErrorView::InvalidMigrationLink { value: t })
                            } else {
                                match (l1, l2) {
                                    (Link::From(f), Link::To(to)) => Ok((Some(to), Some(f))),
                                    (Link::To(to), Link::From(f)) => Ok((Some(to), Some(f))),
                                    _ => Err(ErrorView::InvalidMigrationLink { value: t }),
                                }
                            }
                        }
                    }
                }
            }
        }
    }
}

// ---------------------------------------------------------------------------
// Rows

pub open spec fn empty_id_detail() -> Seq<char> {
    "empty ID column"@
}

pub open spec fn invalid_id_detail(id: Seq<char>) -> Seq<char> {
    "invalid ID: "@ + id
}

/// A bullet from the five trimmed cells of its row.
pub open spec fn parse_row_spec(cols: Seq<Seq<char>>, line: nat) -> Result<BulletView, ErrorView> {
    let st = trim(cols[0]);
    match status_of_emoji(st) {
        None => Err(ErrorView::UnknownStatusEmoji { emoji: st }),
        Some(status) => {
            let notes = notes_of(unescape(cols[2]));
            match parse_migration_spec(unescape(cols[3]), line) {
                Err(e) => Err(e),
                Ok((to, from)) => {
                    let id = trim(cols[4]);
                    if id.len() == 0 {
                        Err(ErrorView::MalformedRow { line, detail: empty_id_detail() })
                    } else if !is_valid_id(id) {
                        Err(ErrorView::MalformedRow { line, detail: invalid_id_detail(id) })
                    } else {
                        Ok(
                            BulletView {
                                id,
                                status,
                                text: unescape(cols[1]),
                                notes,
                                migrated_to: to,
                                migrated_from: from,
                            },
                        )
                    }
                }
            }
        }
    }
}

// ---------------------------------------------------------------------------
// Whole files

pub open spec fn lit_comment_open() -> Seq<char> {
    seq!['<', '!', '-', '-']
}

pub open spec fn lit_comment_close() -> Seq<char> {
    seq!['-', '-', '>']
}

pub open spec fn lit_heading() -> Seq<char> {
    seq!['#', ' ']
}

pub open spec fn lit_pipe() -> Seq<char> {
    seq!['|']
}

pub open spec fn lit_dashes() -> Seq<char> {
    seq!['-', '-', '-']
}

pub open spec fn unclosed_detail(path: Seq<char>) -> Seq<char> {
    "unclosed HTML comment in "@ + path + ": found '<!--' but no closing '-->'"@
}

/// The index of the first line after the leading HTML comment.
pub open spec fn after_comment(ls: Seq<Seq<char>>, path: Seq<char>) -> Result<int, ErrorView> {
    if ls.len() > 0 && starts_with(trim_start(ls[0]), lit_comment_open()) {
        if contains(ls[0], lit_comment_close()) {
            Ok(1)
        } else {
            let j = first_from(ls.len() as int, 1, |k: int| contains(ls[k], lit_comment_close()));
            if j < ls.len() {
                Ok(j + 1)
            } else {
                Err(ErrorView::MalformedRow { line: 1, detail: unclosed_detail(path) })
            }
        }
    } else {
        Ok(0)
    }
}

/// The index of the first line at or after `i` that is not blank.
pub open spec fn skip_blank(ls: Seq<Seq<char>>, i: int) -> int {
    first_from(ls.len() as int, i, |k: int| trim(ls[k]).len() > 0)
}

pub enum HeadingView {
    Date(Date),
    Backlog,
}

pub open spec fn eq_ignore_ascii_case(a: Seq<char>, b: Seq<char>) -> bool {
    a.len() == b.len() && forall|k: int| 0 <= k < a.len() ==> ascii_lower(a[k]) == ascii_lower(b[k])
}

/// The H1 heading at line `i`.
pub open spec fn parse_heading_spec(ls: Seq<Seq<char>>, i: int, path: Seq<char>) -> Result<
    HeadingView,
    ErrorView,
> {
    if i < 0 || i >= ls.len() || !starts_with(ls[i], lit_heading()) {
        Err(ErrorView::MissingDateHeading { path })
    } else {
        let t = trim(ls[i].skip(2));
        if eq_ignore_ascii_case(t, lit_backlog()) {
            Ok(HeadingView::Backlog)
        } else {
            match parsed_date(t) {
                Some(d) => Ok(HeadingView::Date(d)),
                None => Err(ErrorView::InvalidDate { value: t }),
            }
        }
    }
}

/// The data rows from line `j` on, up to the first line that is not a row.
pub open spec fn parse_rows_spec(ls: Seq<Seq<char>>, j: int) -> Result<Seq<BulletView>, ErrorView>
    decreases ls.len() - j,
{
    if j < 0 || j >= ls.len() {
        Ok(seq![])
    } else {
        let t = trim(ls[j]);
        if t.len() == 0 || !starts_with(t, lit_pipe()) {
            Ok(seq![])
        } else {
            let cols = row_cells(t);
            if cols.len() != 5 {
                Err(
                    ErrorView::MissingColumns {
                        line: (j + 1) as nat,
                        expected: 5,
                        found: cols.len(),
                    },
                )
            } else {
                match parse_row_spec(cols, (j + 1) as nat) {
                    Err(e) => Err(e),
                    Ok(b) => match parse_rows_spec(ls, j + 1) {
                        Err(e) => Err(e),
                        Ok(bs) => Ok(seq![b] + bs),
                    },
                }
            }
        }
    }
}

/// The table that starts at line `i`: nothing when there is no table of
/// five columns there.
pub open spec fn parse_table_spec(ls: Seq<Seq<char>>, i: int) -> Result<Seq<BulletView>, ErrorView> {
    if i < 0 || i >= ls.len() || !starts_with(trim_start(ls[i]), lit_pipe()) {
        Ok(seq![])
    } else if row_cells(ls[i]).len() != 5 {
        Ok(seq![])
    } else {
        let j = if i + 1 < ls.len() && starts_with(trim_start(ls[i + 1]), lit_pipe()) && contains(
            ls[i + 1],
            lit_dashes(),
        ) {
            i + 2
        } else {
            i + 1
        };
        parse_rows_spec(ls, j)
    }
}

pub enum ParsedFileView {
    DailyLog(DailyLogView),
    Backlog(Seq<BulletView>),
}

/// What a file holds, read from its lines.
pub open spec fn parse_lines_spec(ls: Seq<Seq<char>>, path: Seq<char>) -> Result<
    ParsedFileView,
    ErrorView,
> {
    match after_comment(ls, path) {
        Err(e) => Err(e),
        Ok(i) => {
            let h = skip_blank(ls, i);
            match parse_heading_spec(ls, h, path) {
                Err(e) => Err(e),
                Ok(heading) => match parse_table_spec(ls, skip_blank(ls, h + 1)) {
                    Err(e) => Err(e),
                    Ok(bullets) => match heading {
                        HeadingView::Date(d) => Ok(
                            ParsedFileView::DailyLog(DailyLogView { date: d, bullets }),
                        ),
                        HeadingView::Backlog => Ok(ParsedFileView::Backlog(bullets)),
                    },
                },
            }
        }
    }
}

/// What the text of a file holds.
pub open spec fn parse_file_spec(content: Seq<char>, path: Seq<char>) -> Result<
    ParsedFileView,
    ErrorView,
> {
    parse_lines_spec(lines(content), path)
}

// ---------------------------------------------------------------------------
// Writing

/// Notes joined with `<br>`.
pub open spec fn join_br(ns: Seq<Seq<char>>) -> Seq<char>
    decreases ns.len(),
{
    if ns.len() == 0 {
        seq![]
    } else if ns.len() == 1 {
        ns[0]
    } else {
        ns[0] + seq!['<', 'b', 'r', '>'] + join_br(ns.drop_first())
    }
}

/// The Notes cell: each note escaped, joined with `<br>`.
pub open spec fn notes_cell(ns: Seq<Seq<char>>) -> Seq<char> {
    join_br(ns.map_values(|n: Seq<char>| escape(n)))
}

pub open spec fn to_link(t: MigrationToView) -> Seq<char> {
    match t.target_date {
        MigrationTarget::Date(d) => "[to "@ + date_text(d) + "/"@ + t.target_id + "](./"@ + date_text(
            d,
        ) + ".md)"@,
        MigrationTarget::Backlog => "[to backlog/"@ + t.target_id + "](./backlog.md)"@,
    }
}

pub open spec fn from_link(f: MigrationFromView) -> Seq<char> {
    "[from "@ + date_text(f.source_date) + "/"@ + f.source_id + "](./"@ + date_text(f.source_date)
        + ".md)"@
}

/// The Migration cell: the `from` link, then the `to` link.
pub open spec fn migration_cell(to: Option<MigrationToView>, from: Option<MigrationFromView>) -> Seq<
    char,
> {
    match (from, to) {
        (None, None) => seq![],
        (Some(f), None) => from_link(f),
        (None, Some(t)) => to_link(t),
        (Some(f), Some(t)) => from_link(f) + seq![' '] + to_link(t),
    }
}

/// A table row of five cells.
pub open spec fn row_of(c0: Seq<char>, c1: Seq<char>, c2: Seq<char>, c3: Seq<char>, c4: Seq<char>) -> Seq<
    char,
> {
    seq!['|', ' '] + c0 + seq![' ', '|', ' '] + c1 + seq![' ', '|', ' '] + c2 + seq![' ', '|', ' ']
        + c3 + seq![' ', '|', ' '] + c4 + seq![' ', '|']
}

/// The row that a bullet is written as.
pub open spec fn bullet_row(b: BulletView) -> Seq<char> {
    row_of(
        status_emoji(b.status),
        escape(b.text),
        notes_cell(b.notes),
        escape(migration_cell(b.migrated_to, b.migrated_from)),
        b.id,
    )
}

pub open spec fn table_header() -> Seq<char> {
    "| Status | Bullet | Notes | Migration | ID |"@
}

pub open spec fn table_separator() -> Seq<char> {
    "|--------|--------|-------|-----------|-----|"@
}

/// The lines of the comment header that every file starts with.
pub open spec fn header_lines() -> Seq<Seq<char>> {
    header_part0() + header_part1() + header_part2() + header_part3() + header_part4()
}

pub open spec fn header_part0() -> Seq<Seq<char>> {
    seq![
        "<!--"@,
        "  \u{26A0}\u{FE0F} bulletd managed file \u{2014} do not hand edit"@,
        "  Hand editing may break bulletd TUI or MCP server."@,
        ""@,
        "  Format: GFM table with columns: Status | Bullet | Notes | Migration | ID"@,
    ]
}

pub open spec fn header_part1() -> Seq<Seq<char>> {
    seq![
        ""@,
        "  Status Emoji Reference:"@,
        "    \u{1F4CC}  Open task \u{2014} not yet acted on"@,
        "    \u{2705}  Done \u{2014} completed"@,
        "    \u{27A1}\u{FE0F}  Migrated \u{2014} moved to another day"@,
    ]
}

pub open spec fn header_part2() -> Seq<Seq<char>> {
    seq![
        "    \u{274C}  Cancelled \u{2014} dropped"@,
        "    \u{1F4E5}  Backlogged \u{2014} moved to backlog.md"@,
        "    \u{1F4C5}  Event \u{2014} something that happened or is scheduled"@,
        "    \u{1F4DD}  Note \u{2014} information, context, thoughts"@,
        ""@,
    ]
}

pub open spec fn header_part3() -> Seq<Seq<char>> {
    seq![
        "  Notes: Optional context. Use <br> for multiple lines."@,
        ""@,
        "  Migration: Traceability for migrated/backlogged tasks. Rendered as clickable links."@,
        "    \"to YYYY-MM-DD/ID\" links to the target file"@,
        "    \"from YYYY-MM-DD/ID\" links to the source file"@,
    ]
}

pub open spec fn header_part4() -> Seq<Seq<char>> {
    seq![
        "    \"to backlog/ID\" links to backlog.md"@,
        ""@,
        "  ID: 8-char hex, unique within this file."@,
        "      Cross-file references use date/id format (e.g. 2026-04-05/c5a1d9e7)"@,
        "-->"@,
    ]
}

/// The lines of the table: header, separator and one row per bullet.
pub open spec fn table_lines(bullets: Seq<BulletView>) -> Seq<Seq<char>> {
    seq![table_header(), table_separator()] + bullets.map_values(|b: BulletView| bullet_row(b))
}

/// The lines of a daily log file.
pub open spec fn daily_log_lines(log: DailyLogView) -> Seq<Seq<char>> {
    header_lines() + seq![seq![], lit_heading() + date_text(log.date), seq![]] + table_lines(
        log.bullets,
    )
}

/// The lines of the backlog file.
pub open spec fn backlog_lines(bullets: Seq<BulletView>) -> Seq<Seq<char>> {
    header_lines() + seq![seq![], "# Backlog"@, seq![]] + table_lines(bullets)
}

/// The text a daily log is written as.
pub open spec fn daily_log_text(log: DailyLogView) -> Seq<char> {
    join_lines(daily_log_lines(log))
}

/// The text the backlog is written as.
pub open spec fn backlog_text(bullets: Seq<BulletView>) -> Seq<char> {
    join_lines(backlog_lines(bullets))
}

} // verus!
