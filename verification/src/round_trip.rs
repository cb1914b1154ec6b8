//! Reading back what was written: a well-formed log, serialized and parsed
//! again, is the same log.

use crate::date::{
    date_text, decimal, decimal4, digit, is_digit, lemma_date_text_reads_back, lemma_digit, parsed_date,
    two_digits, year_text, Date,
};
use crate::error::ErrorView;
use crate::format::{
    after_comment, backlog_lines, backlog_text, br_index, br_len_at, bullet_row, clean_notes,
    daily_log_lines, daily_log_text, eq_ignore_ascii_case, escape, from_link, header_lines, is_sep,
    join_br, last_slash, lit_backlog, lit_close_open, lit_comment_close, lit_comment_open,
    lit_dashes, lit_from, lit_heading, lit_pipe, lit_to, migration_cell, notes_cell, notes_of,
    parse_file_spec, parse_heading_spec, parse_link, parse_migration_spec, parse_row_spec,
    parse_rows_spec, parse_table_spec, row_cells, row_inner, row_of, sep_index, skip_blank,
    split_br, split_cells, table_header, table_lines, table_separator, to_link, unescape,
    HeadingView, ParsedFileView,
};
use crate::id::is_valid_id;
use crate::model::{
    lemma_status_emoji_round_trip, status_emoji, BulletStatus, BulletView, DailyLogView, Link,
    MigrationFromView, MigrationTarget, MigrationToView,
};
use crate::text::{
    contains, find, first_from, is_trimmed, is_ws, join_lines, lemma_first_from_unique,
    lemma_lines_join, lemma_trim_of_trimmed, lemma_trim_pad, lemma_trim_start_nonws, lines,
    occurs_at, plain_line, starts_with, trim, trim_start,
};
use vstd::prelude::*;

verus! {

// ---------------------------------------------------------------------------
// What can be written and read back

pub open spec fn no_char(s: Seq<char>, c: char) -> bool {
    forall|k: int| 0 <= k < s.len() ==> s[k] != c
}

/// Text that fits in a single trimmed cell.
pub open spec fn wf_text(t: Seq<char>) -> bool {
    is_trimmed(t) && no_char(t, '\n')
}

pub open spec fn no_br_tag(n: Seq<char>) -> bool {
    forall|k: int| br_len_at(n, k) == 0
}

/// A note that survives the Notes cell: one non-empty trimmed line with no
/// `<br>` tag.
pub open spec fn wf_note(n: Seq<char>) -> bool {
    wf_text(n) && n.len() > 0 && no_br_tag(n)
}

/// An ID in a migration link: no `/`, no line break, no `](`.
pub open spec fn wf_ref_id(id: Seq<char>) -> bool {
    no_char(id, '/') && no_char(id, '\n') && !contains(id, seq![']', '('])
}

/// A date whose text is read back as the same date: any date of the
/// calendar.
pub open spec fn wf_date(d: Date) -> bool {
    d.valid()
}

pub open spec fn wf_to(t: MigrationToView) -> bool {
    &&& wf_ref_id(t.target_id)
    &&& (t.target_date matches MigrationTarget::Date(d) ==> wf_date(d))
}

pub open spec fn wf_from(f: MigrationFromView) -> bool {
    wf_ref_id(f.source_id) && wf_date(f.source_date)
}

/// A bullet that a file can hold.
pub open spec fn wf_bullet(b: BulletView) -> bool {
    &&& is_valid_id(b.id)
    &&& wf_text(b.text)
    &&& forall|i: int| 0 <= i < b.notes.len() ==> wf_note(#[trigger] b.notes[i])
    &&& (b.migrated_to matches Some(t) ==> wf_to(t))
    &&& (b.migrated_from matches Some(f) ==> wf_from(f))
}

pub open spec fn wf_bullets(bs: Seq<BulletView>) -> bool {
    forall|i: int| 0 <= i < bs.len() ==> wf_bullet(#[trigger] bs[i])
}

/// A daily log that a file can hold.
pub open spec fn wf_daily_log(log: DailyLogView) -> bool {
    wf_date(log.date) && wf_bullets(log.bullets)
}

// ---------------------------------------------------------------------------
// Escaping

/// Every `|` is preceded by a backslash.
pub open spec fn pipe_safe(s: Seq<char>) -> bool {
    forall|k: int| 0 <= k < s.len() && #[trigger] s[k] == '|' ==> k > 0 && s[k - 1] == '\\'
}

pub proof fn lemma_escape_append(a: Seq<char>, b: Seq<char>)
    ensures
        escape(a + b) == escape(a) + escape(b),
    decreases a.len(),
{
    if a.len() == 0 {
        assert(a + b =~= b);
        assert(escape(a) + escape(b) =~= escape(b));
    } else {
        lemma_escape_append(a.drop_first(), b);
        assert((a + b).drop_first() =~= a.drop_first() + b);
        assert((a + b)[0] == a[0]);
        assert(escape(a + b) =~= escape(a) + escape(b));
    }
}

pub proof fn lemma_escape_props(s: Seq<char>)
    ensures
        pipe_safe(escape(s)),
        escape(s).len() >= s.len(),
        s.len() > 0 ==> escape(s).len() > 0,
        s.len() > 0 ==> escape(s)[0] == (if s[0] == '|' {
            '\\'
        } else {
            s[0]
        }),
        s.len() > 0 ==> escape(s).last() == s.last(),
        forall|c: char| c != '|' && c != '\\' && no_char(s, c) ==> no_char(escape(s), c),
    decreases s.len(),
{
    if s.len() > 0 {
        let rest = s.drop_first();
        lemma_escape_props(rest);
        let e0: Seq<char> = if s[0] == '|' {
            seq!['\\', '|']
        } else {
            seq![s[0]]
        };
        assert(escape(s) == e0 + escape(rest));
        let e = escape(s);
        assert forall|k: int| 0 <= k < e.len() && #[trigger] e[k] == '|' implies k > 0 && e[k - 1] == '\\' by {
            if k >= e0.len() {
                let j = k - e0.len();
                assert(e[k] == escape(rest)[j]);
                if j == 0 {
                    assert(false);
                } else {
                    assert(e[k - 1] == escape(rest)[j - 1]);
                }
            }
        }
        if rest.len() == 0 {
            assert(escape(rest) =~= Seq::<char>::empty());
            assert(e =~= e0);
        } else {
            assert(e.last() == escape(rest).last());
            assert(rest.last() == s.last());
        }
        assert forall|c: char| c != '|' && c != '\\' && no_char(s, c) implies no_char(
            escape(s),
            c,
        ) by {
            assert forall|k: int| 0 <= k < rest.len() implies rest[k] != c by {
                assert(rest[k] == s[k + 1]);
            }
            assert(no_char(rest, c));
            assert forall|k: int| 0 <= k < e.len() implies e[k] != c by {
                if k >= e0.len() {
                    assert(e[k] == escape(rest)[k - e0.len()]);
                }
            }
        }
    } else {
        assert(escape(s) =~= Seq::<char>::empty());
    }
}

pub proof fn lemma_trimmed_escape(s: Seq<char>)
    requires
        is_trimmed(s),
    ensures
        is_trimmed(escape(s)),
{
    lemma_escape_props(s);
    if s.len() > 0 {
        assert(!is_ws('\\'));
        assert(!is_ws('|'));
    }
}

/// Unescaping a written prefix gives the prefix back, as long as the prefix
/// does not end in a backslash that the rest would complete to `\|`.
pub proof fn lemma_unescape_escape_append(a: Seq<char>, x: Seq<char>)
    requires
        !(a.len() > 0 && a.last() == '\\' && x.len() > 0 && x[0] == '|'),
    ensures
        unescape(escape(a) + x) == a + unescape(x),
    decreases a.len(),
{
    if a.len() == 0 {
        assert(escape(a) =~= Seq::<char>::empty());
        assert(escape(a) + x =~= x);
        assert(a + unescape(x) =~= unescape(x));
    } else {
        let rest = a.drop_first();
        if rest.len() > 0 {
            assert(rest.last() == a.last());
        }
        lemma_unescape_escape_append(rest, x);
        let s = escape(a) + x;
        if a[0] == '|' {
            assert(escape(a) == seq!['\\', '|'] + escape(rest));
            assert(s =~= seq!['\\', '|'] + (escape(rest) + x));
            assert(s.skip(2) =~= escape(rest) + x);
            assert(unescape(s) == seq!['|'] + unescape(s.skip(2)));
            assert(unescape(s) =~= a + unescape(x));
        } else {
            assert(escape(a) == seq![a[0]] + escape(rest));
            assert(s =~= seq![a[0]] + (escape(rest) + x));
            assert(s.drop_first() =~= escape(rest) + x);
            if a[0] == '\\' {
                // the next character is not a pipe
                if rest.len() > 0 {
                    lemma_escape_props(rest);
                    assert(escape(rest)[0] != '|');
                    assert(s[1] == escape(rest)[0]);
                } else {
                    assert(escape(rest) =~= Seq::<char>::empty());
                    assert(a.last() == '\\');
                    if x.len() > 0 {
                        assert(s[1] == x[0]);
                    }
                }
            }
            assert(unescape(s) == seq![a[0]] + unescape(s.drop_first()));
            assert(unescape(s) =~= a + unescape(x));
        }
    }
}

pub proof fn lemma_unescape_escape(a: Seq<char>)
    ensures
        unescape(escape(a)) == a,
{
    lemma_unescape_escape_append(a, seq![]);
    assert(escape(a) + Seq::<char>::empty() =~= escape(a));
    assert(unescape(Seq::<char>::empty()) =~= Seq::<char>::empty());
    assert(a + Seq::<char>::empty() =~= a);
}

/// Unescaping skips over characters that are not backslashes.
pub proof fn lemma_unescape_plain_prefix(p: Seq<char>, x: Seq<char>)
    requires
        no_char(p, '\\'),
    ensures
        unescape(p + x) == p + unescape(x),
    decreases p.len(),
{
    if p.len() == 0 {
        assert(p + x =~= x);
        assert(p + unescape(x) =~= unescape(x));
    } else {
        let rest = p.drop_first();
        assert forall|k: int| 0 <= k < rest.len() implies rest[k] != '\\' by {
            assert(rest[k] == p[k + 1]);
        }
        lemma_unescape_plain_prefix(rest, x);
        let s = p + x;
        assert(s[0] == p[0]);
        assert(s.drop_first() =~= rest + x);
        assert(unescape(s) =~= p + unescape(x));
    }
}

// ---------------------------------------------------------------------------
// The header lines

/// From position `k` on, `l` has no line break, no carriage return and no
/// `-->`.
pub open spec fn quiet_from(l: Seq<char>, k: int) -> bool
    decreases l.len() - k,
{
    if k < 0 || k >= l.len() {
        true
    } else {
        &&& l[k] != '\n'
        &&& l[k] != '\r'
        &&& !(k + 2 < l.len() && l[k] == '-' && l[k + 1] == '-' && l[k + 2] == '>')
        &&& quiet_from(l, k + 1)
    }
}

proof fn lemma_header_part0_quiet()
    ensures
        forall|i: int| 0 <= i < 5 ==> quiet_from(#[trigger] crate::format::header_part0()[i], 0),
{
    reveal_strlit("<!--");
    reveal_strlit("  \u{26A0}\u{FE0F} bulletd managed file \u{2014} do not hand edit");
    reveal_strlit("  Hand editing may break bulletd TUI or MCP server.");
    reveal_strlit("");
    reveal_strlit("  Format: GFM table with columns: Status | Bullet | Notes | Migration | ID");
    reveal_with_fuel(quiet_from, 80);
    let h = crate::format::header_part0();
    assert(quiet_from(h[0], 0));
    assert(quiet_from(h[1], 0));
    assert(quiet_from(h[2], 0));
    assert(quiet_from(h[3], 0));
    assert(quiet_from(h[4], 0));
}

proof fn lemma_header_part1_quiet()
    ensures
        forall|i: int| 0 <= i < 5 ==> quiet_from(#[trigger] crate::format::header_part1()[i], 0),
{
    reveal_strlit("");
    reveal_strlit("  Status Emoji Reference:");
    reveal_strlit("    \u{1F4CC}  Open task \u{2014} not yet acted on");
    reveal_strlit("    \u{2705}  Done \u{2014} completed");
    reveal_strlit("    \u{27A1}\u{FE0F}  Migrated \u{2014} moved to another day");
    reveal_with_fuel(quiet_from, 80);
    let h = crate::format::header_part1();
    assert(quiet_from(h[0], 0));
    assert(quiet_from(h[1], 0));
    assert(quiet_from(h[2], 0));
    assert(quiet_from(h[3], 0));
    assert(quiet_from(h[4], 0));
}

proof fn lemma_header_part2_quiet()
    ensures
        forall|i: int| 0 <= i < 5 ==> quiet_from(#[trigger] crate::format::header_part2()[i], 0),
{
    reveal_strlit("    \u{274C}  Cancelled \u{2014} dropped");
    reveal_strlit("    \u{1F4E5}  Backlogged \u{2014} moved to backlog.md");
    reveal_strlit("    \u{1F4C5}  Event \u{2014} something that happened or is scheduled");
    reveal_strlit("    \u{1F4DD}  Note \u{2014} information, context, thoughts");
    reveal_strlit("");
    reveal_with_fuel(quiet_from, 80);
    let h = crate::format::header_part2();
    assert(quiet_from(h[0], 0));
    assert(quiet_from(h[1], 0));
    assert(quiet_from(h[2], 0));
    assert(quiet_from(h[3], 0));
    assert(quiet_from(h[4], 0));
}

proof fn lemma_header_part3_quiet()
    ensures
        forall|i: int| 0 <= i < 5 ==> quiet_from(#[trigger] crate::format::header_part3()[i], 0),
{
    reveal_strlit("  Notes: Optional context. Use <br> for multiple lines.");
    reveal_strlit("");
    reveal_strlit(
        "  Migration: Traceability for migrated/backlogged tasks. Rendered as clickable links.",
    );
    reveal_strlit("    \"to YYYY-MM-DD/ID\" links to the target file");
    reveal_strlit("    \"from YYYY-MM-DD/ID\" links to the source file");
    reveal_with_fuel(quiet_from, 90);
    let h = crate::format::header_part3();
    assert(quiet_from(h[0], 0));
    assert(quiet_from(h[1], 0));
    assert(quiet_from(h[2], 0));
    assert(quiet_from(h[3], 0));
    assert(quiet_from(h[4], 0));
}

proof fn lemma_header_part4_quiet()
    ensures
        forall|i: int| 0 <= i < 4 ==> quiet_from(#[trigger] crate::format::header_part4()[i], 0),
{
    reveal_strlit("    \"to backlog/ID\" links to backlog.md");
    reveal_strlit("");
    reveal_strlit("  ID: 8-char hex, unique within this file.");
    reveal_strlit("      Cross-file references use date/id format (e.g. 2026-04-05/c5a1d9e7)");
    reveal_with_fuel(quiet_from, 80);
    let h = crate::format::header_part4();
    assert(quiet_from(h[0], 0));
    assert(quiet_from(h[1], 0));
    assert(quiet_from(h[2], 0));
    assert(quiet_from(h[3], 0));
}

proof fn lemma_quiet_from(l: Seq<char>, k: int)
    requires
        0 <= k,
        quiet_from(l, k),
    ensures
        forall|j: int| k <= j < l.len() ==> #[trigger] l[j] != '\n' && l[j] != '\r',
        forall|j: int|
            k <= j && j + 2 < l.len() ==> !(#[trigger] l[j] == '-' && l[j + 1] == '-' && l[j + 2]
                == '>'),
    decreases l.len() - k,
{
    if k < l.len() {
        lemma_quiet_from(l, k + 1);
    }
}

/// A quiet line is plain and holds no `-->`.
proof fn lemma_quiet_line(l: Seq<char>)
    requires
        quiet_from(l, 0),
    ensures
        plain_line(l),
        !contains(l, lit_comment_close()),
{
    lemma_quiet_from(l, 0);
    if contains(l, lit_comment_close()) {
        let i = choose|i: int| #[trigger] occurs_at(l, lit_comment_close(), i);
        assert(l.subrange(i, i + 3) == lit_comment_close());
        assert(l.subrange(i, i + 3)[0] == l[i]);
        assert(l.subrange(i, i + 3)[1] == l[i + 1]);
        assert(l.subrange(i, i + 3)[2] == l[i + 2]);
    }
}

/// The header: its lines are plain, the first opens the comment, the last
/// closes it, and none between holds `-->`.
proof fn lemma_header_lines()
    ensures
        header_lines().len() == 25,
        forall|i: int| 0 <= i < 25 ==> plain_line(#[trigger] header_lines()[i]),
        forall|i: int| 0 <= i < 24 ==> !contains(#[trigger] header_lines()[i], lit_comment_close()),
        header_lines()[0] == lit_comment_open(),
        header_lines()[24] == lit_comment_close(),
{
    lemma_header_part0_quiet();
    lemma_header_part1_quiet();
    lemma_header_part2_quiet();
    lemma_header_part3_quiet();
    lemma_header_part4_quiet();
    let h = header_lines();
    let p0 = crate::format::header_part0();
    let p1 = crate::format::header_part1();
    let p2 = crate::format::header_part2();
    let p3 = crate::format::header_part3();
    let p4 = crate::format::header_part4();
    assert(h.len() == 25);
    assert forall|i: int| 0 <= i < 24 implies quiet_from(#[trigger] h[i], 0) by {
        if i < 5 {
            assert(h[i] == p0[i]);
        } else if i < 10 {
            assert(h[i] == p1[i - 5]);
        } else if i < 15 {
            assert(h[i] == p2[i - 10]);
        } else if i < 20 {
            assert(h[i] == p3[i - 15]);
        } else {
            assert(h[i] == p4[i - 20]);
        }
    }
    assert forall|i: int| 0 <= i < 24 implies plain_line(#[trigger] h[i]) && !contains(
        h[i],
        lit_comment_close(),
    ) by {
        assert(quiet_from(h[i], 0));
        lemma_quiet_line(h[i]);
    }
    reveal_strlit("<!--");
    reveal_strlit("-->");
    assert(h[0] == p0[0]);
    assert(h[0] =~= lit_comment_open());
    assert(h[24] == p4[4]);
    assert(h[24] =~= lit_comment_close());
    assert(plain_line(h[24]));
}

// ---------------------------------------------------------------------------
// Table rows read back

/// A cell followed by a separator splits off as one piece.
proof fn lemma_split_cell(x: Seq<char>, rest: Seq<char>)
    requires
        pipe_safe(x),
    ensures
        split_cells(seq![' '] + x + seq![' ', '|'] + rest) == seq![seq![' '] + x + seq![' ']]
            + split_cells(rest),
{
    let s = seq![' '] + x + seq![' ', '|'] + rest;
    let i0: int = x.len() as int + 2;
    let p = |k: int| is_sep(s, k);
    assert forall|k: int| 0 <= k < i0 implies !#[trigger] p(k) by {
        if 1 <= k <= x.len() {
            assert(s[k] == x[k - 1]);
            if x[k - 1] == '|' {
                assert(x[k - 1] == '|');
                assert(k - 1 > 0 && x[k - 2] == '\\');
                assert(s[k - 1] == x[k - 2]);
            }
        }
    }
    assert(s[i0] == '|');
    assert(s[i0 - 1] == ' ');
    assert(p(i0));
    lemma_first_from_unique(s.len() as int, 0, p, i0);
    assert(sep_index(s) == i0);
    assert(s.take(i0) =~= seq![' '] + x + seq![' ']);
    assert(s.skip(i0 + 1) =~= rest);
}

/// The last cell, with no separator in it, is one piece.
proof fn lemma_split_last(x: Seq<char>)
    requires
        no_char(x, '|'),
    ensures
        split_cells(seq![' '] + x + seq![' ']) == seq![seq![' '] + x + seq![' ']],
{
    let s = seq![' '] + x + seq![' '];
    let p = |k: int| is_sep(s, k);
    assert forall|k: int| 0 <= k < s.len() implies !#[trigger] p(k) by {
        if 1 <= k <= x.len() {
            assert(s[k] == x[k - 1]);
        }
    }
    lemma_first_from_unique(s.len() as int, 0, p, s.len() as int);
}

proof fn lemma_trim_padded(c: Seq<char>)
    requires
        is_trimmed(c),
    ensures
        trim(seq![' '] + c + seq![' ']) == c,
{
    assert(is_ws(' '));
    lemma_trim_pad(seq![' '], c, seq![' ']);
}

pub open spec fn padded(c: Seq<char>) -> Seq<char> {
    seq![' '] + c + seq![' ']
}

pub open spec fn cell_then(c: Seq<char>, rest: Seq<char>) -> Seq<char> {
    seq![' '] + c + seq![' ', '|'] + rest
}

/// A row without its outer pipes.
pub open spec fn inner_of(c0: Seq<char>, c1: Seq<char>, c2: Seq<char>, c3: Seq<char>, c4: Seq<char>) -> Seq<
    char,
> {
    cell_then(c0, cell_then(c1, cell_then(c2, cell_then(c3, padded(c4)))))
}

#[verifier::rlimit(40)]
proof fn lemma_row_inner(c0: Seq<char>, c1: Seq<char>, c2: Seq<char>, c3: Seq<char>, c4: Seq<char>)
    ensures
        row_of(c0, c1, c2, c3, c4) == seq!['|'] + inner_of(c0, c1, c2, c3, c4) + seq!['|'],
{
    let sp = seq![' '];
    let sb = seq![' ', '|'];
    let t4 = padded(c4);
    let t3 = cell_then(c3, t4);
    let t2 = cell_then(c2, t3);
    let t1 = cell_then(c1, t2);
    let t0 = cell_then(c0, t1);
    assert(row_of(c0, c1, c2, c3, c4) =~= seq!['|'] + t0 + seq!['|']);
}

proof fn lemma_row_trim_inner(c0: Seq<char>, c1: Seq<char>, c2: Seq<char>, c3: Seq<char>, c4: Seq<char>)
    ensures
        trim(row_of(c0, c1, c2, c3, c4)) == row_of(c0, c1, c2, c3, c4),
        row_inner(row_of(c0, c1, c2, c3, c4)) == inner_of(c0, c1, c2, c3, c4),
{
    lemma_row_inner(c0, c1, c2, c3, c4);
    let inner = inner_of(c0, c1, c2, c3, c4);
    let row = seq!['|'] + inner + seq!['|'];
    assert(row[0] == '|');
    assert(row.last() == '|');
    assert(!is_ws('|'));
    lemma_trim_of_trimmed(row);
    let a = row.drop_first();
    assert(a =~= inner + seq!['|']);
    assert(inner.last() == ' ');
    assert(a[a.len() - 2] == ' ');
    assert(a.drop_last() =~= inner);
}

/// The cells of a written row are the cells it was written with.
#[verifier::spinoff_prover]
#[verifier::rlimit(60)]
pub proof fn lemma_row_cells(
    c0: Seq<char>,
    c1: Seq<char>,
    c2: Seq<char>,
    c3: Seq<char>,
    c4: Seq<char>,
)
    requires
        pipe_safe(c0) && is_trimmed(c0),
        pipe_safe(c1) && is_trimmed(c1),
        pipe_safe(c2) && is_trimmed(c2),
        pipe_safe(c3) && is_trimmed(c3),
        no_char(c4, '|') && is_trimmed(c4),
    ensures
        row_cells(row_of(c0, c1, c2, c3, c4)) == seq![c0, c1, c2, c3, c4],
        trim(row_of(c0, c1, c2, c3, c4)) == row_of(c0, c1, c2, c3, c4),
{
    lemma_row_trim_inner(c0, c1, c2, c3, c4);
    let t4 = padded(c4);
    let t3 = cell_then(c3, t4);
    let t2 = cell_then(c2, t3);
    let t1 = cell_then(c1, t2);
    lemma_split_last(c4);
    lemma_split_cell(c3, t4);
    lemma_split_cell(c2, t3);
    lemma_split_cell(c1, t2);
    lemma_split_cell(c0, t1);
    let pieces = seq![padded(c0), padded(c1), padded(c2), padded(c3), padded(c4)];
    assert(split_cells(inner_of(c0, c1, c2, c3, c4)) =~= pieces);
    lemma_trim_padded(c0);
    lemma_trim_padded(c1);
    lemma_trim_padded(c2);
    lemma_trim_padded(c3);
    lemma_trim_padded(c4);
    assert(pieces.map_values(|c: Seq<char>| trim(c)) =~= seq![c0, c1, c2, c3, c4]);
}

// ---------------------------------------------------------------------------
// Notes read back

pub open spec fn lit_br() -> Seq<char> {
    seq!['<', 'b', 'r', '>']
}

/// Pipe-safe texts stay pipe-safe when joined.
proof fn lemma_pipe_safe_concat(a: Seq<char>, b: Seq<char>)
    requires
        pipe_safe(a),
        pipe_safe(b),
    ensures
        pipe_safe(a + b),
{
    let s = a + b;
    assert forall|k: int| 0 <= k < s.len() && #[trigger] s[k] == '|' implies k > 0 && s[k - 1]
        == '\\' by {
        if k < a.len() {
            assert(s[k] == a[k]);
            assert(s[k - 1] == a[k - 1]);
        } else {
            let j = k - a.len();
            assert(s[k] == b[j]);
            assert(b[j] == '|');
            assert(j > 0 && b[j - 1] == '\\');
            assert(s[k - 1] == b[j - 1]);
        }
    }
}

/// Texts without `c` joined have no `c`.
proof fn lemma_no_char_concat(a: Seq<char>, b: Seq<char>, c: char)
    requires
        no_char(a, c),
        no_char(b, c),
    ensures
        no_char(a + b, c),
{
    assert forall|k: int| 0 <= k < (a + b).len() implies (a + b)[k] != c by {
        if k < a.len() {
            assert((a + b)[k] == a[k]);
        } else {
            assert((a + b)[k] == b[k - a.len()]);
        }
    }
}

pub open spec fn all_notes_wf(ns: Seq<Seq<char>>) -> bool {
    forall|i: int| 0 <= i < ns.len() ==> wf_note(#[trigger] ns[i])
}

proof fn lemma_notes_tail(ns: Seq<Seq<char>>)
    requires
        all_notes_wf(ns),
        ns.len() > 0,
    ensures
        all_notes_wf(ns.drop_first()),
        wf_note(ns[0]),
{
    assert(wf_note(ns[0]));
    assert forall|i: int| 0 <= i < ns.drop_first().len() implies wf_note(
        #[trigger] ns.drop_first()[i],
    ) by {
        assert(ns.drop_first()[i] == ns[i + 1]);
        assert(wf_note(ns[i + 1]));
    }
}

proof fn lemma_join_br_step(ns: Seq<Seq<char>>)
    requires
        ns.len() >= 2,
    ensures
        join_br(ns) == ns[0] + (lit_br() + join_br(ns.drop_first())),
{
    assert(join_br(ns) == ns[0] + lit_br() + join_br(ns.drop_first()));
    assert(ns[0] + lit_br() + join_br(ns.drop_first()) =~= ns[0] + (lit_br() + join_br(
        ns.drop_first(),
    )));
}

/// The escaped notes, read back, are the notes joined.
proof fn lemma_unescape_notes(ns: Seq<Seq<char>>)
    ensures
        unescape(notes_cell(ns)) == join_br(ns),
    decreases ns.len(),
{
    let es = ns.map_values(|n: Seq<char>| escape(n));
    if ns.len() == 0 {
        assert(join_br(es) =~= Seq::<char>::empty());
    } else if ns.len() == 1 {
        assert(join_br(es) == es[0]);
        lemma_unescape_escape(ns[0]);
    } else {
        let rest = ns.drop_first();
        lemma_unescape_notes(rest);
        assert(es.drop_first() =~= rest.map_values(|n: Seq<char>| escape(n)));
        lemma_join_br_step(es);
        lemma_join_br_step(ns);
        let x = lit_br() + join_br(es.drop_first());
        assert(x[0] == '<');
        lemma_unescape_escape_append(ns[0], x);
        assert(no_char(lit_br(), '\\'));
        lemma_unescape_plain_prefix(lit_br(), join_br(es.drop_first()));
    }
}

/// The Notes cell is pipe-safe, has no line break, and is trimmed when the
/// notes are well-formed.
proof fn lemma_notes_cell(ns: Seq<Seq<char>>)
    requires
        all_notes_wf(ns),
    ensures
        pipe_safe(notes_cell(ns)),
        no_char(notes_cell(ns), '\n'),
        is_trimmed(notes_cell(ns)),
        ns.len() > 0 ==> notes_cell(ns).len() > 0 && notes_cell(ns)[0] == escape(ns[0])[0],
        ns.len() > 0 ==> notes_cell(ns).last() == ns.last().last(),
    decreases ns.len(),
{
    let es = ns.map_values(|n: Seq<char>| escape(n));
    if ns.len() == 0 {
        assert(join_br(es) =~= Seq::<char>::empty());
    } else {
        lemma_notes_tail(ns);
        let n0 = ns[0];
        lemma_escape_props(n0);
        lemma_trimmed_escape(n0);
        if ns.len() == 1 {
            assert(join_br(es) == es[0]);
        } else {
            let rest = ns.drop_first();
            lemma_notes_cell(rest);
            assert(es.drop_first() =~= rest.map_values(|n: Seq<char>| escape(n)));
            lemma_join_br_step(es);
            let r = join_br(es.drop_first());
            assert(pipe_safe(lit_br()));
            assert(no_char(lit_br(), '\n'));
            lemma_pipe_safe_concat(lit_br(), r);
            lemma_pipe_safe_concat(escape(n0), lit_br() + r);
            lemma_no_char_concat(lit_br(), r, '\n');
            lemma_no_char_concat(escape(n0), lit_br() + r, '\n');
            let c = escape(n0) + (lit_br() + r);
            assert(c[0] == escape(n0)[0]);
            assert(rest.last() == ns.last());
            assert(c.last() == r.last());
            assert(!is_ws(escape(n0)[0]));
        }
    }
}

/// The notes joined are trimmed.
proof fn lemma_join_br_trimmed(ns: Seq<Seq<char>>)
    requires
        all_notes_wf(ns),
    ensures
        is_trimmed(join_br(ns)),
        ns.len() > 0 ==> join_br(ns).len() > 0 && join_br(ns)[0] == ns[0][0] && join_br(ns).last()
            == ns.last().last(),
    decreases ns.len(),
{
    if ns.len() > 0 {
        lemma_notes_tail(ns);
        if ns.len() >= 2 {
            let rest = ns.drop_first();
            lemma_join_br_trimmed(rest);
            lemma_join_br_step(ns);
            assert(rest.last() == ns.last());
        }
    }
}

/// No `<br>` tag starts inside a note that is followed by one.
proof fn lemma_no_tag_before(n: Seq<char>, r: Seq<char>, k: int)
    requires
        no_br_tag(n),
        0 <= k < n.len(),
    ensures
        br_len_at(n + (lit_br() + r), k) == 0,
{
    let s = n + (lit_br() + r);
    let m = n.len() as int;
    assert(s[m] == '<');
    assert(br_len_at(n, k) == 0);
    assert forall|j: int| 0 <= j < m implies #[trigger] s[j] == n[j] by {}
    assert(crate::format::ascii_lower('<') == '<');
}

/// The notes joined with `<br>` split back into the notes.
proof fn lemma_split_join_br(ns: Seq<Seq<char>>)
    requires
        all_notes_wf(ns),
        ns.len() > 0,
    ensures
        split_br(join_br(ns)) == ns,
    decreases ns.len(),
{
    lemma_notes_tail(ns);
    let n0 = ns[0];
    if ns.len() == 1 {
        let s = join_br(ns);
        assert(s == n0);
        let p = |k: int| br_len_at(s, k) > 0;
        assert forall|k: int| 0 <= k < s.len() implies !#[trigger] p(k) by {
            assert(br_len_at(n0, k) == 0);
        }
        lemma_first_from_unique(s.len() as int, 0, p, s.len() as int);
        assert(seq![s] =~= ns);
    } else {
        let rest = ns.drop_first();
        lemma_split_join_br(rest);
        lemma_join_br_step(ns);
        let r = join_br(rest);
        let s = n0 + (lit_br() + r);
        let m = n0.len() as int;
        let p = |k: int| br_len_at(s, k) > 0;
        assert forall|k: int| 0 <= k < m implies !#[trigger] p(k) by {
            lemma_no_tag_before(n0, r, k);
        }
        assert(s[m] == '<' && s[m + 1] == 'b' && s[m + 2] == 'r' && s[m + 3] == '>');
        assert(crate::format::ascii_lower('b') == 'b');
        assert(crate::format::ascii_lower('r') == 'r');
        assert(br_len_at(s, m) == 4);
        lemma_first_from_unique(s.len() as int, 0, p, m);
        assert(br_index(s) == m);
        assert(s.take(m) =~= n0);
        assert(s.skip(m + 4) =~= r);
        assert(seq![n0] + rest =~= ns);
    }
}

/// Well-formed notes are kept as they are.
proof fn lemma_clean_notes(ns: Seq<Seq<char>>)
    requires
        all_notes_wf(ns),
    ensures
        clean_notes(ns) == ns,
    decreases ns.len(),
{
    if ns.len() > 0 {
        lemma_notes_tail(ns);
        lemma_clean_notes(ns.drop_first());
        lemma_trim_of_trimmed(ns[0]);
        assert(seq![ns[0]] + ns.drop_first() =~= ns);
    }
}

/// The Notes cell of well-formed notes reads back as the notes.
pub proof fn lemma_notes_read_back(ns: Seq<Seq<char>>)
    requires
        all_notes_wf(ns),
    ensures
        notes_of(unescape(notes_cell(ns))) == ns,
{
    lemma_unescape_notes(ns);
    lemma_join_br_trimmed(ns);
    lemma_trim_of_trimmed(join_br(ns));
    if ns.len() == 0 {
        let e = Seq::<char>::empty();
        assert(join_br(ns) =~= e);
        let p = |k: int| br_len_at(e, k) > 0;
        lemma_first_from_unique(0, 0, p, 0);
        assert(split_br(e) == seq![e]);
        lemma_trim_of_trimmed(e);
        assert(trim(seq![e][0]).len() == 0);
        assert(seq![e].drop_first() =~= Seq::<Seq<char>>::empty());
        assert(clean_notes(seq![e]) == clean_notes(seq![e].drop_first()));
        assert(ns =~= Seq::<Seq<char>>::empty());
    } else {
        lemma_split_join_br(ns);
        lemma_clean_notes(ns);
    }
}

// ---------------------------------------------------------------------------
// Migration links read back

pub open spec fn date_like(c: char) -> bool {
    is_digit(c) || c == '-' || c == '+'
}

proof fn lemma_decimal_digits(n: nat)
    ensures
        decimal(n).len() >= 1,
        forall|k: int| 0 <= k < decimal(n).len() ==> is_digit(#[trigger] decimal(n)[k]),
    decreases n,
{
    if n < 10 {
        lemma_digit(n as int);
    } else {
        lemma_decimal_digits(n / 10);
        lemma_digit((n % 10) as int);
        let s = decimal(n);
        assert forall|k: int| 0 <= k < s.len() implies is_digit(#[trigger] s[k]) by {
            if k < s.len() - 1 {
                assert(s[k] == decimal(n / 10)[k]);
            }
        }
    }
}

proof fn lemma_year_text_chars(y: int)
    ensures
        year_text(y).len() >= 4,
        forall|k: int| 0 <= k < year_text(y).len() ==> date_like(#[trigger] year_text(y)[k]),
        !is_ws(year_text(y)[0]),
{
    if 0 <= y <= 9999 {
        lemma_digit(y / 1000);
        lemma_digit((y / 100) % 10);
        lemma_digit((y / 10) % 10);
        lemma_digit(y % 10);
    } else {
        let n: nat = if y < 0 {
            (-y) as nat
        } else {
            y as nat
        };
        lemma_decimal_digits(n);
        let ds = decimal(n);
        let d4 = decimal4(n);
        assert forall|k: int| 0 <= k < d4.len() implies is_digit(#[trigger] d4[k]) by {
            if ds.len() < 4 {
                let z = (4 - ds.len()) as int;
                if k >= z {
                    assert(d4[k] == ds[k - z]);
                }
            }
        }
        let yt = year_text(y);
        assert(yt.drop_first() =~= d4);
        assert forall|k: int| 0 <= k < yt.len() implies date_like(#[trigger] yt[k]) by {
            if k > 0 {
                assert(yt[k] == d4[k - 1]);
            }
        }
    }
}

/// The text of a date of the calendar: digits, dashes and a sign, with no
/// blanks around it, read back as the date.
proof fn lemma_date_chars(d: Date)
    requires
        wf_date(d),
    ensures
        date_text(d).len() >= 10,
        forall|k: int| 0 <= k < date_text(d).len() ==> date_like(#[trigger] date_text(d)[k]),
        is_trimmed(date_text(d)),
        parsed_date(date_text(d)) == Some(d),
{
    lemma_date_text_reads_back(d);
    lemma_year_text_chars(d.year as int);
    let y = year_text(d.year as int);
    let m = d.month as int;
    let dd = d.day as int;
    lemma_digit(m / 10);
    lemma_digit(m % 10);
    lemma_digit(dd / 10);
    lemma_digit(dd % 10);
    let rest = seq!['-'] + two_digits(m) + seq!['-'] + two_digits(dd);
    let t = date_text(d);
    assert(t =~= y + rest);
    assert forall|k: int| 0 <= k < t.len() implies date_like(#[trigger] t[k]) by {
        if k < y.len() {
            assert(t[k] == y[k]);
        } else {
            assert(t[k] == rest[k - y.len()]);
        }
    }
    assert(t[0] == y[0]);
    assert(t.last() == digit(dd % 10));
    assert(!is_ws(t.last()));
}

proof fn lemma_occurs_close_open(s: Seq<char>, i: int)
    ensures
        occurs_at(s, lit_close_open(), i) <==> (0 <= i && i + 2 <= s.len() && s[i] == ']' && s[i
            + 1] == '('),
{
    if 0 <= i && i + 2 <= s.len() {
        let sub = s.subrange(i, i + 2);
        assert(sub[0] == s[i]);
        assert(sub[1] == s[i + 1]);
        if s[i] == ']' && s[i + 1] == '(' {
            assert(sub =~= lit_close_open());
        }
    }
}

/// A text whose first part has no `]` holds `](` only where its second
/// part does.
proof fn lemma_no_close_open_concat(a: Seq<char>, b: Seq<char>)
    requires
        no_char(a, ']'),
        !contains(b, lit_close_open()),
    ensures
        !contains(a + b, lit_close_open()),
{
    let s = a + b;
    if contains(s, lit_close_open()) {
        let i = choose|i: int| #[trigger] occurs_at(s, lit_close_open(), i);
        lemma_occurs_close_open(s, i);
        if i < a.len() {
            assert(s[i] == a[i]);
        } else {
            let j = i - a.len();
            assert(s[i] == b[j] && s[i + 1] == b[j + 1]);
            lemma_occurs_close_open(b, j);
            assert(occurs_at(b, lit_close_open(), j));
        }
    }
}

/// In `text + "](" + rest`, the first `](` is the one after `text`.
proof fn lemma_find_close_open(text: Seq<char>, rest: Seq<char>)
    requires
        !contains(text, lit_close_open()),
    ensures
        find(text + lit_close_open() + rest, lit_close_open()) == text.len(),
{
    let w = text + lit_close_open() + rest;
    let m = text.len() as int;
    let p = |k: int| occurs_at(w, lit_close_open(), k);
    assert forall|k: int| 0 <= k < m implies !#[trigger] p(k) by {
        lemma_occurs_close_open(w, k);
        if k + 1 < m {
            lemma_occurs_close_open(text, k);
            assert(w[k] == text[k] && w[k + 1] == text[k + 1]);
            if w[k] == ']' && w[k + 1] == '(' {
                assert(occurs_at(text, lit_close_open(), k));
            }
        } else {
            assert(w[k + 1] == ']');
        }
    }
    lemma_occurs_close_open(w, m);
    assert(p(m));
    lemma_first_from_unique(w.len() as int, 0, p, m);
}

/// The first `)` at or after `start` in a text that has `seg` and then `)`
/// there.
proof fn lemma_first_paren(w: Seq<char>, start: int, seg: Seq<char>)
    requires
        0 <= start,
        start + seg.len() < w.len(),
        forall|k: int| 0 <= k < seg.len() ==> #[trigger] w[start + k] == seg[k],
        w[start + seg.len()] == ')',
        no_char(seg, ')'),
    ensures
        first_from(w.len() as int, start, |k: int| w[k] == ')') == start + seg.len(),
{
    let p = |k: int| w[k] == ')';
    assert forall|k: int| start <= k < start + seg.len() implies !#[trigger] p(k) by {
        assert(w[start + (k - start)] == seg[k - start]);
    }
    lemma_first_from_unique(w.len() as int, start, p, start + seg.len());
}

/// The position of the last `/` in `a + "/" + b` when `b` has none.
proof fn lemma_last_slash(a: Seq<char>, b: Seq<char>)
    requires
        no_char(b, '/'),
    ensures
        last_slash(a + seq!['/'] + b) == a.len(),
{
    let s = a + seq!['/'] + b;
    let p = |k: int| s[s.len() - 1 - k] == '/';
    assert forall|k: int| 0 <= k < b.len() implies !#[trigger] p(k) by {
        assert(s[s.len() - 1 - k] == b[b.len() - 1 - k]);
    }
    assert(s[s.len() - 1 - b.len()] == '/');
    lemma_first_from_unique(s.len() as int, 0, p, b.len() as int);
}

proof fn lemma_date_no_specials(d: Date)
    requires
        wf_date(d),
    ensures
        no_char(date_text(d), ']'),
        no_char(date_text(d), ')'),
        no_char(date_text(d), '/'),
        no_char(date_text(d), '\n'),
        no_char(date_text(d), '|'),
        no_char(date_text(d), '\\'),
        no_char(date_text(d), '('),
{
    lemma_date_chars(d);
}

/// A `from` link, read at the start of a text, gives the reference and what
/// follows the link.
#[verifier::spinoff_prover]
#[verifier::rlimit(60)]
pub proof fn lemma_parse_from_link(f: MigrationFromView, x: Seq<char>, cell: Seq<char>, line: nat)
    requires
        wf_from(f),
    ensures
        parse_link(from_link(f) + x, cell, line) == Ok::<(Link, Seq<char>), ErrorView>(
            (Link::From(f), x),
        ),
{
    reveal_strlit("[from ");
    reveal_strlit("/");
    reveal_strlit("](./");
    reveal_strlit(".md)");
    let d = date_text(f.source_date);
    let id = f.source_id;
    lemma_date_chars(f.source_date);
    lemma_date_no_specials(f.source_date);
    let t = from_link(f) + x;
    let text = lit_from() + d + seq!['/'] + id;
    let tail = seq!['.', '/'] + d + seq!['.', 'm', 'd'];
    let w = t.drop_first();
    assert(w =~= text + lit_close_open() + (tail + seq![')'] + x));
    assert(no_char(lit_from() + d + seq!['/'], ']')) by {
        lemma_no_char_concat(lit_from(), d, ']');
        lemma_no_char_concat(lit_from() + d, seq!['/'], ']');
    }
    assert(text =~= (lit_from() + d + seq!['/']) + id);
    lemma_no_close_open_concat(lit_from() + d + seq!['/'], id);
    lemma_find_close_open(text, tail + seq![')'] + x);
    let p = text.len() as int;
    assert(no_char(tail, ')')) by {
        lemma_no_char_concat(seq!['.', '/'], d, ')');
        lemma_no_char_concat(seq!['.', '/'] + d, seq!['.', 'm', 'd'], ')');
    }
    assert forall|k: int| 0 <= k < tail.len() implies #[trigger] w[p + 2 + k] == tail[k] by {}
    lemma_first_paren(w, p + 2, tail);
    assert(w.take(p) =~= text);
    assert(w.skip(p + 2 + tail.len() + 1) =~= x);
    assert(text[0] == 'f');
    assert(text.take(3)[0] == 'f');
    assert(!starts_with(text, lit_to()));
    assert(text.take(5) =~= lit_from());
    let reference = text.skip(5);
    assert(reference =~= d + seq!['/'] + id);
    lemma_last_slash(d, id);
    assert(reference.take(d.len() as int) =~= d);
    assert(reference.skip(d.len() + 1int) =~= id);
}

/// A `to` link, read at the start of a text, gives the reference and what
/// follows the link.
#[verifier::spinoff_prover]
#[verifier::rlimit(60)]
pub proof fn lemma_parse_to_link(t: MigrationToView, x: Seq<char>, cell: Seq<char>, line: nat)
    requires
        wf_to(t),
    ensures
        parse_link(to_link(t) + x, cell, line) == Ok::<(Link, Seq<char>), ErrorView>(
            (Link::To(t), x),
        ),
{
    reveal_strlit("[to ");
    reveal_strlit("/");
    reveal_strlit("](./");
    reveal_strlit(".md)");
    reveal_strlit("[to backlog/");
    reveal_strlit("](./backlog.md)");
    let id = t.target_id;
    let s = to_link(t) + x;
    let w = s.drop_first();
    match t.target_date {
        MigrationTarget::Date(dd) => {
            let d = date_text(dd);
            lemma_date_chars(dd);
            lemma_date_no_specials(dd);
            let text = lit_to() + d + seq!['/'] + id;
            let tail = seq!['.', '/'] + d + seq!['.', 'm', 'd'];
            assert(w =~= text + lit_close_open() + (tail + seq![')'] + x));
            assert(no_char(lit_to() + d + seq!['/'], ']')) by {
                lemma_no_char_concat(lit_to(), d, ']');
                lemma_no_char_concat(lit_to() + d, seq!['/'], ']');
            }
            assert(text =~= (lit_to() + d + seq!['/']) + id);
            lemma_no_close_open_concat(lit_to() + d + seq!['/'], id);
            lemma_find_close_open(text, tail + seq![')'] + x);
            let p = text.len() as int;
            assert(no_char(tail, ')')) by {
                lemma_no_char_concat(seq!['.', '/'], d, ')');
                lemma_no_char_concat(seq!['.', '/'] + d, seq!['.', 'm', 'd'], ')');
            }
            assert forall|k: int| 0 <= k < tail.len() implies #[trigger] w[p + 2 + k] == tail[k] by {}
            lemma_first_paren(w, p + 2, tail);
            assert(w.take(p) =~= text);
            assert(w.skip(p + 2 + tail.len() + 1) =~= x);
            assert(text.take(3) =~= lit_to());
            let reference = text.skip(3);
            assert(reference =~= d + seq!['/'] + id);
            lemma_last_slash(d, id);
            assert(reference.take(d.len() as int) =~= d);
            assert(reference.skip(d.len() + 1int) =~= id);
            assert(d.len() != lit_backlog().len());
        },
        MigrationTarget::Backlog => {
            let text = lit_to() + lit_backlog() + seq!['/'] + id;
            let tail = seq!['.', '/', 'b', 'a', 'c', 'k', 'l', 'o', 'g', '.', 'm', 'd'];
            assert(w =~= text + lit_close_open() + (tail + seq![')'] + x));
            assert(no_char(lit_to() + lit_backlog() + seq!['/'], ']'));
            assert(text =~= (lit_to() + lit_backlog() + seq!['/']) + id);
            lemma_no_close_open_concat(lit_to() + lit_backlog() + seq!['/'], id);
            lemma_find_close_open(text, tail + seq![')'] + x);
            let p = text.len() as int;
            assert forall|k: int| 0 <= k < tail.len() implies #[trigger] w[p + 2 + k] == tail[k] by {}
            lemma_first_paren(w, p + 2, tail);
            assert(w.take(p) =~= text);
            assert(w.skip(p + 2 + tail.len() + 1) =~= x);
            assert(text.take(3) =~= lit_to());
            let reference = text.skip(3);
            assert(reference =~= lit_backlog() + seq!['/'] + id);
            lemma_last_slash(lit_backlog(), id);
            assert(reference.take(7) =~= lit_backlog());
            assert(reference.skip(8) =~= id);
        },
    }
}

/// A link is a trimmed line that starts with `[` and ends with `)`.
proof fn lemma_link_shape(l: Seq<char>)
    requires
        l.len() > 0,
        l[0] == '[',
        l.last() == ')',
    ensures
        is_trimmed(l),
        trim(l) == l,
{
    assert(!is_ws('['));
    assert(!is_ws(')'));
    lemma_trim_of_trimmed(l);
}

proof fn lemma_from_link_shape(f: MigrationFromView)
    requires
        wf_from(f),
    ensures
        from_link(f).len() > 0,
        from_link(f)[0] == '[',
        from_link(f).last() == ')',
        no_char(from_link(f), '\n'),
{
    reveal_strlit("[from ");
    reveal_strlit("/");
    reveal_strlit("](./");
    reveal_strlit(".md)");
    let d = date_text(f.source_date);
    lemma_date_no_specials(f.source_date);
    let a = "[from "@;
    let b = "/"@;
    let c = "](./"@;
    let e = ".md)"@;
    assert(no_char(a, '\n') && no_char(b, '\n') && no_char(c, '\n') && no_char(e, '\n'));
    lemma_no_char_concat(a, d, '\n');
    lemma_no_char_concat(a + d, b, '\n');
    lemma_no_char_concat(a + d + b, f.source_id, '\n');
    lemma_no_char_concat(a + d + b + f.source_id, c, '\n');
    lemma_no_char_concat(a + d + b + f.source_id + c, d, '\n');
    lemma_no_char_concat(a + d + b + f.source_id + c + d, e, '\n');
}

proof fn lemma_to_link_shape(t: MigrationToView)
    requires
        wf_to(t),
    ensures
        to_link(t).len() > 0,
        to_link(t)[0] == '[',
        to_link(t).last() == ')',
        no_char(to_link(t), '\n'),
{
    reveal_strlit("[to ");
    reveal_strlit("/");
    reveal_strlit("](./");
    reveal_strlit(".md)");
    reveal_strlit("[to backlog/");
    reveal_strlit("](./backlog.md)");
    match t.target_date {
        MigrationTarget::Date(dd) => {
            let d = date_text(dd);
            lemma_date_no_specials(dd);
            let a = "[to "@;
            let b = "/"@;
            let c = "](./"@;
            let e = ".md)"@;
            assert(no_char(a, '\n') && no_char(b, '\n') && no_char(c, '\n') && no_char(e, '\n'));
            lemma_no_char_concat(a, d, '\n');
            lemma_no_char_concat(a + d, b, '\n');
            lemma_no_char_concat(a + d + b, t.target_id, '\n');
            lemma_no_char_concat(a + d + b + t.target_id, c, '\n');
            lemma_no_char_concat(a + d + b + t.target_id + c, d, '\n');
            lemma_no_char_concat(a + d + b + t.target_id + c + d, e, '\n');
        },
        MigrationTarget::Backlog => {
            let a = "[to backlog/"@;
            let c = "](./backlog.md)"@;
            assert(no_char(a, '\n') && no_char(c, '\n'));
            lemma_no_char_concat(a, t.target_id, '\n');
            lemma_no_char_concat(a + t.target_id, c, '\n');
        },
    }
}

/// The Migration cell of well-formed links reads back as the links.
pub proof fn lemma_migration_read_back(
    to: Option<MigrationToView>,
    from: Option<MigrationFromView>,
    line: nat,
)
    requires
        to matches Some(t) ==> wf_to(t),
        from matches Some(f) ==> wf_from(f),
    ensures
        parse_migration_spec(migration_cell(to, from), line) == Ok::<
            (Option<MigrationToView>, Option<MigrationFromView>),
            ErrorView,
        >((to, from)),
        no_char(migration_cell(to, from), '\n'),
        is_trimmed(migration_cell(to, from)),
{
    let e = Seq::<char>::empty();
    assert(trim(e).len() == 0) by {
        lemma_trim_of_trimmed(e);
    }
    match (from, to) {
        (None, None) => {
            assert(migration_cell(to, from) == e);
        },
        (Some(f), None) => {
            let m = from_link(f);
            lemma_from_link_shape(f);
            lemma_link_shape(m);
            assert(m + e =~= m);
            lemma_parse_from_link(f, e, m, line);
        },
        (None, Some(t)) => {
            let m = to_link(t);
            lemma_to_link_shape(t);
            lemma_link_shape(m);
            assert(m + e =~= m);
            lemma_parse_to_link(t, e, m, line);
        },
        (Some(f), Some(t)) => {
            let a = from_link(f);
            let b = to_link(t);
            lemma_from_link_shape(f);
            lemma_to_link_shape(t);
            let m = a + seq![' '] + b;
            assert(m == migration_cell(to, from));
            lemma_link_shape(b);
            assert(m[0] == a[0]);
            assert(m.last() == b.last());
            lemma_link_shape(m);
            let rest = seq![' '] + b;
            assert(m =~= a + rest);
            lemma_parse_from_link(f, rest, m, line);
            assert(is_ws(' '));
            lemma_trim_pad(seq![' '], b, e);
            assert(seq![' '] + b + e =~= rest);
            assert(b + e =~= b);
            lemma_parse_to_link(t, e, m, line);
            lemma_no_char_concat(a, seq![' '], '\n');
            lemma_no_char_concat(a + seq![' '], b, '\n');
        },
    }
}

// ---------------------------------------------------------------------------
// Bullets read back

proof fn lemma_status_cell(st: BulletStatus)
    ensures
        pipe_safe(status_emoji(st)),
        is_trimmed(status_emoji(st)),
        no_char(status_emoji(st), '\n'),
        status_emoji(st).len() > 0,
{
    let e = status_emoji(st);
    assert(e.len() == 1 || e.len() == 2);
    assert(!is_ws(e[0]));
    assert(!is_ws(e.last()));
    assert forall|k: int| 0 <= k < e.len() implies e[k] != '\n' && e[k] != '|' by {}
}

proof fn lemma_id_cell(id: Seq<char>)
    requires
        is_valid_id(id),
    ensures
        no_char(id, '|'),
        no_char(id, '\n'),
        is_trimmed(id),
        trim(id) == id,
        id.len() > 0,
{
    assert(!is_ws(id[0]));
    assert(!is_ws(id[1]));
    lemma_trim_of_trimmed(id);
}

proof fn lemma_cell_then_no_newline(c: Seq<char>, rest: Seq<char>)
    requires
        no_char(c, '\n'),
        no_char(rest, '\n'),
    ensures
        no_char(cell_then(c, rest), '\n'),
{
    lemma_no_char_concat(seq![' '], c, '\n');
    lemma_no_char_concat(seq![' '] + c, seq![' ', '|'], '\n');
    lemma_no_char_concat(seq![' '] + c + seq![' ', '|'], rest, '\n');
}

proof fn lemma_row_plain(c0: Seq<char>, c1: Seq<char>, c2: Seq<char>, c3: Seq<char>, c4: Seq<char>)
    requires
        no_char(c0, '\n'),
        no_char(c1, '\n'),
        no_char(c2, '\n'),
        no_char(c3, '\n'),
        no_char(c4, '\n'),
    ensures
        plain_line(row_of(c0, c1, c2, c3, c4)),
        row_of(c0, c1, c2, c3, c4)[0] == '|',
{
    lemma_row_inner(c0, c1, c2, c3, c4);
    let t4 = padded(c4);
    lemma_no_char_concat(seq![' '], c4, '\n');
    lemma_no_char_concat(seq![' '] + c4, seq![' '], '\n');
    lemma_cell_then_no_newline(c3, t4);
    let t3 = cell_then(c3, t4);
    lemma_cell_then_no_newline(c2, t3);
    let t2 = cell_then(c2, t3);
    lemma_cell_then_no_newline(c1, t2);
    let t1 = cell_then(c1, t2);
    lemma_cell_then_no_newline(c0, t1);
    let inner = inner_of(c0, c1, c2, c3, c4);
    lemma_no_char_concat(seq!['|'], inner, '\n');
    lemma_no_char_concat(seq!['|'] + inner, seq!['|'], '\n');
    let row = seq!['|'] + inner + seq!['|'];
    assert(row.last() == '|');
}

/// A well-formed bullet's row is a plain line whose cells read back as the
/// bullet.
pub proof fn lemma_bullet_row(b: BulletView, line: nat)
    requires
        wf_bullet(b),
    ensures
        plain_line(bullet_row(b)),
        trim(bullet_row(b)) == bullet_row(b),
        bullet_row(b).len() > 0 && bullet_row(b)[0] == '|',
        row_cells(bullet_row(b)).len() == 5,
        parse_row_spec(row_cells(bullet_row(b)), line) == Ok::<BulletView, ErrorView>(b),
{
    let c0 = status_emoji(b.status);
    let c1 = escape(b.text);
    let c2 = notes_cell(b.notes);
    let m = migration_cell(b.migrated_to, b.migrated_from);
    let c3 = escape(m);
    let c4 = b.id;
    lemma_status_cell(b.status);
    lemma_escape_props(b.text);
    lemma_trimmed_escape(b.text);
    assert(all_notes_wf(b.notes));
    lemma_notes_cell(b.notes);
    lemma_migration_read_back(b.migrated_to, b.migrated_from, line);
    lemma_escape_props(m);
    lemma_trimmed_escape(m);
    lemma_id_cell(c4);
    lemma_row_cells(c0, c1, c2, c3, c4);
    lemma_row_plain(c0, c1, c2, c3, c4);
    let cols = seq![c0, c1, c2, c3, c4];
    assert(row_cells(bullet_row(b)) == cols);
    lemma_trim_of_trimmed(c0);
    lemma_status_emoji_round_trip(b.status);
    lemma_notes_read_back(b.notes);
    lemma_unescape_escape(m);
    lemma_unescape_escape(b.text);
    assert(cols[0] == c0 && cols[1] == c1 && cols[2] == c2 && cols[3] == c3 && cols[4] == c4);
}

// ---------------------------------------------------------------------------
// Whole files read back

/// The rows of well-formed bullets, from line `base` to the end, read back
/// as the bullets.
proof fn lemma_rows_read_back(ls: Seq<Seq<char>>, base: int, bs: Seq<BulletView>)
    requires
        0 <= base,
        ls.len() == base + bs.len(),
        forall|i: int| 0 <= i < bs.len() ==> ls[base + i] == bullet_row(#[trigger] bs[i]),
        wf_bullets(bs),
    ensures
        parse_rows_spec(ls, base) == Ok::<Seq<BulletView>, ErrorView>(bs),
    decreases bs.len(),
{
    if bs.len() == 0 {
        assert(parse_rows_spec(ls, base) == Ok::<Seq<BulletView>, ErrorView>(seq![]));
        assert(bs =~= Seq::<BulletView>::empty());
    } else {
        let b = bs[0];
        assert(ls[base + 0] == bullet_row(bs[0]));
        assert(wf_bullet(b));
        lemma_bullet_row(b, (base + 1) as nat);
        let t = trim(ls[base]);
        assert(t == bullet_row(b));
        assert(t.take(1) =~= lit_pipe());
        let rest = bs.drop_first();
        assert forall|i: int| 0 <= i < rest.len() implies ls[base + 1 + i] == bullet_row(
            #[trigger] rest[i],
        ) by {
            assert(rest[i] == bs[i + 1]);
            assert(ls[base + (i + 1)] == bullet_row(bs[i + 1]));
        }
        assert forall|i: int| 0 <= i < rest.len() implies wf_bullet(#[trigger] rest[i]) by {
            assert(rest[i] == bs[i + 1]);
        }
        lemma_rows_read_back(ls, base + 1, rest);
        assert(seq![b] + rest =~= bs);
    }
}

proof fn lemma_table_header()
    ensures
        plain_line(table_header()),
        table_header()[0] == '|',
        trim_start(table_header()) == table_header(),
        row_cells(table_header()).len() == 5,
{
    reveal_strlit("| Status | Bullet | Notes | Migration | ID |");
    reveal_strlit("Status");
    reveal_strlit("Bullet");
    reveal_strlit("Notes");
    reveal_strlit("Migration");
    reveal_strlit("ID");
    let (c0, c1, c2, c3, c4) = ("Status"@, "Bullet"@, "Notes"@, "Migration"@, "ID"@);
    assert(table_header() =~= row_of(c0, c1, c2, c3, c4));
    assert(pipe_safe(c0) && is_trimmed(c0) && no_char(c0, '\n'));
    assert(pipe_safe(c1) && is_trimmed(c1) && no_char(c1, '\n'));
    assert(pipe_safe(c2) && is_trimmed(c2) && no_char(c2, '\n'));
    assert(pipe_safe(c3) && is_trimmed(c3) && no_char(c3, '\n'));
    assert(no_char(c4, '|') && is_trimmed(c4) && no_char(c4, '\n'));
    lemma_row_cells(c0, c1, c2, c3, c4);
    lemma_row_plain(c0, c1, c2, c3, c4);
    assert(!is_ws('|'));
    lemma_trim_start_nonws(table_header());
}

proof fn lemma_table_separator()
    ensures
        plain_line(table_separator()),
        starts_with(trim_start(table_separator()), lit_pipe()),
        contains(table_separator(), lit_dashes()),
{
    reveal_strlit("|--------|--------|-------|-----------|-----|");
    let sep = table_separator();
    assert(sep[0] == '|');
    assert(!is_ws('|'));
    lemma_trim_start_nonws(sep);
    assert(sep.take(1) =~= lit_pipe());
    assert(sep.subrange(1, 4) =~= lit_dashes());
    assert(occurs_at(sep, lit_dashes(), 1));
    assert forall|k: int| 0 <= k < sep.len() implies sep[k] != '\n' by {}
}

/// The lines of a file with heading line `head` and the table of `bs`.
pub open spec fn file_lines(head: Seq<char>, bs: Seq<BulletView>) -> Seq<Seq<char>> {
    header_lines() + seq![seq![], head, seq![]] + table_lines(bs)
}

proof fn lemma_file_layout(head: Seq<char>, bs: Seq<BulletView>)
    ensures
        file_lines(head, bs).len() == 30 + bs.len(),
        forall|i: int| 0 <= i < 25 ==> #[trigger] file_lines(head, bs)[i] == header_lines()[i],
        file_lines(head, bs)[25] == Seq::<char>::empty(),
        file_lines(head, bs)[26] == head,
        file_lines(head, bs)[27] == Seq::<char>::empty(),
        file_lines(head, bs)[28] == table_header(),
        file_lines(head, bs)[29] == table_separator(),
        forall|i: int|
            0 <= i < bs.len() ==> file_lines(head, bs)[30 + i] == bullet_row(#[trigger] bs[i]),
{
    lemma_header_lines();
    let ls = file_lines(head, bs);
    let rows = bs.map_values(|b: BulletView| bullet_row(b));
    assert(table_lines(bs) == seq![table_header(), table_separator()] + rows);
    assert forall|i: int| 0 <= i < bs.len() implies ls[30 + i] == bullet_row(#[trigger] bs[i]) by {
        assert(ls[30 + i] == rows[i]);
    }
}

proof fn lemma_file_plain(head: Seq<char>, bs: Seq<BulletView>)
    requires
        wf_bullets(bs),
        plain_line(head),
    ensures
        lines(join_lines(file_lines(head, bs))) == file_lines(head, bs),
{
    let ls = file_lines(head, bs);
    lemma_file_layout(head, bs);
    lemma_header_lines();
    lemma_table_header();
    lemma_table_separator();
    assert forall|i: int| 0 <= i < ls.len() implies plain_line(#[trigger] ls[i]) by {
        if i < 25 {
            assert(plain_line(header_lines()[i]));
        } else if 30 <= i {
            let j = i - 30;
            assert(ls[30 + j] == bullet_row(bs[j]));
            assert(wf_bullet(bs[j]));
            lemma_bullet_row(bs[j], 0);
        }
    }
    lemma_lines_join(ls);
}

proof fn lemma_comment_open_line()
    ensures
        starts_with(trim_start(lit_comment_open()), lit_comment_open()),
        !contains(lit_comment_open(), lit_comment_close()),
        contains(lit_comment_close(), lit_comment_close()),
{
    let o = lit_comment_open();
    assert(!is_ws('<'));
    lemma_trim_start_nonws(o);
    assert(o.take(4) =~= o);
    if contains(o, lit_comment_close()) {
        let i = choose|i: int| #[trigger] occurs_at(o, lit_comment_close(), i);
        assert(o.subrange(i, i + 3)[0] == o[i]);
        assert(o.subrange(i, i + 3)[1] == o[i + 1]);
    }
    let c = lit_comment_close();
    assert(c.subrange(0, 3) =~= c);
    assert(occurs_at(c, c, 0));
}

proof fn lemma_comment_ends(ls: Seq<Seq<char>>)
    requires
        ls.len() > 25,
        forall|k: int| 1 <= k < 24 ==> !contains(#[trigger] ls[k], lit_comment_close()),
        ls[24] == lit_comment_close(),
    ensures
        first_from(ls.len() as int, 1, |k: int| contains(ls[k], lit_comment_close())) == 24,
{
    lemma_comment_open_line();
    let pc = |k: int| contains(ls[k], lit_comment_close());
    assert forall|k: int| 1 <= k < 24 implies !#[trigger] pc(k) by {
        assert(!contains(ls[k], lit_comment_close()));
    }
    assert(pc(24));
    crate::text::lemma_first_from_unique(ls.len() as int, 1, pc, 24);
}

proof fn lemma_file_comment(head: Seq<char>, bs: Seq<BulletView>, path: Seq<char>)
    ensures
        after_comment(file_lines(head, bs), path) == Ok::<int, ErrorView>(25),
{
    let ls = file_lines(head, bs);
    lemma_file_layout(head, bs);
    lemma_header_lines();
    lemma_comment_open_line();
    assert forall|k: int| 1 <= k < 24 implies !contains(#[trigger] ls[k], lit_comment_close()) by {
        assert(ls[k] == header_lines()[k]);
    }
    lemma_comment_ends(ls);
}

proof fn lemma_file_blanks(head: Seq<char>, bs: Seq<BulletView>)
    requires
        trim(head).len() > 0,
    ensures
        skip_blank(file_lines(head, bs), 25) == 26,
        skip_blank(file_lines(head, bs), 27) == 28,
{
    let ls = file_lines(head, bs);
    let e = Seq::<char>::empty();
    lemma_file_layout(head, bs);
    lemma_table_header();
    lemma_trim_of_trimmed(e);
    let pb = |k: int| trim(ls[k]).len() > 0;
    assert(!pb(25));
    assert(pb(26));
    crate::text::lemma_first_from_unique(ls.len() as int, 25, pb, 26);
    assert(!pb(27));
    assert(!is_ws(table_header().last())) by {
        reveal_strlit("| Status | Bullet | Notes | Migration | ID |");
    }
    lemma_trim_of_trimmed(table_header());
    assert(pb(28));
    crate::text::lemma_first_from_unique(ls.len() as int, 27, pb, 28);
}

proof fn lemma_file_table(head: Seq<char>, bs: Seq<BulletView>)
    requires
        wf_bullets(bs),
    ensures
        parse_table_spec(file_lines(head, bs), 28) == Ok::<Seq<BulletView>, ErrorView>(bs),
{
    let ls = file_lines(head, bs);
    lemma_file_layout(head, bs);
    lemma_table_header();
    lemma_table_separator();
    assert(table_header().take(1) =~= lit_pipe());
    lemma_rows_read_back(ls, 30, bs);
}

/// The file's text is split back into its lines, and everything up to the
/// table is read as it was written.
proof fn lemma_file_lines(head: Seq<char>, bs: Seq<BulletView>, path: Seq<char>)
    requires
        wf_bullets(bs),
        plain_line(head),
        trim(head).len() > 0,
    ensures
        lines(join_lines(file_lines(head, bs))) == file_lines(head, bs),
        after_comment(file_lines(head, bs), path) == Ok::<int, ErrorView>(25),
        skip_blank(file_lines(head, bs), 25) == 26,
        skip_blank(file_lines(head, bs), 27) == 28,
        file_lines(head, bs)[26] == head,
        parse_table_spec(file_lines(head, bs), 28) == Ok::<Seq<BulletView>, ErrorView>(bs),
{
    lemma_file_layout(head, bs);
    lemma_file_plain(head, bs);
    lemma_file_comment(head, bs, path);
    lemma_file_blanks(head, bs);
    lemma_file_table(head, bs);
}

/// A well-formed daily log, written and read back, is the same log.
pub proof fn law_daily_log_round_trip(log: DailyLogView, path: Seq<char>)
    requires
        wf_daily_log(log),
    ensures
        parse_file_spec(daily_log_text(log), path) == Ok::<ParsedFileView, ErrorView>(
            ParsedFileView::DailyLog(log),
        ),
{
    let d = date_text(log.date);
    lemma_date_chars(log.date);
    lemma_date_no_specials(log.date);
    let head = lit_heading() + d;
    assert(daily_log_lines(log) == file_lines(head, log.bullets));
    assert(head[0] == '#');
    assert(!is_ws('#'));
    assert(head.last() == d.last());
    lemma_trim_of_trimmed(head);
    lemma_no_char_concat(lit_heading(), d, '\n');
    lemma_file_lines(head, log.bullets, path);
    let ls = file_lines(head, log.bullets);
    assert(head.take(2) =~= lit_heading());
    assert(head.skip(2) =~= d);
    lemma_trim_of_trimmed(d);
    assert(!eq_ignore_ascii_case(d, lit_backlog()));
    assert(parse_heading_spec(ls, 26, path) == Ok::<HeadingView, ErrorView>(
        HeadingView::Date(log.date),
    ));
}

/// A backlog of well-formed bullets, written and read back, is the same
/// backlog.
pub proof fn law_backlog_round_trip(bs: Seq<BulletView>, path: Seq<char>)
    requires
        wf_bullets(bs),
    ensures
        parse_file_spec(backlog_text(bs), path) == Ok::<ParsedFileView, ErrorView>(
            ParsedFileView::Backlog(bs),
        ),
{
    reveal_strlit("# Backlog");
    let head = "# Backlog"@;
    assert(backlog_lines(bs) == file_lines(head, bs));
    assert(!is_ws('#'));
    assert(!is_ws('g'));
    lemma_trim_of_trimmed(head);
    assert forall|k: int| 0 <= k < head.len() implies head[k] != '\n' by {}
    lemma_file_lines(head, bs, path);
    let ls = file_lines(head, bs);
    let b = head.skip(2);
    assert(head.take(2) =~= lit_heading());
    assert(b[0] == 'B');
    assert(!is_ws('B'));
    lemma_trim_of_trimmed(b);
    assert(eq_ignore_ascii_case(b, lit_backlog()));
    assert(parse_heading_spec(ls, 26, path) == Ok::<HeadingView, ErrorView>(HeadingView::Backlog));
}

} // verus!
