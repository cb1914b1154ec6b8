//! Writing daily logs and the backlog as Markdown (see `format`).

use crate::date::format_date;
use crate::format::{
    backlog_lines, backlog_text, bullet_row, daily_log_lines, daily_log_text, escape, from_link,
    header_lines, join_br, lit_heading, migration_cell, notes_cell, table_header, table_lines,
    table_separator, to_link,
};
use crate::model::{
    bullets_view, opt_from_view, opt_to_view, strings_view, BacklogLog, Bullet, BulletView,
    DailyLog, Link, MigrationFrom, MigrationFromView, MigrationRef, MigrationTarget, MigrationTo,
    MigrationToView,
};
use crate::text::{join_lines, lemma_join_lines_append, push_char};
use vstd::prelude::*;

verus! {

pub proof fn lemma_join_lines_push(ls: Seq<Seq<char>>, l: Seq<char>)
    ensures
        join_lines(ls.push(l)) == join_lines(ls) + l + seq!['\n'],
{
    lemma_join_lines_append(ls, seq![l]);
    assert(ls + seq![l] =~= ls.push(l));
    assert(seq![l].drop_first() =~= Seq::<Seq<char>>::empty());
    assert(join_lines(seq![l]) =~= l + seq!['\n'] + join_lines(Seq::<Seq<char>>::empty()));
    assert(join_lines(ls) + join_lines(seq![l]) =~= join_lines(ls) + l + seq!['\n']);
}

fn push_line(out: &mut String, s: &str)
    ensures
        final(out)@ == old(out)@ + s@ + seq!['\n'],
{
    out.append(s);
    push_char(out, '\n');
}

fn push_string_line(out: &mut String, s: &String)
    ensures
        final(out)@ == old(out)@ + s@ + seq!['\n'],
{
    out.append(s.as_str());
    push_char(out, '\n');
}

/// Escape pipe characters in cell content for GFM tables.
pub fn escape_pipe(s: &str) -> (r: String)
    ensures
        r@ == escape(s@),
{
    let v = crate::text::chars_of(s);
    let e = crate::parser::escape_chars(&v);
    crate::text::string_from_chars(&e)
}

fn append_escaped(out: &mut String, s: &String)
    ensures
        final(out)@ == old(out)@ + escape(s@),
{
    let e = escape_pipe(s.as_str());
    out.append(e.as_str());
}

/// The Notes cell: the notes, pipes escaped, joined with `<br>`.
pub fn format_notes(notes: &[String]) -> (r: String)
    ensures
        r@ == notes_cell(strings_view(notes@)),
{
    let ghost ns = strings_view(notes@).map_values(|n: Seq<char>| escape(n));
    let mut out = String::new();
    if notes.len() == 0 {
        assert(ns =~= Seq::<Seq<char>>::empty());
        return out;
    }
    // join_br of the escaped notes, built back to front
    let mut i = notes.len() - 1;
    let e = escape_pipe(notes[i].as_str());
    let mut acc = e;
    proof {
        assert(ns.skip(i as int) =~= seq![ns[i as int]]);
    }
    while i > 0
        invariant
            i < notes@.len(),
            ns == strings_view(notes@).map_values(|n: Seq<char>| escape(n)),
            acc@ == join_br(ns.skip(i as int)),
        decreases i,
    {
        i = i - 1;
        let mut next = escape_pipe(notes[i].as_str());
        next.append("<br>");
        next.append(acc.as_str());
        proof {
            reveal_strlit("<br>");
            let rest = ns.skip(i as int);
            assert(rest.drop_first() =~= ns.skip(i + 1));
            assert(rest.len() >= 2);
            assert(rest[0] == ns[i as int]);
        }
        acc = next;
    }
    assert(ns.skip(0) =~= ns);
    acc
}

/// The link text of one migration reference.
pub open spec fn link_text(l: Link) -> Seq<char> {
    match l {
        Link::To(t) => to_link(t),
        Link::From(f) => from_link(f),
    }
}

fn append_to_link(out: &mut String, target_date: &MigrationTarget, target_id: &String)
    ensures
        final(out)@ == old(out)@ + to_link(
            MigrationToView { target_date: *target_date, target_id: target_id@ },
        ),
{
    match target_date {
        MigrationTarget::Date(d) => {
            let ds = format_date(*d);
            out.append("[to ");
            out.append(ds.as_str());
            out.append("/");
            out.append(target_id.as_str());
            out.append("](./");
            out.append(ds.as_str());
            out.append(".md)");
        },
        MigrationTarget::Backlog => {
            out.append("[to backlog/");
            out.append(target_id.as_str());
            out.append("](./backlog.md)");
        },
    }
}

fn append_from_link(out: &mut String, source_date: &crate::date::Date, source_id: &String)
    ensures
        final(out)@ == old(out)@ + from_link(
            MigrationFromView { source_date: *source_date, source_id: source_id@ },
        ),
{
    let ds = format_date(*source_date);
    out.append("[from ");
    out.append(ds.as_str());
    out.append("/");
    out.append(source_id.as_str());
    out.append("](./");
    out.append(ds.as_str());
    out.append(".md)");
}

/// The text of a single migration link.
pub fn format_migration(migration: &Option<MigrationRef>) -> (r: String)
    ensures
        match migration {
            None => r@ == Seq::<char>::empty(),
            Some(l) => r@ == link_text(l@),
        },
{
    let mut out = String::new();
    match migration {
        None => {},
        Some(MigrationRef::To { target_date, target_id }) => {
            append_to_link(&mut out, target_date, target_id);
        },
        Some(MigrationRef::From { source_date, source_id }) => {
            append_from_link(&mut out, source_date, source_id);
        },
    }
    out
}

/// The Migration cell of a bullet: its `from` link, then its `to` link.
pub fn format_migration_cell(to: &Option<MigrationTo>, from: &Option<MigrationFrom>) -> (r: String)
    ensures
        r@ == migration_cell(opt_to_view(*to), opt_from_view(*from)),
{
    let mut out = String::new();
    match from {
        Some(f) => {
            append_from_link(&mut out, &f.source_date, &f.source_id);
        },
        None => {},
    }
    match to {
        Some(t) => {
            if from.is_some() {
                push_char(&mut out, ' ');
            }
            append_to_link(&mut out, &t.target_date, &t.target_id);
        },
        None => {},
    }
    out
}

fn write_row(out: &mut String, bullet: &Bullet)
    ensures
        final(out)@ == old(out)@ + bullet_row(bullet@) + seq!['\n'],
{
    let notes = format_notes(bullet.notes.as_slice());
    let migration = format_migration_cell(&bullet.migrated_to, &bullet.migrated_from);
    out.append("| ");
    out.append(bullet.status.as_emoji());
    out.append(" | ");
    append_escaped(out, &bullet.text);
    out.append(" | ");
    out.append(notes.as_str());
    out.append(" | ");
    append_escaped(out, &migration);
    out.append(" | ");
    out.append(bullet.id.as_str());
    out.append(" |");
    push_char(out, '\n');
    proof {
        reveal_strlit("| ");
        reveal_strlit(" | ");
        reveal_strlit(" |");
    }
}

fn write_table(out: &mut String, bullets: &Vec<Bullet>)
    ensures
        final(out)@ == old(out)@ + join_lines(table_lines(bullets_view(bullets@))),
{
    let ghost rows = bullets_view(bullets@).map_values(|b: BulletView| bullet_row(b));
    push_line(out, "| Status | Bullet | Notes | Migration | ID |");
    push_line(out, "|--------|--------|-------|-----------|-----|");
    let ghost mut acc: Seq<Seq<char>> = seq![table_header(), table_separator()];
    proof {
        lemma_join_lines_push(seq![table_header()], table_separator());
        lemma_join_lines_push(Seq::<Seq<char>>::empty(), table_header());
        assert(Seq::<Seq<char>>::empty().push(table_header()) =~= seq![table_header()]);
        assert(seq![table_header()].push(table_separator()) =~= acc);
        assert(join_lines(Seq::<Seq<char>>::empty()) =~= Seq::<char>::empty());
        assert(out@ =~= old(out)@ + join_lines(acc));
    }
    let mut i: usize = 0;
    while i < bullets.len()
        invariant
            i <= bullets.len(),
            rows == bullets_view(bullets@).map_values(|b: BulletView| bullet_row(b)),
            acc == seq![table_header(), table_separator()] + rows.take(i as int),
            out@ == old(out)@ + join_lines(acc),
        decreases bullets.len() - i,
    {
        write_row(out, &bullets[i]);
        proof {
            lemma_join_lines_push(acc, rows[i as int]);
            assert(rows.take(i + 1) =~= rows.take(i as int).push(rows[i as int]));
            acc = acc.push(rows[i as int]);
        }
        i = i + 1;
    }
    assert(rows.take(i as int) =~= rows);
}

fn write_header_part0(out: &mut String)
    ensures
        final(out)@ == old(out)@ + join_lines(crate::format::header_part0()),
{
    let ghost mut acc: Seq<Seq<char>> = seq![];
    assert(join_lines(acc) =~= Seq::<char>::empty());
    push_line(out, "<!--");
    proof {
        lemma_join_lines_push(acc, "<!--"@);
        acc = acc.push("<!--"@);
    }
    push_line(out, "  \u{26A0}\u{FE0F} bulletd managed file \u{2014} do not hand edit");
    proof {
        lemma_join_lines_push(acc, "  \u{26A0}\u{FE0F} bulletd managed file \u{2014} do not hand edit"@);
        acc = acc.push("  \u{26A0}\u{FE0F} bulletd managed file \u{2014} do not hand edit"@);
    }
    push_line(out, "  Hand editing may break bulletd TUI or MCP server.");
    proof {
        lemma_join_lines_push(acc, "  Hand editing may break bulletd TUI or MCP server."@);
        acc = acc.push("  Hand editing may break bulletd TUI or MCP server."@);
    }
    push_line(out, "");
    proof {
        lemma_join_lines_push(acc, ""@);
        acc = acc.push(""@);
    }
    push_line(out, "  Format: GFM table with columns: Status | Bullet | Notes | Migration | ID");
    proof {
        lemma_join_lines_push(acc, "  Format: GFM table with columns: Status | Bullet | Notes | Migration | ID"@);
        acc = acc.push("  Format: GFM table with columns: Status | Bullet | Notes | Migration | ID"@);
    }
    assert(acc =~= crate::format::header_part0());
}

fn write_header_part1(out: &mut String)
    ensures
        final(out)@ == old(out)@ + join_lines(crate::format::header_part1()),
{
    let ghost mut acc: Seq<Seq<char>> = seq![];
    assert(join_lines(acc) =~= Seq::<char>::empty());
    push_line(out, "");
    proof {
        lemma_join_lines_push(acc, ""@);
        acc = acc.push(""@);
    }
    push_line(out, "  Status Emoji Reference:");
    proof {
        lemma_join_lines_push(acc, "  Status Emoji Reference:"@);
        acc = acc.push("  Status Emoji Reference:"@);
    }
    push_line(out, "    \u{1F4CC}  Open task \u{2014} not yet acted on");
    proof {
        lemma_join_lines_push(acc, "    \u{1F4CC}  Open task \u{2014} not yet acted on"@);
        acc = acc.push("    \u{1F4CC}  Open task \u{2014} not yet acted on"@);
    }
    push_line(out, "    \u{2705}  Done \u{2014} completed");
    proof {
        lemma_join_lines_push(acc, "    \u{2705}  Done \u{2014} completed"@);
        acc = acc.push("    \u{2705}  Done \u{2014} completed"@);
    }
    push_line(out, "    \u{27A1}\u{FE0F}  Migrated \u{2014} moved to another day");
    proof {
        lemma_join_lines_push(acc, "    \u{27A1}\u{FE0F}  Migrated \u{2014} moved to another day"@);
        acc = acc.push("    \u{27A1}\u{FE0F}  Migrated \u{2014} moved to another day"@);
    }
    assert(acc =~= crate::format::header_part1());
}

fn write_header_part2(out: &mut String)
    ensures
        final(out)@ == old(out)@ + join_lines(crate::format::header_part2()),
{
    let ghost mut acc: Seq<Seq<char>> = seq![];
    assert(join_lines(acc) =~= Seq::<char>::empty());
    push_line(out, "    \u{274C}  Cancelled \u{2014} dropped");
    proof {
        lemma_join_lines_push(acc, "    \u{274C}  Cancelled \u{2014} dropped"@);
        acc = acc.push("    \u{274C}  Cancelled \u{2014} dropped"@);
    }
    push_line(out, "    \u{1F4E5}  Backlogged \u{2014} moved to backlog.md");
    proof {
        lemma_join_lines_push(acc, "    \u{1F4E5}  Backlogged \u{2014} moved to backlog.md"@);
        acc = acc.push("    \u{1F4E5}  Backlogged \u{2014} moved to backlog.md"@);
    }
    push_line(out, "    \u{1F4C5}  Event \u{2014} something that happened or is scheduled");
    proof {
        lemma_join_lines_push(acc, "    \u{1F4C5}  Event \u{2014} something that happened or is scheduled"@);
        acc = acc.push("    \u{1F4C5}  Event \u{2014} something that happened or is scheduled"@);
    }
    push_line(out, "    \u{1F4DD}  Note \u{2014} information, context, thoughts");
    proof {
        lemma_join_lines_push(acc, "    \u{1F4DD}  Note \u{2014} information, context, thoughts"@);
        acc = acc.push("    \u{1F4DD}  Note \u{2014} information, context, thoughts"@);
    }
    push_line(out, "");
    proof {
        lemma_join_lines_push(acc, ""@);
        acc = acc.push(""@);
    }
    assert(acc =~= crate::format::header_part2());
}

fn write_header_part3(out: &mut String)
    ensures
        final(out)@ == old(out)@ + join_lines(crate::format::header_part3()),
{
    let ghost mut acc: Seq<Seq<char>> = seq![];
    assert(join_lines(acc) =~= Seq::<char>::empty());
    push_line(out, "  Notes: Optional context. Use <br> for multiple lines.");
    proof {
        lemma_join_lines_push(acc, "  Notes: Optional context. Use <br> for multiple lines."@);
        acc = acc.push("  Notes: Optional context. Use <br> for multiple lines."@);
    }
    push_line(out, "");
    proof {
        lemma_join_lines_push(acc, ""@);
        acc = acc.push(""@);
    }
    push_line(out, "  Migration: Traceability for migrated/backlogged tasks. Rendered as clickable links.");
    proof {
        lemma_join_lines_push(acc, "  Migration: Traceability for migrated/backlogged tasks. Rendered as clickable links."@);
        acc = acc.push("  Migration: Traceability for migrated/backlogged tasks. Rendered as clickable links."@);
    }
    push_line(out, "    \"to YYYY-MM-DD/ID\" links to the target file");
    proof {
        lemma_join_lines_push(acc, "    \"to YYYY-MM-DD/ID\" links to the target file"@);
        acc = acc.push("    \"to YYYY-MM-DD/ID\" links to the target file"@);
    }
    push_line(out, "    \"from YYYY-MM-DD/ID\" links to the source file");
    proof {
        lemma_join_lines_push(acc, "    \"from YYYY-MM-DD/ID\" links to the source file"@);
        acc = acc.push("    \"from YYYY-MM-DD/ID\" links to the source file"@);
    }
    assert(acc =~= crate::format::header_part3());
}

fn write_header_part4(out: &mut String)
    ensures
        final(out)@ == old(out)@ + join_lines(crate::format::header_part4()),
{
    let ghost mut acc: Seq<Seq<char>> = seq![];
    assert(join_lines(acc) =~= Seq::<char>::empty());
    push_line(out, "    \"to backlog/ID\" links to backlog.md");
    proof {
        lemma_join_lines_push(acc, "    \"to backlog/ID\" links to backlog.md"@);
        acc = acc.push("    \"to backlog/ID\" links to backlog.md"@);
    }
    push_line(out, "");
    proof {
        lemma_join_lines_push(acc, ""@);
        acc = acc.push(""@);
    }
    push_line(out, "  ID: 8-char hex, unique within this file.");
    proof {
        lemma_join_lines_push(acc, "  ID: 8-char hex, unique within this file."@);
        acc = acc.push("  ID: 8-char hex, unique within this file."@);
    }
    push_line(out, "      Cross-file references use date/id format (e.g. 2026-04-05/c5a1d9e7)");
    proof {
        lemma_join_lines_push(acc, "      Cross-file references use date/id format (e.g. 2026-04-05/c5a1d9e7)"@);
        acc = acc.push("      Cross-file references use date/id format (e.g. 2026-04-05/c5a1d9e7)"@);
    }
    push_line(out, "-->");
    proof {
        lemma_join_lines_push(acc, "-->"@);
        acc = acc.push("-->"@);
    }
    assert(acc =~= crate::format::header_part4());
}

fn write_header(out: &mut String)
    ensures
        final(out)@ == old(out)@ + join_lines(header_lines()),
{
    write_header_part0(out);
    write_header_part1(out);
    write_header_part2(out);
    write_header_part3(out);
    write_header_part4(out);
    proof {
        let p0 = crate::format::header_part0();
        let p1 = crate::format::header_part1();
        let p2 = crate::format::header_part2();
        let p3 = crate::format::header_part3();
        let p4 = crate::format::header_part4();
        lemma_join_lines_append(p0, p1);
        lemma_join_lines_append(p0 + p1, p2);
        lemma_join_lines_append(p0 + p1 + p2, p3);
        lemma_join_lines_append(p0 + p1 + p2 + p3, p4);
        assert(out@ =~= old(out)@ + join_lines(p0 + p1 + p2 + p3 + p4));
    }
}

/// Serialize a DailyLog to its markdown string representation.
/// Always emits the table header and separator, even for empty bullet lists.
pub fn serialize_daily_log(log: &DailyLog) -> (r: String)
    ensures
        r@ == daily_log_text(log@),
{
    let mut out = String::new();
    write_header(&mut out);
    push_line(&mut out, "");
    let mut heading = String::from_str("# ");
    let ds = format_date(log.date);
    heading.append(ds.as_str());
    push_string_line(&mut out, &heading);
    push_line(&mut out, "");
    write_table(&mut out, &log.bullets);
    proof {
        reveal_strlit("");
        reveal_strlit("# ");
        let h = header_lines();
        let mid = seq![Seq::<char>::empty(), lit_heading() + crate::date::date_text(log.date), Seq::<char>::empty()];
        let t = table_lines(bullets_view(log.bullets@));
        lemma_join_lines_append(h + mid, t);
        lemma_join_lines_append(h, mid);
        lemma_join_lines_push(seq![Seq::<char>::empty(), lit_heading() + crate::date::date_text(log.date)], Seq::<char>::empty());
        lemma_join_lines_push(seq![Seq::<char>::empty()], lit_heading() + crate::date::date_text(log.date));
        lemma_join_lines_push(Seq::<Seq<char>>::empty(), Seq::<char>::empty());
        assert(Seq::<Seq<char>>::empty().push(Seq::<char>::empty()) =~= seq![Seq::<char>::empty()]);
        assert(seq![Seq::<char>::empty()].push(lit_heading() + crate::date::date_text(log.date)) =~= seq![Seq::<char>::empty(), lit_heading() + crate::date::date_text(log.date)]);
        assert(seq![Seq::<char>::empty(), lit_heading() + crate::date::date_text(log.date)].push(Seq::<char>::empty()) =~= mid);
        assert(join_lines(Seq::<Seq<char>>::empty()) =~= Seq::<char>::empty());
        assert(out@ =~= join_lines(daily_log_lines(log@)));
    }
    out
}

/// Serialize a BacklogLog to its markdown string representation.
/// Always emits the table header and separator, even for empty bullet lists.
pub fn serialize_backlog(backlog: &BacklogLog) -> (r: String)
    ensures
        r@ == backlog_text(backlog@),
{
    let mut out = String::new();
    write_header(&mut out);
    push_line(&mut out, "");
    push_line(&mut out, "# Backlog");
    push_line(&mut out, "");
    write_table(&mut out, &backlog.bullets);
    proof {
        reveal_strlit("");
        let h = header_lines();
        let mid = seq![Seq::<char>::empty(), "# Backlog"@, Seq::<char>::empty()];
        let t = table_lines(bullets_view(backlog.bullets@));
        lemma_join_lines_append(h + mid, t);
        lemma_join_lines_append(h, mid);
        lemma_join_lines_push(seq![Seq::<char>::empty(), "# Backlog"@], Seq::<char>::empty());
        lemma_join_lines_push(seq![Seq::<char>::empty()], "# Backlog"@);
        lemma_join_lines_push(Seq::<Seq<char>>::empty(), Seq::<char>::empty());
        assert(Seq::<Seq<char>>::empty().push(Seq::<char>::empty()) =~= seq![Seq::<char>::empty()]);
        assert(seq![Seq::<char>::empty()].push("# Backlog"@) =~= seq![Seq::<char>::empty(), "# Backlog"@]);
        assert(seq![Seq::<char>::empty(), "# Backlog"@].push(Seq::<char>::empty()) =~= mid);
        assert(join_lines(Seq::<Seq<char>>::empty()) =~= Seq::<char>::empty());
        assert(out@ =~= join_lines(backlog_lines(backlog@)));
    }
    out
}

} // verus!
