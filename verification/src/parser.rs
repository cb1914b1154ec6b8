//! Reading bulletd Markdown files (see `format` for the grammar).

use crate::date::{parse_date, Date};
use crate::error::{Error, ErrorView};
use crate::format::{
    after_comment, ascii_lower, br_len_at, clean_notes, eq_ignore_ascii_case, escape, is_sep,
    lit_backlog, lit_close_open, lit_comment_close, lit_comment_open, lit_dashes, lit_from,
    lit_heading, lit_pipe, lit_to, last_slash, link_pair, notes_of, parse_file_spec,
    parse_heading_spec, parse_link, parse_lines_spec, parse_migration_spec, parse_row_spec,
    parse_rows_spec, parse_table_spec, row_cells, row_inner, skip_blank, split_br, split_cells,
    unescape, HeadingView, ParsedFileView,
};
use crate::id::validate_id;
use crate::model::{
    strings_view, Link, MigrationRef, Bullet, BulletStatus, BulletView, BacklogLog, DailyLog,
    MigrationFrom, MigrationFromView, MigrationTarget, MigrationTo, MigrationToView,
};
use crate::text::{
    chars_of, contains, contains_exec, find_exec, lemma_first_from_unique, slice_of, split_lines,
    starts_with_exec, string_from_chars, string_of, trim, trimmed, trimmed_start, views,
};
use vstd::prelude::*;

verus! {

/// Result of parsing a bulletd markdown file.
/// The heading can be either a date (daily log) or "Backlog".
#[derive(Debug)]
pub enum ParsedFile {
    DailyLog(DailyLog),
    Backlog(BacklogLog),
}

impl View for ParsedFile {
    type V = ParsedFileView;

    open spec fn view(&self) -> ParsedFileView {
        match self {
            ParsedFile::DailyLog(log) => ParsedFileView::DailyLog(log@),
            ParsedFile::Backlog(b) => ParsedFileView::Backlog(b@),
        }
    }
}

// ---------------------------------------------------------------------------
// Small character helpers

pub fn unescape_chars(v: &Vec<char>) -> (r: Vec<char>)
    ensures
        r@ == unescape(v@),
{
    let mut out: Vec<char> = Vec::new();
    let mut i: usize = 0;
    assert(v@.skip(0) =~= v@);
    while i < v.len()
        invariant
            i <= v.len(),
            out@ + unescape(v@.skip(i as int)) == unescape(v@),
        decreases v.len() - i,
    {
        let ghost s = v@.skip(i as int);
        let ghost old_out = out@;
        if i + 1 < v.len() && v[i] == '\\' && v[i + 1] == '|' {
            out.push('|');
            proof {
                assert(s.skip(2) =~= v@.skip(i + 2));
                assert(unescape(s) == seq!['|'] + unescape(s.skip(2)));
                assert(old_out + unescape(s) =~= out@ + unescape(v@.skip(i + 2)));
            }
            i = i + 2;
        } else {
            out.push(v[i]);
            proof {
                assert(s.drop_first() =~= v@.skip(i + 1));
                assert(unescape(s) == seq![v@[i as int]] + unescape(s.drop_first()));
                assert(old_out + unescape(s) =~= out@ + unescape(v@.skip(i + 1)));
            }
            i = i + 1;
        }
    }
    assert(v@.skip(i as int) =~= Seq::<char>::empty());
    assert(out@ + unescape(v@.skip(i as int)) =~= out@);
    out
}

pub fn escape_chars(v: &Vec<char>) -> (r: Vec<char>)
    ensures
        r@ == escape(v@),
{
    let mut out: Vec<char> = Vec::new();
    let mut i: usize = 0;
    assert(v@.skip(0) =~= v@);
    while i < v.len()
        invariant
            i <= v.len(),
            out@ + escape(v@.skip(i as int)) == escape(v@),
        decreases v.len() - i,
    {
        let ghost s = v@.skip(i as int);
        let ghost old_out = out@;
        if v[i] == '|' {
            out.push('\\');
            out.push('|');
        } else {
            out.push(v[i]);
        }
        proof {
            assert(s.drop_first() =~= v@.skip(i + 1));
            assert(old_out + escape(s) =~= out@ + escape(v@.skip(i + 1)));
        }
        i = i + 1;
    }
    assert(v@.skip(i as int) =~= Seq::<char>::empty());
    assert(out@ + escape(v@.skip(i as int)) =~= out@);
    out
}

fn strings_of(vs: &Vec<Vec<char>>) -> (r: Vec<String>)
    ensures
        strings_view(r@) == views(vs@),
{
    let mut out: Vec<String> = Vec::new();
    let mut i: usize = 0;
    while i < vs.len()
        invariant
            i <= vs.len(),
            strings_view(out@) == views(vs@).take(i as int),
        decreases vs.len() - i,
    {
        let s = string_from_chars(&vs[i]);
        let ghost old = strings_view(out@);
        out.push(s);
        assert(strings_view(out@) =~= old.push(s@));
        assert(views(vs@).take(i + 1) =~= views(vs@).take(i as int).push(vs@[i as int]@));
        i = i + 1;
    }
    assert(views(vs@).take(i as int) =~= views(vs@));
    out
}

// ---------------------------------------------------------------------------
// Cells

/// The pieces of `v` between separating pipes.
pub fn split_cells_chars(v: &Vec<char>) -> (r: Vec<Vec<char>>)
    ensures
        views(r@) == split_cells(v@),
{
    let mut out: Vec<Vec<char>> = Vec::new();
    let mut start: usize = 0;
    assert(v@.skip(0) =~= v@);
    loop
        invariant
            start <= v.len(),
            views(out@) + split_cells(v@.skip(start as int)) == split_cells(v@),
        decreases v.len() - start,
    {
        let ghost s = v@.skip(start as int);
        let mut k = start;
        while k < v.len() && !(v[k] == '|' && (k == start || v[k - 1] != '\\'))
            invariant
                start <= k <= v.len(),
                s == v@.skip(start as int),
                forall|j: int| 0 <= j < k - start ==> !is_sep(s, j),
            decreases v.len() - k,
        {
            proof {
                let j = k - start;
                if j > 0 {
                    assert(s[j - 1] == v@[k - 1]);
                }
                assert(s[j] == v@[k as int]);
            }
            k = k + 1;
        }
        proof {
            let p = |j: int| is_sep(s, j);
            assert forall|j: int| 0 <= j < k - start implies !#[trigger] p(j) by {
                assert(!is_sep(s, j));
            }
            if k < v.len() {
                let j = k - start;
                assert(s[j] == v@[k as int]);
                if j > 0 {
                    assert(s[j - 1] == v@[k - 1]);
                }
                assert(p(j));
            }
            lemma_first_from_unique(s.len() as int, 0, p, (k - start) as int);
        }
        let piece = slice_of(v, start, k);
        let ghost old_out = views(out@);
        out.push(piece);
        assert(views(out@) =~= old_out.push(piece@));
        if k < v.len() {
            proof {
                assert(s.take(k - start) =~= piece@);
                assert(s.skip(k - start + 1) =~= v@.skip(k + 1));
                assert(split_cells(s) == seq![piece@] + split_cells(v@.skip(k + 1)));
                assert(old_out + split_cells(s) =~= views(out@) + split_cells(v@.skip(k + 1)));
            }
            start = k + 1;
        } else {
            proof {
                assert(s =~= piece@);
                assert(split_cells(s) == seq![piece@]);
                assert(old_out + split_cells(s) =~= views(out@));
            }
            return out;
        }
    }
}

/// A row without its leading pipe and without an unescaped trailing pipe.
pub fn row_inner_chars(row: &Vec<char>) -> (r: Vec<char>)
    ensures
        r@ == row_inner(row@),
{
    let t = trimmed(row);
    let a = if t.len() > 0 && t[0] == '|' {
        slice_of(&t, 1, t.len())
    } else {
        slice_of(&t, 0, t.len())
    };
    assert(t@.len() > 0 && t@[0] == '|' ==> a@ =~= t@.drop_first());
    assert(!(t@.len() > 0 && t@[0] == '|') ==> a@ =~= t@);
    let n = a.len();
    if n > 0 && a[n - 1] == '|' && !(n >= 2 && a[n - 2] == '\\') {
        let r = slice_of(&a, 0, n - 1);
        assert(r@ =~= a@.drop_last());
        r
    } else {
        let r = slice_of(&a, 0, n);
        assert(r@ =~= a@);
        r
    }
}

/// The trimmed cells of a table row.
pub fn row_cells_chars(row: &Vec<char>) -> (r: Vec<Vec<char>>)
    ensures
        views(r@) == row_cells(row@),
{
    let inner = row_inner_chars(row);
    let pieces = split_cells_chars(&inner);
    let mut out: Vec<Vec<char>> = Vec::new();
    let mut i: usize = 0;
    while i < pieces.len()
        invariant
            i <= pieces.len(),
            views(pieces@) == split_cells(row_inner(row@)),
            views(out@) == views(pieces@).take(i as int).map_values(|c: Seq<char>| trim(c)),
        decreases pieces.len() - i,
    {
        let c = trimmed(&pieces[i]);
        let ghost old = views(out@);
        out.push(c);
        assert(views(out@) =~= old.push(c@));
        assert(views(pieces@).take(i + 1).map_values(|c: Seq<char>| trim(c)) =~= views(
            pieces@,
        ).take(i as int).map_values(|c: Seq<char>| trim(c)).push(trim(pieces@[i as int]@)));
        i = i + 1;
    }
    assert(views(pieces@).take(i as int) =~= views(pieces@));
    out
}

/// Split a table row into its trimmed cells.
pub fn split_row(row: &str) -> (r: Vec<String>)
    ensures
        strings_view(r@) == row_cells(row@),
{
    let v = chars_of(row);
    let cells = row_cells_chars(&v);
    strings_of(&cells)
}

// ---------------------------------------------------------------------------
// Notes

fn lower(c: char) -> (r: char)
    ensures
        r == ascii_lower(c),
{
    if 'A' <= c && c <= 'Z' {
        ((c as u8) + 32) as char
    } else {
        c
    }
}

fn br_len_exec(v: &Vec<char>, k: usize) -> (r: usize)
    requires
        k <= v.len(),
    ensures
        r as int == br_len_at(v@, k as int),
{
    let n = v.len();
    if n - k >= 4 && v[k] == '<' && lower(v[k + 1]) == 'b' && lower(v[k + 2]) == 'r' {
        if v[k + 3] == '>' {
            4
        } else if n - k >= 5 && v[k + 3] == '/' && v[k + 4] == '>' {
            5
        } else if n - k >= 6 && v[k + 3] == ' ' && v[k + 4] == '/' && v[k + 5] == '>' {
            6
        } else {
            0
        }
    } else {
        0
    }
}

/// The pieces of `v` between `<br>` tags.
pub fn split_br_chars(v: &Vec<char>) -> (r: Vec<Vec<char>>)
    ensures
        views(r@) == split_br(v@),
{
    let mut out: Vec<Vec<char>> = Vec::new();
    let mut start: usize = 0;
    assert(v@.skip(0) =~= v@);
    loop
        invariant
            start <= v.len(),
            views(out@) + split_br(v@.skip(start as int)) == split_br(v@),
        decreases v.len() - start,
    {
        let ghost s = v@.skip(start as int);
        let mut k = start;
        while k < v.len() && br_len_exec(v, k) == 0
            invariant
                start <= k <= v.len(),
                s == v@.skip(start as int),
                forall|j: int| 0 <= j < k - start ==> br_len_at(s, j) == 0,
            decreases v.len() - k,
        {
            proof {
                assert forall|m: int| #![auto] 0 <= m < s.len() implies s[m] == v@[start + m] by {}
                assert(br_len_at(s, k - start) == br_len_at(v@, k as int));
            }
            k = k + 1;
        }
        let len = if k < v.len() {
            br_len_exec(v, k)
        } else {
            0
        };
        proof {
            let p = |j: int| br_len_at(s, j) > 0;
            assert forall|j: int| 0 <= j < k - start implies !#[trigger] p(j) by {
                assert(br_len_at(s, j) == 0);
            }
            if k < v.len() {
                assert forall|m: int| #![auto] 0 <= m < s.len() implies s[m] == v@[start + m] by {}
                assert(br_len_at(s, k - start) == br_len_at(v@, k as int));
            }
            lemma_first_from_unique(s.len() as int, 0, p, (k - start) as int);
        }
        let piece = slice_of(v, start, k);
        let ghost old_out = views(out@);
        out.push(piece);
        assert(views(out@) =~= old_out.push(piece@));
        if k < v.len() {
            proof {
                assert forall|m: int| #![auto] 0 <= m < s.len() implies s[m] == v@[start + m] by {}
                assert(br_len_at(s, k - start) == br_len_at(v@, k as int));
                assert(s.take(k - start) =~= piece@);
                assert(s.skip(k - start + len) =~= v@.skip(k + len));
                assert(split_br(s) == seq![piece@] + split_br(v@.skip(k + len)));
                assert(old_out + split_br(s) =~= views(out@) + split_br(v@.skip(k + len)));
            }
            start = k + len;
        } else {
            proof {
                assert(s =~= piece@);
                assert(split_br(s) == seq![piece@]);
                assert(old_out + split_br(s) =~= views(out@));
            }
            return out;
        }
    }
}

/// Split a string on `<br>`, `<br/>`, `<br />` and any case variation.
pub fn split_on_br(s: &str) -> (r: Vec<String>)
    ensures
        strings_view(r@) == split_br(s@),
{
    let v = chars_of(s);
    let pieces = split_br_chars(&v);
    strings_of(&pieces)
}

fn notes_of_chars(v: &Vec<char>) -> (r: Vec<String>)
    ensures
        strings_view(r@) == notes_of(v@),
{
    let t = trimmed(v);
    let pieces = split_br_chars(&t);
    let mut out: Vec<String> = Vec::new();
    let mut i: usize = 0;
    assert(views(pieces@).skip(0) =~= views(pieces@));
    while i < pieces.len()
        invariant
            i <= pieces.len(),
            views(pieces@) == split_br(trim(v@)),
            strings_view(out@) + clean_notes(views(pieces@).skip(i as int)) == clean_notes(
                views(pieces@),
            ),
        decreases pieces.len() - i,
    {
        let ghost ps = views(pieces@).skip(i as int);
        let ghost old_out = strings_view(out@);
        let c = trimmed(&pieces[i]);
        proof {
            assert(ps[0] == pieces@[i as int]@);
            assert(ps.drop_first() =~= views(pieces@).skip(i + 1));
        }
        if c.len() > 0 {
            let s = string_from_chars(&c);
            out.push(s);
            assert(strings_view(out@) =~= old_out.push(c@));
            assert(old_out + clean_notes(ps) =~= strings_view(out@) + clean_notes(
                views(pieces@).skip(i + 1),
            ));
        } else {
            assert(old_out + clean_notes(ps) =~= strings_view(out@) + clean_notes(
                views(pieces@).skip(i + 1),
            ));
        }
        i = i + 1;
    }
    assert(views(pieces@).skip(i as int) =~= Seq::<Seq<char>>::empty());
    assert(strings_view(out@) + clean_notes(views(pieces@).skip(i as int)) =~= strings_view(out@));
    out
}

/// The notes a Notes cell holds: the trimmed, non-empty pieces between
/// `<br>` tags.
pub fn parse_notes(notes_str: &str) -> (r: Vec<String>)
    ensures
        strings_view(r@) == notes_of(notes_str@),
{
    let v = chars_of(notes_str);
    notes_of_chars(&v)
}

// ---------------------------------------------------------------------------
// Migration links

fn lit_close_open_chars() -> (r: Vec<char>)
    ensures
        r@ == lit_close_open(),
{
    let mut v: Vec<char> = Vec::new();
    v.push(']');
    v.push('(');
    assert(v@ =~= lit_close_open());
    v
}

fn lit_to_chars() -> (r: Vec<char>)
    ensures
        r@ == lit_to(),
{
    let mut v: Vec<char> = Vec::new();
    v.push('t');
    v.push('o');
    v.push(' ');
    assert(v@ =~= lit_to());
    v
}

fn lit_from_chars() -> (r: Vec<char>)
    ensures
        r@ == lit_from(),
{
    let mut v: Vec<char> = Vec::new();
    v.push('f');
    v.push('r');
    v.push('o');
    v.push('m');
    v.push(' ');
    assert(v@ =~= lit_from());
    v
}

fn is_backlog_word(v: &Vec<char>) -> (r: bool)
    ensures
        r == (v@ == lit_backlog()),
{
    let r = v.len() == 7 && v[0] == 'b' && v[1] == 'a' && v[2] == 'c' && v[3] == 'k' && v[4]
        == 'l' && v[5] == 'o' && v[6] == 'g';
    proof {
        if r {
            assert(v@ =~= lit_backlog());
        }
        if v@ == lit_backlog() {
            assert(v@[0] == 'b' && v@[1] == 'a' && v@[2] == 'c' && v@[3] == 'k');
            assert(v@[4] == 'l' && v@[5] == 'o' && v@[6] == 'g');
        }
    }
    r
}

/// The index of the last `/` in `v`, if any.
fn last_slash_exec(v: &Vec<char>) -> (r: Option<usize>)
    ensures
        match r {
            Some(p) => p < v.len() && last_slash(v@) == p as int,
            None => last_slash(v@) == -1,
        },
{
    let ghost s = v@;
    let ghost p = |j: int| s[s.len() - 1 - j] == '/';
    let n = v.len();
    let mut k = n;
    while k > 0 && v[k - 1] != '/'
        invariant
            k <= n == v.len(),
            s == v@,
            p == (|j: int| s[s.len() - 1 - j] == '/'),
            forall|j: int| 0 <= j < n - k ==> !#[trigger] p(j),
        decreases k,
    {
        assert(!p(n - k));
        k = k - 1;
    }
    proof {
        if k > 0 {
            assert(p(n - k));
        }
        lemma_first_from_unique(s.len() as int, 0, p, (n - k) as int);
    }
    if k == 0 {
        None
    } else {
        Some(k - 1)
    }
}

fn detail_with(prefix: &str, v: &Vec<char>) -> (r: String)
    ensures
        r@ == prefix@ + v@,
{
    let mut d = String::from_str(prefix);
    let tail = string_from_chars(v);
    d.append(tail.as_str());
    d
}

fn parse_to_ref_exec(reference: &Vec<char>, line: usize) -> (r: Result<MigrationRef, Error>)
    ensures
        match r {
            Ok(l) => crate::format::parse_to_ref(reference@, line as nat) == Ok::<Link, ErrorView>(l@),
            Err(e) => crate::format::parse_to_ref(reference@, line as nat) == Err::<Link, ErrorView>(e@),
        },
{
    match last_slash_exec(reference) {
        None => {
            let detail = detail_with("migration reference missing '/': ", reference);
            Err(Error::MalformedRow { line, detail })
        },
        Some(p) => {
            let target = slice_of(reference, 0, p);
            let id = string_of(reference, p + 1, reference.len());
            assert(reference@.take(p as int) =~= target@);
            assert(reference@.skip(p + 1) =~= id@);
            if is_backlog_word(&target) {
                Ok(MigrationRef::To { target_date: MigrationTarget::Backlog, target_id: id })
            } else {
                let ts = string_from_chars(&target);
                match parse_date(ts.as_str()) {
                    Some(d) => Ok(
                        MigrationRef::To { target_date: MigrationTarget::Date(d), target_id: id },
                    ),
                    None => Err(Error::InvalidDate { value: ts }),
                }
            }
        },
    }
}

fn parse_from_ref_exec(reference: &Vec<char>, line: usize) -> (r: Result<MigrationRef, Error>)
    ensures
        match r {
            Ok(l) => crate::format::parse_from_ref(reference@, line as nat) == Ok::<Link, ErrorView>(
                l@,
            ),
            Err(e) => crate::format::parse_from_ref(reference@, line as nat) == Err::<
                Link,
                ErrorView,
            >(e@),
        },
{
    match last_slash_exec(reference) {
        None => {
            let detail = detail_with("migration reference missing '/': ", reference);
            Err(Error::MalformedRow { line, detail })
        },
        Some(p) => {
            let source = slice_of(reference, 0, p);
            let id = string_of(reference, p + 1, reference.len());
            assert(reference@.take(p as int) =~= source@);
            assert(reference@.skip(p + 1) =~= id@);
            let ss = string_from_chars(&source);
            match parse_date(ss.as_str()) {
                Some(d) => Ok(MigrationRef::From { source_date: d, source_id: id }),
                None => Err(Error::InvalidDate { value: ss }),
            }
        },
    }
}

fn parse_link_exec(t: &Vec<char>, cell: &Vec<char>, line: usize) -> (r: Result<
    (MigrationRef, Vec<char>),
    Error,
>)
    ensures
        match r {
            Ok((l, rest)) => parse_link(t@, cell@, line as nat) == Ok::<
                (Link, Seq<char>),
                ErrorView,
            >((l@, rest@)),
            Err(e) => parse_link(t@, cell@, line as nat) == Err::<(Link, Seq<char>), ErrorView>(
                e@,
            ),
        },
{
    if t.len() == 0 || t[0] != '[' {
        return Err(Error::InvalidMigrationLink { value: string_from_chars(cell) });
    }
    let w = slice_of(t, 1, t.len());
    assert(w@ =~= t@.drop_first());
    let pat = lit_close_open_chars();
    let p = find_exec(&w, &pat);
    if p >= w.len() {
        return Err(Error::InvalidMigrationLink { value: string_from_chars(cell) });
    }
    proof {
        crate::text::lemma_find(w@, pat@);
    }
    let text = slice_of(&w, 0, p);
    assert(text@ =~= w@.take(p as int));
    // the closing parenthesis of the link target
    let ghost q = |k: int| w@[k] == ')';
    let mut e = p + 2;
    while e < w.len() && w[e] != ')'
        invariant
            p + 2 <= e <= w.len(),
            q == (|k: int| w@[k] == ')'),
            forall|k: int| p + 2 <= k < e ==> !#[trigger] q(k),
        decreases w.len() - e,
    {
        assert(!q(e as int));
        e = e + 1;
    }
    proof {
        if e < w.len() {
            assert(q(e as int));
        }
        lemma_first_from_unique(w@.len() as int, p + 2, q, e as int);
    }
    let rest = if e < w.len() {
        slice_of(&w, e + 1, w.len())
    } else {
        Vec::new()
    };
    assert(e < w.len() ==> rest@ =~= w@.skip(e + 1));
    assert(e >= w.len() ==> rest@ =~= Seq::<char>::empty());
    let to_pat = lit_to_chars();
    let from_pat = lit_from_chars();
    if starts_with_exec(&text, &to_pat) {
        let reference = slice_of(&text, 3, text.len());
        assert(reference@ =~= text@.skip(3));
        match parse_to_ref_exec(&reference, line) {
            Ok(l) => Ok((l, rest)),
            Err(err) => Err(err),
        }
    } else if starts_with_exec(&text, &from_pat) {
        let reference = slice_of(&text, 5, text.len());
        assert(reference@ =~= text@.skip(5));
        match parse_from_ref_exec(&reference, line) {
            Ok(l) => Ok((l, rest)),
            Err(err) => Err(err),
        }
    } else {
        Err(Error::InvalidMigrationLink { value: string_from_chars(cell) })
    }
}

fn pair_of(l: MigrationRef) -> (r: (Option<MigrationTo>, Option<MigrationFrom>))
    ensures
        (crate::model::opt_to_view(r.0), crate::model::opt_from_view(r.1)) == link_pair(l@),
{
    match l {
        MigrationRef::To { target_date, target_id } => (
            Some(MigrationTo { target_date, target_id }),
            None,
        ),
        MigrationRef::From { source_date, source_id } => (
            None,
            Some(MigrationFrom { source_date, source_id }),
        ),
    }
}

/// The migration references of a Migration cell.
pub fn parse_migration_cell(m: &Vec<char>, line: usize) -> (r: Result<
    (Option<MigrationTo>, Option<MigrationFrom>),
    Error,
>)
    ensures
        match r {
            Ok((to, from)) => parse_migration_spec(m@, line as nat) == Ok::<
                (Option<MigrationToView>, Option<MigrationFromView>),
                ErrorView,
            >((crate::model::opt_to_view(to), crate::model::opt_from_view(from))),
            Err(e) => parse_migration_spec(m@, line as nat) == Err::<
                (Option<MigrationToView>, Option<MigrationFromView>),
                ErrorView,
            >(e@),
        },
{
    let t = trimmed(m);
    if t.len() == 0 {
        return Ok((None, None));
    }
    let (l1, rest) = match parse_link_exec(&t, &t, line) {
        Ok(x) => x,
        Err(e) => return Err(e),
    };
    let r = trimmed(&rest);
    if r.len() == 0 {
        return Ok(pair_of(l1));
    }
    let (l2, rest2) = match parse_link_exec(&r, &t, line) {
        Ok(x) => x,
        Err(e) => return Err(e),
    };
    let r2 = trimmed(&rest2);
    if r2.len() != 0 {
        return Err(Error::InvalidMigrationLink { value: string_from_chars(&t) });
    }
    match (l1, l2) {
        (
            MigrationRef::From { source_date, source_id },
            MigrationRef::To { target_date, target_id },
        ) => Ok(
            (
                Some(MigrationTo { target_date, target_id }),
                Some(MigrationFrom { source_date, source_id }),
            ),
        ),
        (
            MigrationRef::To { target_date, target_id },
            MigrationRef::From { source_date, source_id },
        ) => Ok(
            (
                Some(MigrationTo { target_date, target_id }),
                Some(MigrationFrom { source_date, source_id }),
            ),
        ),
        _ => Err(Error::InvalidMigrationLink { value: string_from_chars(&t) }),
    }
}

/// Parse a single migration link from the Migration column.
///
/// Expected formats:
/// - `[to 2026-04-06/d8](./2026-04-06.md)`
/// - `[to backlog/a3](./backlog.md)`
/// - `[from 2026-04-05/c5](./2026-04-05.md)`
pub fn parse_migration(migration_str: &str, line_num: usize) -> (r: Result<
    Option<MigrationRef>,
    Error,
>)
    ensures
        match r {
            Ok(None) => crate::format::parse_single_link_spec(migration_str@, line_num as nat)
                == Ok::<Option<Link>, ErrorView>(None),
            Ok(Some(l)) => crate::format::parse_single_link_spec(migration_str@, line_num as nat)
                == Ok::<Option<Link>, ErrorView>(Some(l@)),
            Err(e) => crate::format::parse_single_link_spec(migration_str@, line_num as nat)
                == Err::<Option<Link>, ErrorView>(e@),
        },
{
    let v = chars_of(migration_str);
    let t = trimmed(&v);
    if t.len() == 0 {
        return Ok(None);
    }
    match parse_link_exec(&t, &t, line_num) {
        Ok((l, _rest)) => Ok(Some(l)),
        Err(e) => Err(e),
    }
}

// ---------------------------------------------------------------------------
// Rows

fn parse_row_exec(cols: &Vec<Vec<char>>, line: usize) -> (r: Result<Bullet, Error>)
    requires
        cols.len() == 5,
    ensures
        match r {
            Ok(b) => parse_row_spec(views(cols@), line as nat) == Ok::<BulletView, ErrorView>(b@),
            Err(e) => parse_row_spec(views(cols@), line as nat) == Err::<BulletView, ErrorView>(
                e@,
            ),
        },
{
    let ghost cs = views(cols@);
    assert(cs[0] == cols@[0]@ && cs[1] == cols@[1]@ && cs[2] == cols@[2]@);
    assert(cs[3] == cols@[3]@ && cs[4] == cols@[4]@);
    let st = trimmed(&cols[0]);
    assert(st@.subrange(0, st@.len() as int) =~= st@);
    let status = match BulletStatus::from_emoji_chars(&st, 0, st.len()) {
        Some(x) => x,
        None => return Err(Error::UnknownStatusEmoji { emoji: string_from_chars(&st) }),
    };
    let notes_text = unescape_chars(&cols[2]);
    let notes = notes_of_chars(&notes_text);
    let mig_text = unescape_chars(&cols[3]);
    let (migrated_to, migrated_from) = match parse_migration_cell(&mig_text, line) {
        Ok(x) => x,
        Err(e) => return Err(e),
    };
    let idv = trimmed(&cols[4]);
    if idv.len() == 0 {
        return Err(Error::MalformedRow { line, detail: String::from_str("empty ID column") });
    }
    let id = string_from_chars(&idv);
    match validate_id(id.as_str()) {
        Ok(()) => {},
        Err(_) => {
            return Err(Error::MalformedRow { line, detail: detail_with("invalid ID: ", &idv) });
        },
    }
    let text_chars = unescape_chars(&cols[1]);
    let text = string_from_chars(&text_chars);
    Ok(Bullet { id, status, text, notes, migrated_to, migrated_from })
}

// ---------------------------------------------------------------------------
// Lines

fn lit_dashes_chars() -> (r: Vec<char>)
    ensures
        r@ == lit_dashes(),
{
    let mut v: Vec<char> = Vec::new();
    v.push('-');
    v.push('-');
    v.push('-');
    assert(v@ =~= lit_dashes());
    v
}

fn lit_pipe_chars() -> (r: Vec<char>)
    ensures
        r@ == lit_pipe(),
{
    let mut v: Vec<char> = Vec::new();
    v.push('|');
    assert(v@ =~= lit_pipe());
    v
}

fn lit_comment_open_chars() -> (r: Vec<char>)
    ensures
        r@ == lit_comment_open(),
{
    let mut v: Vec<char> = Vec::new();
    v.push('<');
    v.push('!');
    v.push('-');
    v.push('-');
    assert(v@ =~= lit_comment_open());
    v
}

fn lit_comment_close_chars() -> (r: Vec<char>)
    ensures
        r@ == lit_comment_close(),
{
    let mut v: Vec<char> = Vec::new();
    v.push('-');
    v.push('-');
    v.push('>');
    assert(v@ =~= lit_comment_close());
    v
}

fn lit_heading_chars() -> (r: Vec<char>)
    ensures
        r@ == lit_heading(),
{
    let mut v: Vec<char> = Vec::new();
    v.push('#');
    v.push(' ');
    assert(v@ =~= lit_heading());
    v
}

/// The index of the first line after the leading HTML comment.
fn after_comment_exec(ls: &Vec<Vec<char>>, path: &str) -> (r: Result<usize, Error>)
    ensures
        match r {
            Ok(i) => after_comment(views(ls@), path@) == Ok::<int, ErrorView>(i as int) && i
                <= ls.len(),
            Err(e) => after_comment(views(ls@), path@) == Err::<int, ErrorView>(e@),
        },
{
    let ghost vs = views(ls@);
    let open = lit_comment_open_chars();
    let close = lit_comment_close_chars();
    if ls.len() > 0 {
        assert(vs[0] == ls@[0]@);
        let first = trimmed_start(&ls[0]);
        if starts_with_exec(&first, &open) {
            if contains_exec(&ls[0], &close) {
                return Ok(1);
            }
            let ghost p = |k: int| contains(vs[k], lit_comment_close());
            let mut j: usize = 1;
            while j < ls.len() && !contains_exec(&ls[j], &close)
                invariant
                    1 <= j <= ls.len(),
                    vs == views(ls@),
                    close@ == lit_comment_close(),
                    p == (|k: int| contains(vs[k], lit_comment_close())),
                    forall|k: int| 1 <= k < j ==> !#[trigger] p(k),
                decreases ls.len() - j,
            {
                assert(vs[j as int] == ls@[j as int]@);
                assert(!p(j as int));
                j = j + 1;
            }
            proof {
                if j < ls.len() {
                    assert(vs[j as int] == ls@[j as int]@);
                    assert(p(j as int));
                }
                lemma_first_from_unique(vs.len() as int, 1, p, j as int);
            }
            if j < ls.len() {
                return Ok(j + 1);
            }
            let mut d = String::from_str("unclosed HTML comment in ");
            d.append(path);
            d.append(": found '<!--' but no closing '-->'");
            return Err(Error::MalformedRow { line: 1, detail: d });
        }
    }
    Ok(0)
}

/// The index of the first line at or after `i` that is not blank.
fn skip_blank_exec(ls: &Vec<Vec<char>>, i: usize) -> (r: usize)
    requires
        i <= ls.len(),
    ensures
        r as int == skip_blank(views(ls@), i as int),
        i <= r <= ls.len(),
{
    let ghost vs = views(ls@);
    let ghost p = |k: int| trim(vs[k]).len() > 0;
    let mut j = i;
    while j < ls.len() && crate::text::is_blank(&ls[j])
        invariant
            i <= j <= ls.len(),
            vs == views(ls@),
            p == (|k: int| trim(vs[k]).len() > 0),
            forall|k: int| i <= k < j ==> !#[trigger] p(k),
        decreases ls.len() - j,
    {
        assert(vs[j as int] == ls@[j as int]@);
        assert(!p(j as int));
        j = j + 1;
    }
    proof {
        if j < ls.len() {
            assert(vs[j as int] == ls@[j as int]@);
            assert(p(j as int));
        }
        lemma_first_from_unique(vs.len() as int, i as int, p, j as int);
    }
    j
}

enum Heading {
    Date(Date),
    Backlog,
}

spec fn heading_view(h: Heading) -> HeadingView {
    match h {
        Heading::Date(d) => HeadingView::Date(d),
        Heading::Backlog => HeadingView::Backlog,
    }
}

fn is_backlog_ignore_case(v: &Vec<char>) -> (r: bool)
    ensures
        r == eq_ignore_ascii_case(v@, lit_backlog()),
{
    if v.len() != 7 {
        return false;
    }
    let r = lower(v[0]) == 'b' && lower(v[1]) == 'a' && lower(v[2]) == 'c' && lower(v[3]) == 'k'
        && lower(v[4]) == 'l' && lower(v[5]) == 'o' && lower(v[6]) == 'g';
    proof {
        let b = lit_backlog();
        assert(ascii_lower(b[0]) == 'b' && ascii_lower(b[1]) == 'a' && ascii_lower(b[2]) == 'c');
        assert(ascii_lower(b[3]) == 'k' && ascii_lower(b[4]) == 'l' && ascii_lower(b[5]) == 'o');
        assert(ascii_lower(b[6]) == 'g');
        if r {
            assert forall|k: int| 0 <= k < 7 implies ascii_lower(v@[k]) == ascii_lower(b[k]) by {
                if k == 0 {
                } else if k == 1 {
                } else if k == 2 {
                } else if k == 3 {
                } else if k == 4 {
                } else if k == 5 {
                } else {
                }
            }
        }
        if eq_ignore_ascii_case(v@, b) {
            assert(ascii_lower(v@[0]) == ascii_lower(b[0]));
            assert(ascii_lower(v@[1]) == ascii_lower(b[1]));
            assert(ascii_lower(v@[2]) == ascii_lower(b[2]));
            assert(ascii_lower(v@[3]) == ascii_lower(b[3]));
            assert(ascii_lower(v@[4]) == ascii_lower(b[4]));
            assert(ascii_lower(v@[5]) == ascii_lower(b[5]));
            assert(ascii_lower(v@[6]) == ascii_lower(b[6]));
        }
    }
    r
}

fn parse_heading_exec(ls: &Vec<Vec<char>>, i: usize, path: &str) -> (r: Result<Heading, Error>)
    ensures
        r matches Ok(Heading::Date(d)) ==> d.valid(),
        match r {
            Ok(h) => parse_heading_spec(views(ls@), i as int, path@) == Ok::<HeadingView, ErrorView>(
                heading_view(h),
            ),
            Err(e) => parse_heading_spec(views(ls@), i as int, path@) == Err::<
                HeadingView,
                ErrorView,
            >(e@),
        },
{
    let ghost vs = views(ls@);
    if i >= ls.len() {
        return Err(Error::MissingDateHeading { path: String::from_str(path) });
    }
    assert(vs[i as int] == ls@[i as int]@);
    let hash = lit_heading_chars();
    if !starts_with_exec(&ls[i], &hash) {
        return Err(Error::MissingDateHeading { path: String::from_str(path) });
    }
    let rest = slice_of(&ls[i], 2, ls[i].len());
    assert(rest@ =~= vs[i as int].skip(2));
    let t = trimmed(&rest);
    if is_backlog_ignore_case(&t) {
        return Ok(Heading::Backlog);
    }
    let ts = string_from_chars(&t);
    match parse_date(ts.as_str()) {
        Some(d) => Ok(Heading::Date(d)),
        None => Err(Error::InvalidDate { value: ts }),
    }
}

fn parse_rows_exec(ls: &Vec<Vec<char>>, j0: usize) -> (r: Result<Vec<Bullet>, Error>)
    requires
        j0 <= ls.len(),
    ensures
        match r {
            Ok(bs) => parse_rows_spec(views(ls@), j0 as int) == Ok::<Seq<BulletView>, ErrorView>(
                crate::model::bullets_view(bs@),
            ),
            Err(e) => parse_rows_spec(views(ls@), j0 as int) == Err::<Seq<BulletView>, ErrorView>(
                e@,
            ),
        },
{
    let ghost vs = views(ls@);
    let pipe = lit_pipe_chars();
    let mut out: Vec<Bullet> = Vec::new();
    let mut j = j0;
    loop
        invariant
            j0 <= j <= ls.len(),
            vs == views(ls@),
            pipe@ == lit_pipe(),
            match parse_rows_spec(vs, j as int) {
                Ok(bs) => parse_rows_spec(vs, j0 as int) == Ok::<Seq<BulletView>, ErrorView>(
                    crate::model::bullets_view(out@) + bs,
                ),
                Err(e) => parse_rows_spec(vs, j0 as int) == Err::<Seq<BulletView>, ErrorView>(e),
            },
        decreases ls.len() - j,
    {
        if j >= ls.len() {
            assert(crate::model::bullets_view(out@) + Seq::<BulletView>::empty()
                =~= crate::model::bullets_view(out@));
            return Ok(out);
        }
        assert(vs[j as int] == ls@[j as int]@);
        let t = trimmed(&ls[j]);
        if t.len() == 0 || !starts_with_exec(&t, &pipe) {
            assert(crate::model::bullets_view(out@) + Seq::<BulletView>::empty()
                =~= crate::model::bullets_view(out@));
            return Ok(out);
        }
        let cols = row_cells_chars(&t);
        if cols.len() != 5 {
            return Err(Error::MissingColumns { line: j + 1, expected: 5, found: cols.len() });
        }
        match parse_row_exec(&cols, j + 1) {
            Err(e) => {
                return Err(e);
            },
            Ok(b) => {
                let ghost old_out = crate::model::bullets_view(out@);
                let ghost bv = b@;
                out.push(b);
                proof {
                    assert(crate::model::bullets_view(out@) =~= old_out.push(bv));
                    match parse_rows_spec(vs, j + 1) {
                        Ok(bs) => {
                            assert(old_out + (seq![bv] + bs) =~= crate::model::bullets_view(out@)
                                + bs);
                        },
                        Err(e) => {},
                    }
                }
                j = j + 1;
            },
        }
    }
}

fn no_bullets() -> (r: Vec<Bullet>)
    ensures
        crate::model::bullets_view(r@) == Seq::<BulletView>::empty(),
{
    let r: Vec<Bullet> = Vec::new();
    assert(crate::model::bullets_view(r@) =~= Seq::<BulletView>::empty());
    r
}

fn parse_table_exec(ls: &Vec<Vec<char>>, i: usize) -> (r: Result<Vec<Bullet>, Error>)
    requires
        i <= ls.len(),
    ensures
        match r {
            Ok(bs) => parse_table_spec(views(ls@), i as int) == Ok::<Seq<BulletView>, ErrorView>(
                crate::model::bullets_view(bs@),
            ),
            Err(e) => parse_table_spec(views(ls@), i as int) == Err::<Seq<BulletView>, ErrorView>(
                e@,
            ),
        },
{
    let ghost vs = views(ls@);
    let pipe = lit_pipe_chars();
    if i >= ls.len() {
        return Ok(no_bullets());
    }
    assert(vs[i as int] == ls@[i as int]@);
    let head = trimmed_start(&ls[i]);
    if !starts_with_exec(&head, &pipe) {
        return Ok(no_bullets());
    }
    let cols = row_cells_chars(&ls[i]);
    if cols.len() != 5 {
        return Ok(no_bullets());
    }
    let dashes = lit_dashes_chars();
    let mut j = i + 1;
    if i + 1 < ls.len() {
        assert(vs[i + 1] == ls@[i + 1]@);
        let next = trimmed_start(&ls[i + 1]);
        if starts_with_exec(&next, &pipe) && contains_exec(&ls[i + 1], &dashes) {
            j = i + 2;
        }
    }
    parse_rows_exec(ls, j)
}

fn parse_lines(ls: &Vec<Vec<char>>, path: &str) -> (r: Result<ParsedFile, Error>)
    ensures
        r matches Ok(ParsedFile::DailyLog(log)) ==> log.date.valid(),
        match r {
            Ok(pf) => parse_lines_spec(views(ls@), path@) == Ok::<ParsedFileView, ErrorView>(pf@),
            Err(e) => parse_lines_spec(views(ls@), path@) == Err::<ParsedFileView, ErrorView>(e@),
        },
{
    let i = match after_comment_exec(ls, path) {
        Ok(i) => i,
        Err(e) => return Err(e),
    };
    let h = skip_blank_exec(ls, i);
    let heading = match parse_heading_exec(ls, h, path) {
        Ok(x) => x,
        Err(e) => return Err(e),
    };
    let t = skip_blank_exec(ls, h + 1);
    let bullets = match parse_table_exec(ls, t) {
        Ok(x) => x,
        Err(e) => return Err(e),
    };
    match heading {
        Heading::Date(date) => Ok(ParsedFile::DailyLog(DailyLog { date, bullets })),
        Heading::Backlog => Ok(ParsedFile::Backlog(BacklogLog { bullets })),
    }
}

/// Parse a bulletd markdown file from its string content.
///
/// The file format is:
/// 1. HTML comment header (skipped)
/// 2. H1 heading with date (`# YYYY-MM-DD`) or `# Backlog`
/// 3. GFM table with 5 columns: Status | Bullet | Notes | Migration | ID
pub fn parse_file(content: &str, file_path: &str) -> (r: Result<ParsedFile, Error>)
    ensures
        r matches Ok(ParsedFile::DailyLog(log)) ==> log.date.valid(),
        match r {
            Ok(pf) => parse_file_spec(content@, file_path@) == Ok::<ParsedFileView, ErrorView>(
                pf@,
            ),
            Err(e) => parse_file_spec(content@, file_path@) == Err::<ParsedFileView, ErrorView>(
                e@,
            ),
        },
{
    let v = chars_of(content);
    let ls = split_lines(&v);
    parse_lines(&ls, file_path)
}

/// The error `parse_daily_log` gives for a backlog file.
pub open spec fn not_daily_detail(path: Seq<char>) -> Seq<char> {
    "expected a daily log file but "@ + path + " has a Backlog heading"@
}

/// The error `parse_backlog` gives for a daily log file.
pub open spec fn not_backlog_detail(path: Seq<char>, date: Date) -> Seq<char> {
    "expected a backlog file but "@ + path + " has a date heading ("@ + crate::date::date_text(date)
        + ")"@
}

/// Parse a daily log file, returning an error if it's a backlog file.
pub fn parse_daily_log(content: &str, file_path: &str) -> (r: Result<DailyLog, Error>)
    ensures
        r matches Ok(log) ==> log.date.valid(),
        match (r, parse_file_spec(content@, file_path@)) {
            (Ok(log), Ok(ParsedFileView::DailyLog(v))) => log@ == v,
            (Err(e), Ok(ParsedFileView::Backlog(_))) => e@ == (ErrorView::MalformedRow {
                line: 0,
                detail: not_daily_detail(file_path@),
            }),
            (Err(e), Err(e2)) => e@ == e2,
            _ => false,
        },
{
    match parse_file(content, file_path) {
        Err(e) => Err(e),
        Ok(ParsedFile::DailyLog(log)) => Ok(log),
        Ok(ParsedFile::Backlog(_)) => {
            let mut d = String::from_str("expected a daily log file but ");
            d.append(file_path);
            d.append(" has a Backlog heading");
            Err(Error::MalformedRow { line: 0, detail: d })
        },
    }
}

/// Parse a backlog file, returning an error if it's a daily log file.
pub fn parse_backlog(content: &str, file_path: &str) -> (r: Result<BacklogLog, Error>)
    ensures
        match (r, parse_file_spec(content@, file_path@)) {
            (Ok(b), Ok(ParsedFileView::Backlog(v))) => b@ == v,
            (Err(e), Ok(ParsedFileView::DailyLog(v))) => e@ == (ErrorView::MalformedRow {
                line: 0,
                detail: not_backlog_detail(file_path@, v.date),
            }),
            (Err(e), Err(e2)) => e@ == e2,
            _ => false,
        },
{
    match parse_file(content, file_path) {
        Err(e) => Err(e),
        Ok(ParsedFile::Backlog(b)) => Ok(b),
        Ok(ParsedFile::DailyLog(log)) => {
            let mut d = String::from_str("expected a backlog file but ");
            d.append(file_path);
            d.append(" has a date heading (");
            let ds = crate::date::format_date(log.date);
            d.append(ds.as_str());
            d.append(")");
            Err(Error::MalformedRow { line: 0, detail: d })
        },
    }
}

} // verus!
