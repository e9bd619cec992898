use vstd::prelude::*;
use vstd::string::{StrSliceExecFns, StringSliceAdditionalSpecFns};
use vstd::utf8::encode_utf8;
use crate::json::{jbool, jget, jget_str, json_u64, opt_json_view, JsonValue, JsonView};
use crate::json_text::{compact_text, value_text, value_to_opt_string};
use crate::text::{decimal, str_eq};
use crate::text::{chars_of, concat2, concat3, copy_str, is_whitespace, push_char, spec_is_whitespace};

verus! {

/// The length of a text in UTF-8 bytes (`str::len`).
pub open spec fn byte_len(s: Seq<char>) -> nat {
    encode_utf8(s).len()
}

/// The text padded with spaces to `width` characters (`{:<width$}`).
pub open spec fn pad(s: Seq<char>, width: nat) -> Seq<char> {
    if s.len() >= width {
        s
    } else {
        s + Seq::new((width - s.len()) as nat, |i: int| ' ')
    }
}

/// The first `n` characters, or all when there are fewer.
pub open spec fn first_chars(s: Seq<char>, n: nat) -> Seq<char> {
    if n >= s.len() {
        s
    } else {
        s.take(n as int)
    }
}

/// A cell cut to `max` bytes' worth of room: as it is when it fits, else its
/// first `max` characters (for three or fewer), else its first `max - 3`
/// characters and `...`.
pub open spec fn truncated(s: Seq<char>, max: nat) -> Seq<char> {
    if byte_len(s) <= max {
        s
    } else if max <= 3 {
        first_chars(s, max)
    } else {
        first_chars(s, (max - 3) as nat) + "..."@
    }
}

/// The words of a text: its runs of characters other than whitespace
/// (`split_whitespace`), `cur` being the start of the first.
pub open spec fn words_from(s: Seq<char>, cur: Seq<char>) -> Seq<Seq<char>>
    decreases s.len(),
{
    if s.len() == 0 {
        if cur.len() > 0 {
            seq![cur]
        } else {
            Seq::empty()
        }
    } else if spec_is_whitespace(s[0]) {
        (if cur.len() > 0 {
            seq![cur]
        } else {
            Seq::empty()
        }) + words_from(s.drop_first(), Seq::empty())
    } else {
        words_from(s.drop_first(), cur.push(s[0]))
    }
}

/// Texts joined with a separator.
pub open spec fn join_with(ts: Seq<Seq<char>>, sep: Seq<char>) -> Seq<char>
    decreases ts.len(),
{
    if ts.len() == 0 {
        Seq::empty()
    } else if ts.len() == 1 {
        ts[0]
    } else {
        join_with(ts.drop_last(), sep) + sep + ts.last()
    }
}

/// A text on one line: its words joined with single spaces.
pub open spec fn single_line(s: Seq<char>) -> Seq<char> {
    join_with(words_from(s, Seq::empty()), " "@)
}

pub fn join_texts(ts: &Vec<String>, sep: &str) -> (r: String)
    ensures
        r@ == join_with(crate::server::state::strs(ts@), sep@),
{
    let mut out = String::new();
    let mut i: usize = 0;
    while i < ts.len()
        invariant
            i <= ts@.len(),
            out@ == join_with(crate::server::state::strs(ts@).take(i as int), sep@),
        decreases ts@.len() - i,
    {
        let ghost a = crate::server::state::strs(ts@).take(i + 1);
        assert(a.drop_last() =~= crate::server::state::strs(ts@).take(i as int));
        assert(a.last() == ts@[i as int]@);
        if i == 0 {
            out = copy_str(ts[i].as_str());
            assert(a.len() == 1);
        } else {
            out = concat3(out.as_str(), sep, ts[i].as_str());
        }
        i = i + 1;
    }
    assert(crate::server::state::strs(ts@).take(ts@.len() as int) =~= crate::server::state::strs(ts@));
    out
}

fn single_line_exec(s: &str) -> (r: String)
    ensures
        r@ == single_line(s@),
{
    let v = chars_of(s);
    let mut words: Vec<String> = Vec::new();
    let mut cur = String::new();
    let mut i: usize = 0;
    assert(v@.subrange(0, v@.len() as int) =~= v@);
    while i < v.len()
        invariant
            i <= v@.len(),
            v@ == s@,
            crate::server::state::strs(words@) + words_from(v@.subrange(i as int, v@.len() as int), cur@)
                == words_from(s@, Seq::empty()),
        decreases v@.len() - i,
    {
        let ghost t = v@.subrange(i as int, v@.len() as int);
        assert(t[0] == v@[i as int]);
        assert(t.drop_first() =~= v@.subrange(i + 1, v@.len() as int));
        let c = v[i];
        if is_whitespace(c) {
            if cur.as_str().unicode_len() > 0 {
                let ghost before = crate::server::state::strs(words@);
                let ghost cv = cur@;
                words.push(cur);
                assert(crate::server::state::strs(words@) =~= before.push(cv));
                assert(before.push(cv) + words_from(t.drop_first(), Seq::empty()) =~= before + (seq![cv]
                    + words_from(t.drop_first(), Seq::empty())));
            } else {
                assert(Seq::<Seq<char>>::empty() + words_from(t.drop_first(), Seq::empty()) =~= words_from(
                    t.drop_first(),
                    Seq::empty(),
                ));
            }
            cur = String::new();
        } else {
            push_char(&mut cur, c);
        }
        i = i + 1;
    }
    let ghost t = v@.subrange(i as int, v@.len() as int);
    assert(t.len() == 0);
    if cur.as_str().unicode_len() > 0 {
        let ghost before = crate::server::state::strs(words@);
        let ghost cv = cur@;
        words.push(cur);
        assert(crate::server::state::strs(words@) =~= before.push(cv));
        assert(before + seq![cv] =~= before.push(cv));
    } else {
        assert(crate::server::state::strs(words@) + Seq::<Seq<char>>::empty() =~= crate::server::state::strs(words@));
    }
    join_texts(&words, " ")
}

fn byte_len_exec(s: &str) -> (r: usize)
    ensures
        r as nat == byte_len(s@),
{
    let b = s.as_bytes_vec();
    b.len()
}

fn pad_exec(s: &str, width: usize) -> (r: String)
    ensures
        r@ == pad(s@, width as nat),
{
    let mut out = copy_str(s);
    let n = s.unicode_len();
    if n >= width {
        return out;
    }
    let mut k: usize = n;
    while k < width
        invariant
            n <= k <= width,
            n == s@.len(),
            out@ == s@ + Seq::new((k - n) as nat, |i: int| ' '),
        decreases width - k,
    {
        push_char(&mut out, ' ');
        assert(s@ + Seq::new((k + 1 - n) as nat, |i: int| ' ') =~= (s@ + Seq::new((k - n) as nat, |i: int| ' ')).push(' '));
        k = k + 1;
    }
    out
}

fn first_chars_exec(v: &Vec<char>, n: usize) -> (r: String)
    ensures
        r@ == first_chars(v@, n as nat),
{
    if n >= v.len() {
        crate::text::string_from_chars(v)
    } else {
        crate::text::string_from_range(v, 0, n)
    }
}

fn truncate_exec(s: &str, max: usize) -> (r: String)
    ensures
        r@ == truncated(s@, max as nat),
{
    if byte_len_exec(s) <= max {
        return copy_str(s);
    }
    let v = chars_of(s);
    if max <= 3 {
        first_chars_exec(&v, max)
    } else {
        let head = first_chars_exec(&v, max - 3);
        concat2(head.as_str(), "...")
    }
}

/// The rows of a key-value listing that have a value that is not empty, each
/// key padded to the longest such key, two spaces, then the value.
pub open spec fn kept_rows(rows: Seq<(Seq<char>, Option<Seq<char>>)>) -> Seq<(Seq<char>, Seq<char>)>
    decreases rows.len(),
{
    if rows.len() == 0 {
        Seq::empty()
    } else {
        let r = kept_rows(rows.drop_last());
        match rows.last().1 {
            Some(v) if v.len() > 0 => r.push((rows.last().0, v)),
            _ => r,
        }
    }
}

pub open spec fn max_key_len(rows: Seq<(Seq<char>, Seq<char>)>) -> nat
    decreases rows.len(),
{
    if rows.len() == 0 {
        0
    } else {
        let m = max_key_len(rows.drop_last());
        if byte_len(rows.last().0) > m {
            byte_len(rows.last().0)
        } else {
            m
        }
    }
}

pub open spec fn key_value_lines(rows: Seq<(Seq<char>, Option<Seq<char>>)>) -> Seq<Seq<char>> {
    let kept = kept_rows(rows);
    let w = max_key_len(kept);
    kept.map_values(|r: (Seq<char>, Seq<char>)| pad(r.0, w) + "  "@ + r.1)
}

pub open spec fn row_views(rows: Seq<(&str, Option<String>)>) -> Seq<(Seq<char>, Option<Seq<char>>)> {
    rows.map_values(|r: (&str, Option<String>)| (r.0@, crate::paths::opt_view(r.1)))
}

/// The lines of a key-value listing.
pub fn key_values(rows: &Vec<(&str, Option<String>)>) -> (r: Vec<String>)
    ensures
        crate::server::state::strs(r@) == key_value_lines(row_views(rows@)),
{
    let ghost rv = row_views(rows@);
    let mut kept: Vec<(&str, &str)> = Vec::new();
    let mut width: usize = 0;
    let mut i: usize = 0;
    while i < rows.len()
        invariant
            i <= rows@.len(),
            rv == row_views(rows@),
            kept@.map_values(|p: (&str, &str)| (p.0@, p.1@)) == kept_rows(rv.take(i as int)),
            width as nat == max_key_len(kept_rows(rv.take(i as int))),
        decreases rows@.len() - i,
    {
        let ghost a = rv.take(i + 1);
        assert(a.drop_last() =~= rv.take(i as int));
        assert(a.last() == (rows@[i as int].0@, crate::paths::opt_view(rows@[i as int].1)));
        let key = rows[i].0;
        match &rows[i].1 {
            Some(v) => {
                if v.as_str().unicode_len() > 0 {
                    let ghost before = kept@;
                    kept.push((key, v.as_str()));
                    assert(kept@.map_values(|p: (&str, &str)| (p.0@, p.1@)) =~= before.map_values(
                        |p: (&str, &str)| (p.0@, p.1@),
                    ).push((key@, v@)));
                    let kl = byte_len_exec(key);
                    let ghost pk = kept_rows(rv.take(i as int));
                    assert(kept_rows(a) == pk.push((key@, v@)));
                    assert(pk.push((key@, v@)).drop_last() =~= pk);
                    if kl > width {
                        width = kl;
                    }
                    assert(max_key_len(pk.push((key@, v@))) == width);
                }
            },
            None => {},
        }
        assert(width as nat == max_key_len(kept_rows(a)));
        i = i + 1;
    }
    assert(rv.take(rows@.len() as int) =~= rv);
    let ghost kv = kept_rows(rv);
    let mut out: Vec<String> = Vec::new();
    let mut j: usize = 0;
    while j < kept.len()
        invariant
            j <= kept@.len(),
            kept@.map_values(|p: (&str, &str)| (p.0@, p.1@)) == kv,
            width as nat == max_key_len(kv),
            crate::server::state::strs(out@) == kv.take(j as int).map_values(
                |r: (Seq<char>, Seq<char>)| pad(r.0, max_key_len(kv)) + "  "@ + r.1,
            ),
        decreases kept@.len() - j,
    {
        let k = pad_exec(kept[j].0, width);
        let line = concat3(k.as_str(), "  ", kept[j].1);
        let ghost before = crate::server::state::strs(out@);
        out.push(line);
        assert(kv[j as int] == (kept@[j as int].0@, kept@[j as int].1@));
        assert(crate::server::state::strs(out@) =~= before.push(line@));
        assert(kv.take(j + 1).map_values(|r: (Seq<char>, Seq<char>)| pad(r.0, max_key_len(kv)) + "  "@ + r.1) =~= kv.take(
            j as int,
        ).map_values(|r: (Seq<char>, Seq<char>)| pad(r.0, max_key_len(kv)) + "  "@ + r.1).push(line@));
        j = j + 1;
    }
    assert(kv.take(kept@.len() as int) =~= kv);
    out
}

pub open spec fn cell_len(row: Seq<Seq<char>>, i: int) -> nat {
    if 0 <= i < row.len() {
        byte_len(row[i])
    } else {
        0
    }
}

pub open spec fn max_cell(rows: Seq<Seq<Seq<char>>>, i: int) -> nat
    decreases rows.len(),
{
    if rows.len() == 0 {
        0
    } else {
        let m = max_cell(rows.drop_last(), i);
        if cell_len(rows.last(), i) > m {
            cell_len(rows.last(), i)
        } else {
            m
        }
    }
}

/// A column is as wide as its title or its widest cell, in bytes, but no
/// wider than 80.
pub open spec fn column_width(column: Seq<char>, rows: Seq<Seq<Seq<char>>>, i: int) -> nat {
    let m = if byte_len(column) > max_cell(rows, i) {
        byte_len(column)
    } else {
        max_cell(rows, i)
    };
    if m > 80 {
        80
    } else {
        m
    }
}

pub open spec fn normalized_rows(rows: Seq<Seq<Seq<char>>>) -> Seq<Seq<Seq<char>>> {
    rows.map_values(|r: Seq<Seq<char>>| r.map_values(|c: Seq<char>| single_line(c)))
}

pub open spec fn dashes(n: nat) -> Seq<char> {
    Seq::new(n, |i: int| '-')
}

pub open spec fn table_widths(columns: Seq<Seq<char>>, rows: Seq<Seq<Seq<char>>>) -> Seq<nat> {
    Seq::new(columns.len(), |i: int| column_width(columns[i], normalized_rows(rows), i))
}

pub open spec fn table_row_line(row: Seq<Seq<char>>, widths: Seq<nat>) -> Seq<char> {
    join_with(Seq::new(row.len(), |i: int| pad(truncated(row[i], widths[i]), widths[i])), "  "@)
}

/// A table: nothing when it has no rows; else the titles, a line of dashes
/// under each, and the rows, each cell on one line, cut and padded to its
/// column's width, columns two spaces apart.
pub open spec fn table_lines(columns: Seq<Seq<char>>, rows: Seq<Seq<Seq<char>>>) -> Seq<Seq<char>> {
    if rows.len() == 0 {
        Seq::empty()
    } else {
        let w = table_widths(columns, rows);
        seq![
            join_with(Seq::new(columns.len(), |i: int| pad(columns[i], w[i])), "  "@),
            join_with(Seq::new(columns.len(), |i: int| dashes(w[i])), "  "@),
        ] + normalized_rows(rows).map_values(|r: Seq<Seq<char>>| table_row_line(r, w))
    }
}

pub open spec fn rows_view(rows: Seq<Vec<String>>) -> Seq<Seq<Seq<char>>> {
    rows.map_values(|r: Vec<String>| crate::server::state::strs(r@))
}

fn dashes_exec(n: usize) -> (r: String)
    ensures
        r@ == dashes(n as nat),
{
    let mut out = String::new();
    let mut k: usize = 0;
    while k < n
        invariant
            k <= n,
            out@ == dashes(k as nat),
        decreases n - k,
    {
        push_char(&mut out, '-');
        assert(dashes((k + 1) as nat) =~= dashes(k as nat).push('-'));
        k = k + 1;
    }
    out
}

fn normalize_rows(rows: &Vec<Vec<String>>) -> (r: Vec<Vec<String>>)
    ensures
        rows_view(r@) == normalized_rows(rows_view(rows@)),
        r@.len() == rows@.len(),
        forall|k: int| 0 <= k < r@.len() ==> (#[trigger] r@[k])@.len() == rows@[k]@.len(),
{
    let mut out: Vec<Vec<String>> = Vec::new();
    let mut k: usize = 0;
    while k < rows.len()
        invariant
            k <= rows@.len(),
            out@.len() == k,
            forall|j: int| 0 <= j < k ==> (#[trigger] out@[j])@.len() == rows@[j]@.len(),
            rows_view(out@) == normalized_rows(rows_view(rows@)).take(k as int),
        decreases rows@.len() - k,
    {
        let row = &rows[k];
        let mut cells: Vec<String> = Vec::new();
        let mut c: usize = 0;
        while c < row.len()
            invariant
                c <= row@.len(),
                crate::server::state::strs(cells@) == crate::server::state::strs(row@).take(c as int).map_values(
                    |x: Seq<char>| single_line(x),
                ),
            decreases row@.len() - c,
        {
            let x = single_line_exec(row[c].as_str());
            let ghost before = cells@;
            cells.push(x);
            assert(crate::server::state::strs(cells@) =~= crate::server::state::strs(before).push(x@));
            assert(crate::server::state::strs(row@).take(c + 1).map_values(|x: Seq<char>| single_line(x)) =~= crate::server::state::strs(
                row@,
            ).take(c as int).map_values(|x: Seq<char>| single_line(x)).push(single_line(row@[c as int]@)));
            c = c + 1;
        }
        assert(crate::server::state::strs(row@).take(row@.len() as int) =~= crate::server::state::strs(row@));
        let ghost before = out@;
        out.push(cells);
        assert(rows_view(out@) =~= rows_view(before).push(crate::server::state::strs(out@[k as int]@)));
        assert(normalized_rows(rows_view(rows@)).take(k + 1) =~= normalized_rows(rows_view(rows@)).take(k as int).push(
            normalized_rows(rows_view(rows@))[k as int],
        ));
        k = k + 1;
    }
    assert(normalized_rows(rows_view(rows@)).take(rows@.len() as int) =~= normalized_rows(rows_view(rows@)));
    out
}

/// The lines of a table.
pub fn table(columns: &Vec<&str>, rows: &Vec<Vec<String>>) -> (r: Vec<String>)
    requires
        forall|k: int| 0 <= k < rows@.len() ==> (#[trigger] rows@[k])@.len() <= columns@.len(),
    ensures
        crate::server::state::strs(r@) == table_lines(columns@.map_values(|c: &str| c@), rows_view(rows@)),
{
    let ghost cv = columns@.map_values(|c: &str| c@);
    if rows.len() == 0 {
        let out: Vec<String> = Vec::new();
        assert(crate::server::state::strs(out@) =~= Seq::<Seq<char>>::empty());
        return out;
    }
    let norm = normalize_rows(rows);
    let ghost nv = rows_view(norm@);
    let mut widths: Vec<usize> = Vec::new();
    let mut i: usize = 0;
    while i < columns.len()
        invariant
            i <= columns@.len(),
            cv == columns@.map_values(|c: &str| c@),
            nv == rows_view(norm@),
            nv == normalized_rows(rows_view(rows@)),
            widths@.len() == i,
            forall|j: int| 0 <= j < i ==> (#[trigger] widths@[j]) as nat == column_width(cv[j], nv, j),
        decreases columns@.len() - i,
    {
        let mut m: usize = byte_len_exec(columns[i]);
        let mut best: usize = 0;
        let mut k: usize = 0;
        while k < norm.len()
            invariant
                k <= norm@.len(),
                nv == rows_view(norm@),
                best as nat == max_cell(nv.take(k as int), i as int),
            decreases norm@.len() - k,
        {
            let row = &norm[k];
            let l: usize = if i < row.len() {
                byte_len_exec(row[i].as_str())
            } else {
                0
            };
            assert(nv.take(k + 1).drop_last() =~= nv.take(k as int));
            assert(nv.take(k + 1).last() == crate::server::state::strs(row@));
            if l > best {
                best = l;
            }
            k = k + 1;
        }
        assert(nv.take(norm@.len() as int) =~= nv);
        if best > m {
            m = best;
        }
        if m > 80 {
            m = 80;
        }
        widths.push(m);
        i = i + 1;
    }
    let ghost wv = table_widths(cv, rows_view(rows@));
    assert forall|j: int| 0 <= j < columns@.len() implies widths@[j] as nat == wv[j] by {}
    let mut header: Vec<String> = Vec::new();
    let mut rule: Vec<String> = Vec::new();
    let mut c: usize = 0;
    while c < columns.len()
        invariant
            c <= columns@.len(),
            widths@.len() == columns@.len(),
            cv == columns@.map_values(|c: &str| c@),
            forall|j: int| 0 <= j < columns@.len() ==> (#[trigger] widths@[j]) as nat == wv[j],
            crate::server::state::strs(header@) == Seq::new(c as nat, |j: int| pad(cv[j], wv[j])),
            crate::server::state::strs(rule@) == Seq::new(c as nat, |j: int| dashes(wv[j])),
        decreases columns@.len() - c,
    {
        let h = pad_exec(columns[c], widths[c]);
        let d = dashes_exec(widths[c]);
        let ghost hb = header@;
        let ghost rb = rule@;
        header.push(h);
        rule.push(d);
        assert(cv[c as int] == columns@[c as int]@);
        assert(widths@[c as int] as nat == wv[c as int]);
        assert(crate::server::state::strs(header@) =~= crate::server::state::strs(hb).push(h@));
        assert(crate::server::state::strs(rule@) =~= crate::server::state::strs(rb).push(d@));
        assert(crate::server::state::strs(header@) =~= Seq::new((c + 1) as nat, |j: int| pad(cv[j], wv[j])));
        assert(crate::server::state::strs(rule@) =~= Seq::new((c + 1) as nat, |j: int| dashes(wv[j])));
        c = c + 1;
    }
    let mut out: Vec<String> = Vec::new();
    out.push(join_texts(&header, "  "));
    out.push(join_texts(&rule, "  "));
    let mut k: usize = 0;
    while k < norm.len()
        invariant
            k <= norm@.len(),
            norm@.len() == rows@.len(),
            forall|j: int| 0 <= j < norm@.len() ==> (#[trigger] norm@[j])@.len() == rows@[j]@.len(),
            forall|j: int| 0 <= j < rows@.len() ==> (#[trigger] rows@[j])@.len() <= columns@.len(),
            widths@.len() == columns@.len(),
            forall|j: int| 0 <= j < columns@.len() ==> (#[trigger] widths@[j]) as nat == wv[j],
            nv == rows_view(norm@),
            out@.len() == k + 2,
            crate::server::state::strs(out@).skip(2) == nv.take(k as int).map_values(|r: Seq<Seq<char>>| table_row_line(r, wv)),
            crate::server::state::strs(out@).take(2) == seq![
                join_with(Seq::new(columns@.len(), |j: int| pad(cv[j], wv[j])), "  "@),
                join_with(Seq::new(columns@.len(), |j: int| dashes(wv[j])), "  "@),
            ],
        decreases norm@.len() - k,
    {
        let row = &norm[k];
        let mut cells: Vec<String> = Vec::new();
        let mut c: usize = 0;
        while c < row.len()
            invariant
                c <= row@.len(),
                row@.len() <= columns@.len(),
                widths@.len() == columns@.len(),
                forall|j: int| 0 <= j < columns@.len() ==> (#[trigger] widths@[j]) as nat == wv[j],
                crate::server::state::strs(cells@) == Seq::new(
                    c as nat,
                    |j: int| pad(truncated(row@[j]@, wv[j]), wv[j]),
                ),
            decreases row@.len() - c,
        {
            let t = truncate_exec(row[c].as_str(), widths[c]);
            let p = pad_exec(t.as_str(), widths[c]);
            let ghost before = cells@;
            cells.push(p);
            assert(widths@[c as int] as nat == wv[c as int]);
            assert(crate::server::state::strs(cells@) =~= crate::server::state::strs(before).push(p@));
            assert(crate::server::state::strs(cells@) =~= Seq::new(
                (c + 1) as nat,
                |j: int| pad(truncated(row@[j]@, wv[j]), wv[j]),
            ));
            c = c + 1;
        }
        let line = join_texts(&cells, "  ");
        assert(crate::server::state::strs(cells@) =~= Seq::new(
            crate::server::state::strs(row@).len(),
            |j: int| pad(truncated(crate::server::state::strs(row@)[j], wv[j]), wv[j]),
        ));
        let ghost before = out@;
        out.push(line);
        assert(crate::server::state::strs(out@).skip(2) =~= crate::server::state::strs(before).skip(2).push(line@));
        assert(crate::server::state::strs(out@).take(2) =~= crate::server::state::strs(before).take(2));
        assert(nv.take(k + 1) =~= nv.take(k as int).push(crate::server::state::strs(row@)));
        assert(nv.take(k + 1).map_values(|r: Seq<Seq<char>>| table_row_line(r, wv)) =~= nv.take(k as int).map_values(
            |r: Seq<Seq<char>>| table_row_line(r, wv),
        ).push(table_row_line(crate::server::state::strs(row@), wv)));
        k = k + 1;
    }
    assert(nv.take(norm@.len() as int) =~= nv);
    assert(crate::server::state::strs(out@) =~= crate::server::state::strs(out@).take(2) + crate::server::state::strs(out@).skip(2));
    out
}

/// A value shown in milliseconds.
pub open spec fn format_ms(v: Option<JsonView>) -> Option<Seq<char>> {
    match value_text(v) {
        Some(t) => Some(t + " ms"@),
        None => None,
    }
}

pub open spec fn yes_no(b: bool) -> Seq<char> {
    if b {
        "yes"@
    } else {
        "no"@
    }
}

pub open spec fn format_bool(v: Option<bool>) -> Option<Seq<char>> {
    match v {
        Some(b) => Some(yes_no(b)),
        None => None,
    }
}

/// A value shown briefly: nothing for null, a string as it is, any other value
/// as JSON.
pub open spec fn stringify_brief(v: Option<JsonView>) -> Seq<char> {
    match v {
        None => Seq::empty(),
        Some(JsonView::Null) => Seq::empty(),
        Some(JsonView::Str(t)) => t,
        Some(other) => compact_text(other),
    }
}

pub open spec fn or_question(t: Option<Seq<char>>) -> Seq<char> {
    match t {
        Some(v) => v,
        None => "?"@,
    }
}

/// Parameters shown as `name:type`, separated by `, `.
pub open spec fn format_parameters(v: Option<JsonView>) -> Seq<char> {
    let items = match crate::json::jarray(v) {
        Some(a) => a,
        None => Seq::empty(),
    };
    join_with(
        items.map_values(|p: JsonView| or_question(jget_str(p, "name"@)) + ":"@ + or_question(jget_str(p, "type"@))),
        ", "@,
    )
}

pub open spec fn or_empty(t: Option<Seq<char>>) -> Seq<char> {
    match t {
        Some(v) => v,
        None => Seq::empty(),
    }
}

pub open spec fn or_else(a: Option<Seq<char>>, b: Option<Seq<char>>) -> Option<Seq<char>> {
    match a {
        Some(v) => Some(v),
        None => b,
    }
}

/// A member, or null.
pub open spec fn member_or_null(v: JsonView, key: Seq<char>) -> JsonView {
    match jget(v, key) {
        Some(x) => x,
        None => JsonView::Null,
    }
}

/// A count member as a whole number, or 0.
pub open spec fn count_of(v: JsonView) -> nat {
    match json_u64(jget(v, "count"@)) {
        Some(n) => n as nat,
        None => 0,
    }
}

fn text_of(v: &JsonValue, key: &str) -> (r: Option<String>)
    ensures
        crate::paths::opt_view(r) == jget_str(v@, key@),
{
    match v.get_str(key) {
        Some(t) => Some(copy_str(t)),
        None => None,
    }
}

fn format_ms_exec(v: Option<&JsonValue>) -> (r: Option<String>)
    ensures
        crate::paths::opt_view(r) == format_ms(opt_json_view(v)),
{
    match value_to_opt_string(v) {
        Some(t) => Some(concat2(t.as_str(), " ms")),
        None => None,
    }
}

fn yes_no_exec(b: bool) -> (r: String)
    ensures
        r@ == yes_no(b),
{
    if b {
        copy_str("yes")
    } else {
        copy_str("no")
    }
}

fn format_bool_exec(v: Option<bool>) -> (r: Option<String>)
    ensures
        crate::paths::opt_view(r) == format_bool(v),
{
    match v {
        Some(b) => Some(yes_no_exec(b)),
        None => None,
    }
}

fn stringify_brief_exec(v: Option<&JsonValue>) -> (r: String)
    ensures
        r@ == stringify_brief(opt_json_view(v)),
{
    match v {
        None => String::new(),
        Some(JsonValue::Null) => String::new(),
        Some(JsonValue::String(t)) => copy_str(t.as_str()),
        Some(other) => other.to_compact_text(),
    }
}

fn or_question_exec(t: Option<String>) -> (r: String)
    ensures
        r@ == or_question(crate::paths::opt_view(t)),
{
    match t {
        Some(v) => v,
        None => copy_str("?"),
    }
}

fn format_parameters_exec(v: Option<&JsonValue>) -> (r: String)
    ensures
        r@ == format_parameters(opt_json_view(v)),
{
    let empty: Vec<JsonValue> = Vec::new();
    let items = match v {
        Some(JsonValue::Array(items)) => items,
        _ => &empty,
    };
    let ghost iv = crate::json::json_views(items@);
    proof {
        crate::json::lemma_json_views_len(items@);
    }
    assert(iv == match crate::json::jarray(opt_json_view(v)) {
        Some(a) => a,
        None => Seq::<JsonView>::empty(),
    });
    let mut parts: Vec<String> = Vec::new();
    let mut i: usize = 0;
    while i < items.len()
        invariant
            i <= items@.len(),
            iv == crate::json::json_views(items@),
            iv.len() == items@.len(),
            crate::server::state::strs(parts@) == iv.take(i as int).map_values(
                |p: JsonView| or_question(jget_str(p, "name"@)) + ":"@ + or_question(jget_str(p, "type"@)),
            ),
        decreases items@.len() - i,
    {
        proof {
            crate::json::lemma_json_views_index(items@, i as int);
        }
        let n = or_question_exec(text_of(&items[i], "name"));
        let t = or_question_exec(text_of(&items[i], "type"));
        let x = concat3(n.as_str(), ":", t.as_str());
        let ghost before = parts@;
        parts.push(x);
        assert(crate::server::state::strs(parts@) =~= crate::server::state::strs(before).push(x@));
        assert(iv.take(i + 1).map_values(
            |p: JsonView| or_question(jget_str(p, "name"@)) + ":"@ + or_question(jget_str(p, "type"@)),
        ) =~= iv.take(i as int).map_values(
            |p: JsonView| or_question(jget_str(p, "name"@)) + ":"@ + or_question(jget_str(p, "type"@)),
        ).push(x@));
        i = i + 1;
    }
    assert(iv.take(items@.len() as int) =~= iv);
    join_texts(&parts, ", ")
}

fn or_empty_exec(t: Option<String>) -> (r: String)
    ensures
        r@ == or_empty(crate::paths::opt_view(t)),
{
    match t {
        Some(v) => v,
        None => String::new(),
    }
}

fn or_else_exec(a: Option<String>, b: Option<String>) -> (r: Option<String>)
    ensures
        crate::paths::opt_view(r) == or_else(crate::paths::opt_view(a), crate::paths::opt_view(b)),
{
    match a {
        Some(v) => Some(v),
        None => b,
    }
}

fn count_text(v: &JsonValue) -> (r: String)
    ensures
        r@ == decimal(count_of(v@)),
{
    proof {
        reveal_strlit("0");
        assert(decimal(0) =~= "0"@);
    }
    match v.get("count") {
        Some(c) => match c.as_u64() {
            Some(n) => crate::text::u64_to_string(n),
            None => copy_str("0"),
        },
        None => copy_str("0"),
    }
}

/// The health summary; `uptime` is the server's uptime already written in
/// seconds, when it has one.
pub open spec fn health_rows(data: JsonView, uptime: Option<Seq<char>>) -> Seq<(Seq<char>, Option<Seq<char>>)> {
    let h = member_or_null(data, "health"@);
    seq![
        ("Server"@, jget_str(data, "serverUrl"@)),
        (
            "Status"@,
            or_else(
                jget_str(h, "status"@),
                match jbool(jget(h, "ok"@)) {
                    Some(ok) => Some(
                        if ok {
                            "ok"@
                        } else {
                            "unknown"@
                        },
                    ),
                    None => None,
                },
            ),
        ),
        ("Unity clients"@, value_text(jget(h, "unityClientCount"@))),
        ("Web clients"@, value_text(jget(h, "webClientCount"@))),
        ("Controllers"@, value_text(jget(h, "controllerCount"@))),
        ("Execution timeout"@, format_ms(jget(h, "executionTimeoutMs"@))),
        ("Unity stale timeout"@, format_ms(jget(h, "unityHeartbeatStaleMs"@))),
        ("Web auth required"@, format_bool(jbool(jget(h, "webConsoleAuthRequired"@)))),
        ("Uptime"@, uptime),
    ]
}

fn row(k: &'static str, v: Option<String>) -> (r: (&'static str, Option<String>))
    ensures
        r.0 == k,
        r.1 == v,
{
    (k, v)
}

pub fn render_health(data: &JsonValue, uptime: Option<String>) -> (r: Vec<String>)
    ensures
        crate::server::state::strs(r@) == key_value_lines(health_rows(data@, crate::paths::opt_view(uptime))),
{
    let null = JsonValue::Null;
    let h = match data.get("health") {
        Some(h) => h,
        None => &null,
    };
    let status = or_else_exec(
        text_of(h, "status"),
        match h.get_bool("ok") {
            Some(ok) => Some(
                if ok {
                    copy_str("ok")
                } else {
                    copy_str("unknown")
                },
            ),
            None => None,
        },
    );
    let rows = vec![
        row("Server", text_of(data, "serverUrl")),
        row("Status", status),
        row("Unity clients", value_to_opt_string(h.get("unityClientCount"))),
        row("Web clients", value_to_opt_string(h.get("webClientCount"))),
        row("Controllers", value_to_opt_string(h.get("controllerCount"))),
        row("Execution timeout", format_ms_exec(h.get("executionTimeoutMs"))),
        row("Unity stale timeout", format_ms_exec(h.get("unityHeartbeatStaleMs"))),
        row("Web auth required", format_bool_exec(h.get_bool("webConsoleAuthRequired"))),
        row("Uptime", uptime),
    ];
    assert(row_views(rows@) =~= health_rows(data@, crate::paths::opt_view(uptime)));
    key_values(&rows)
}

/// The configuration shown: for `config path` the path, for `config get` the
/// value, else a note when it was saved and its summary.
pub open spec fn config_lines(data: JsonView) -> Seq<Seq<char>> {
    if jget_str(data, "action"@) == Some("path"@) {
        seq![or_empty(jget_str(data, "configPath"@))]
    } else if jget_str(data, "action"@) == Some("get"@) {
        seq![or_empty(jget_str(data, "value"@))]
    } else {
        (if jbool(jget(data, "saved"@)) == Some(true) {
            seq!["已保存 qamcp 配置。"@]
        } else {
            Seq::empty()
        }) + key_value_lines(
            seq![
                ("Config"@, jget_str(data, "configPath"@)),
                ("Exists"@, format_bool(jbool(jget(data, "exists"@)))),
                ("Server"@, jget_str(data, "serverUrl"@)),
            ],
        )
    }
}

pub fn render_config(data: &JsonValue) -> (r: Vec<String>)
    ensures
        crate::server::state::strs(r@) == config_lines(data@),
{
    let action = data.get_str("action");
    if let Some(a) = action {
        if crate::text::str_eq(a, "path") {
            let out = vec![or_empty_exec(text_of(data, "configPath"))];
            assert(crate::server::state::strs(out@) =~= config_lines(data@));
            return out;
        }
        if crate::text::str_eq(a, "get") {
            let out = vec![or_empty_exec(text_of(data, "value"))];
            assert(crate::server::state::strs(out@) =~= config_lines(data@));
            return out;
        }
    }
    let mut out: Vec<String> = Vec::new();
    if data.get_bool("saved") == Some(true) {
        out.push(copy_str("已保存 qamcp 配置。"));
    }
    let rows = vec![
        row("Config", text_of(data, "configPath")),
        row("Exists", format_bool_exec(data.get_bool("exists"))),
        row("Server", text_of(data, "serverUrl")),
    ];
    assert(row_views(rows@) =~= seq![
        ("Config"@, jget_str(data@, "configPath"@)),
        ("Exists"@, format_bool(jbool(jget(data@, "exists"@)))),
        ("Server"@, jget_str(data@, "serverUrl"@)),
    ]);
    let kv = key_values(&rows);
    let ghost before = crate::server::state::strs(out@);
    let mut j: usize = 0;
    while j < kv.len()
        invariant
            j <= kv@.len(),
            crate::server::state::strs(out@) == before + crate::server::state::strs(kv@).take(j as int),
        decreases kv@.len() - j,
    {
        let ghost b = out@;
        out.push(copy_str(kv[j].as_str()));
        assert(crate::server::state::strs(out@) =~= crate::server::state::strs(b).push(kv@[j as int]@));
        assert(crate::server::state::strs(kv@).take(j + 1) =~= crate::server::state::strs(kv@).take(j as int).push(kv@[j as int]@));
        j = j + 1;
    }
    assert(crate::server::state::strs(kv@).take(kv@.len() as int) =~= crate::server::state::strs(kv@));
    out
}

/// Lines one after the other.
pub fn append_lines(a: Vec<String>, b: &Vec<String>) -> (r: Vec<String>)
    ensures
        crate::server::state::strs(r@) == crate::server::state::strs(a@) + crate::server::state::strs(b@),
{
    let mut out = a;
    let ghost before = crate::server::state::strs(out@);
    let mut j: usize = 0;
    while j < b.len()
        invariant
            j <= b@.len(),
            crate::server::state::strs(out@) == before + crate::server::state::strs(b@).take(j as int),
        decreases b@.len() - j,
    {
        let ghost o = out@;
        out.push(copy_str(b[j].as_str()));
        assert(crate::server::state::strs(out@) =~= crate::server::state::strs(o).push(b@[j as int]@));
        assert(crate::server::state::strs(b@).take(j + 1) =~= crate::server::state::strs(b@).take(j as int).push(b@[j as int]@));
        j = j + 1;
    }
    assert(crate::server::state::strs(b@).take(b@.len() as int) =~= crate::server::state::strs(b@));
    out
}

fn one_line(t: String) -> (r: Vec<String>)
    ensures
        crate::server::state::strs(r@) == seq![t@],
{
    let out = vec![t];
    assert(crate::server::state::strs(out@) =~= seq![t@]);
    out
}

pub open spec fn client_cells(c: JsonView) -> Seq<Seq<char>> {
    seq![
        or_empty(jget_str(c, "clientId"@)),
        or_empty(jget_str(c, "name"@)),
        or_empty(or_else(jget_str(c, "ipAddress"@), jget_str(c, "remoteAddress"@))),
        or_empty(jget_str(c, "platform"@)),
        if jbool(jget(c, "available"@)) == Some(false) {
            "no"@
        } else {
            "yes"@
        },
        if jbool(jget(c, "running"@)) == Some(true) || jbool(jget(c, "clientBusy"@)) == Some(true) {
            "yes"@
        } else {
            "no"@
        },
        or_empty(
            or_else(
                value_text(jget(c, "methodCount"@)),
                match crate::json::jarray(jget(c, "methods"@)) {
                    Some(a) => Some(decimal(a.len())),
                    None => None,
                },
            ),
        ),
        or_empty(or_else(jget_str(c, "currentMethodName"@), jget_str(c, "currentRequestId"@))),
    ]
}

pub open spec fn client_columns() -> Seq<Seq<char>> {
    seq!["clientId"@, "name"@, "ip"@, "platform"@, "available"@, "busy"@, "tools"@, "current"@]
}

/// The clients shown: how many, then a table of them (or a note that none is
/// connected).
pub open spec fn clients_lines(data: JsonView) -> Seq<Seq<char>> {
    let cs = crate::qa::api::array_or_empty(data, "clients"@);
    seq!["Unity clients: "@ + decimal(count_of(data))] + if cs.len() == 0 {
        seq!["No Unity clients are connected."@]
    } else {
        table_lines(client_columns(), cs.map_values(|c: JsonView| client_cells(c)))
    }
}

fn client_row(c: &JsonValue) -> (r: Vec<String>)
    ensures
        crate::server::state::strs(r@) == client_cells(c@),
{
    let methods = match c.get_array("methods") {
        Some(a) => {
            proof {
                crate::json::lemma_json_views_len(a@);
            }
            Some(crate::text::u64_to_string(a.len() as u64))
        },
        None => None,
    };
    let out = vec![
        or_empty_exec(text_of(c, "clientId")),
        or_empty_exec(text_of(c, "name")),
        or_empty_exec(or_else_exec(text_of(c, "ipAddress"), text_of(c, "remoteAddress"))),
        or_empty_exec(text_of(c, "platform")),
        if c.get_bool("available") == Some(false) {
            copy_str("no")
        } else {
            copy_str("yes")
        },
        if c.get_bool("running") == Some(true) || c.get_bool("clientBusy") == Some(true) {
            copy_str("yes")
        } else {
            copy_str("no")
        },
        or_empty_exec(or_else_exec(value_to_opt_string(c.get("methodCount")), methods)),
        or_empty_exec(or_else_exec(text_of(c, "currentMethodName"), text_of(c, "currentRequestId"))),
    ];
    assert(crate::server::state::strs(out@) =~= client_cells(c@));
    out
}

/// The cells of the items in a table.
spec fn rows_of(items: Seq<JsonView>, kind: nat, simple: bool) -> Seq<Seq<Seq<char>>> {
    items.map_values(|x: JsonView| cells_of(x, kind, simple))
}

pub open spec fn cells_of(x: JsonView, kind: nat, simple: bool) -> Seq<Seq<char>> {
    if kind == 0 {
        client_cells(x)
    } else if kind == 1 {
        method_cells(x, simple)
    } else if kind == 2 {
        result_cells(x)
    } else {
        event_cells(x)
    }
}

pub open spec fn method_cells(m: JsonView, simple: bool) -> Seq<Seq<char>> {
    if simple {
        seq![or_empty(jget_str(m, "methodName"@)), or_empty(jget_str(m, "methodId"@))]
    } else {
        seq![
            or_empty(jget_str(m, "clientId"@)),
            or_empty(jget_str(m, "methodName"@)),
            or_empty(jget_str(m, "methodId"@)),
            or_empty(format_bool(jbool(jget(m, "allowParallelExecution"@)))),
            format_parameters(jget(m, "parameters"@)),
            or_empty(jget_str(m, "returnType"@)),
            or_empty(jget_str(m, "description"@)),
        ]
    }
}

pub open spec fn result_cells(r: JsonView) -> Seq<Seq<char>> {
    seq![
        or_empty(jget_str(r, "status"@)),
        or_empty(jget_str(r, "clientId"@)),
        or_empty(or_else(jget_str(r, "methodName"@), jget_str(r, "methodId"@))),
        or_empty(jget_str(r, "requestId"@)),
        or_empty(jget_str(r, "sequenceId"@)),
        or_empty(format_ms(jget(r, "durationMs"@))),
        stringify_brief(jget(r, "result"@)),
        or_empty(jget_str(r, "error"@)),
    ]
}

/// Three texts joined with spaces, without the spaces at either end.
pub open spec fn spaced3(a: Seq<char>, b: Seq<char>, c: Seq<char>) -> Seq<char> {
    crate::text::trim(a + " "@ + b + " "@ + c)
}

pub open spec fn spaced2(a: Seq<char>, b: Seq<char>) -> Seq<char> {
    crate::text::trim(a + " "@ + b)
}

/// One line about an event: a result's status, method and request; a
/// sequence's status and id; a client's id and name; else its error, or the
/// message as JSON.
pub open spec fn summarize_event(m: JsonView) -> Seq<char> {
    match jget(m, "result"@) {
        Some(r) => spaced3(
            or_empty(jget_str(r, "status"@)),
            or_empty(or_else(jget_str(r, "methodName"@), jget_str(r, "methodId"@))),
            or_empty(jget_str(r, "requestId"@)),
        ),
        None => match jget(m, "sequence"@) {
            Some(q) => spaced2(or_empty(jget_str(q, "status"@)), or_empty(jget_str(q, "sequenceId"@))),
            None => match jget(m, "client"@) {
                Some(c) => spaced2(or_empty(jget_str(c, "clientId"@)), or_empty(jget_str(c, "name"@))),
                None => match jget_str(m, "error"@) {
                    Some(e) => e,
                    None => compact_text(m),
                },
            },
        },
    }
}

pub open spec fn event_cells(e: JsonView) -> Seq<Seq<char>> {
    seq![
        or_empty(value_text(jget(e, "index"@))),
        or_empty(jget_str(e, "receivedAt"@)),
        or_empty(jget_str(e, "type"@)),
        summarize_event(member_or_null(e, "message"@)),
    ]
}

fn method_row(m: &JsonValue, simple: bool) -> (r: Vec<String>)
    ensures
        crate::server::state::strs(r@) == method_cells(m@, simple),
{
    if simple {
        let out = vec![or_empty_exec(text_of(m, "methodName")), or_empty_exec(text_of(m, "methodId"))];
        assert(crate::server::state::strs(out@) =~= method_cells(m@, simple));
        return out;
    }
    let out = vec![
        or_empty_exec(text_of(m, "clientId")),
        or_empty_exec(text_of(m, "methodName")),
        or_empty_exec(text_of(m, "methodId")),
        or_empty_exec(format_bool_exec(m.get_bool("allowParallelExecution"))),
        format_parameters_exec(m.get("parameters")),
        or_empty_exec(text_of(m, "returnType")),
        or_empty_exec(text_of(m, "description")),
    ];
    assert(crate::server::state::strs(out@) =~= method_cells(m@, simple));
    out
}

fn result_row(r: &JsonValue) -> (o: Vec<String>)
    ensures
        crate::server::state::strs(o@) == result_cells(r@),
{
    let out = vec![
        or_empty_exec(text_of(r, "status")),
        or_empty_exec(text_of(r, "clientId")),
        or_empty_exec(or_else_exec(text_of(r, "methodName"), text_of(r, "methodId"))),
        or_empty_exec(text_of(r, "requestId")),
        or_empty_exec(text_of(r, "sequenceId")),
        or_empty_exec(format_ms_exec(r.get("durationMs"))),
        stringify_brief_exec(r.get("result")),
        or_empty_exec(text_of(r, "error")),
    ];
    assert(crate::server::state::strs(out@) =~= result_cells(r@));
    out
}

fn spaced3_exec(a: &str, b: &str, c: &str) -> (r: String)
    ensures
        r@ == spaced3(a@, b@, c@),
{
    let x = concat3(a, " ", b);
    let y = concat3(x.as_str(), " ", c);
    crate::text::trim_string(y.as_str())
}

fn spaced2_exec(a: &str, b: &str) -> (r: String)
    ensures
        r@ == spaced2(a@, b@),
{
    let x = concat3(a, " ", b);
    crate::text::trim_string(x.as_str())
}

pub fn summarize_event_exec(m: &JsonValue) -> (r: String)
    ensures
        r@ == summarize_event(m@),
{
    if let Some(r) = m.get("result") {
        let a = or_empty_exec(text_of(r, "status"));
        let b = or_empty_exec(or_else_exec(text_of(r, "methodName"), text_of(r, "methodId")));
        let c = or_empty_exec(text_of(r, "requestId"));
        return spaced3_exec(a.as_str(), b.as_str(), c.as_str());
    }
    if let Some(q) = m.get("sequence") {
        let a = or_empty_exec(text_of(q, "status"));
        let b = or_empty_exec(text_of(q, "sequenceId"));
        return spaced2_exec(a.as_str(), b.as_str());
    }
    if let Some(c) = m.get("client") {
        let a = or_empty_exec(text_of(c, "clientId"));
        let b = or_empty_exec(text_of(c, "name"));
        return spaced2_exec(a.as_str(), b.as_str());
    }
    match text_of(m, "error") {
        Some(e) => e,
        None => m.to_compact_text(),
    }
}

fn event_row(e: &JsonValue) -> (r: Vec<String>)
    ensures
        crate::server::state::strs(r@) == event_cells(e@),
{
    let null = JsonValue::Null;
    let message = match e.get("message") {
        Some(m) => m,
        None => &null,
    };
    let out = vec![
        or_empty_exec(value_to_opt_string(e.get("index"))),
        or_empty_exec(text_of(e, "receivedAt")),
        or_empty_exec(text_of(e, "type")),
        summarize_event_exec(message),
    ];
    assert(crate::server::state::strs(out@) =~= event_cells(e@));
    out
}

fn cells_exec(x: &JsonValue, kind: u8, simple: bool) -> (r: Vec<String>)
    requires
        kind <= 3,
    ensures
        crate::server::state::strs(r@) == cells_of(x@, kind as nat, simple),
        r@.len() == cells_of(x@, kind as nat, simple).len(),
{
    if kind == 0 {
        client_row(x)
    } else if kind == 1 {
        method_row(x, simple)
    } else if kind == 2 {
        result_row(x)
    } else {
        event_row(x)
    }
}

/// The lines of a table of the items, with the cells of their kind.
fn items_table(columns: &Vec<&str>, items: &Vec<JsonValue>, kind: u8, simple: bool) -> (r: Vec<String>)
    requires
        kind <= 3,
        forall|x: JsonView| #![auto] cells_of(x, kind as nat, simple).len() <= columns@.len(),
    ensures
        crate::server::state::strs(r@) == table_lines(
            columns@.map_values(|c: &str| c@),
            crate::json::json_views(items@).map_values(|x: JsonView| cells_of(x, kind as nat, simple)),
        ),
{
    let ghost iv = crate::json::json_views(items@);
    proof {
        crate::json::lemma_json_views_len(items@);
    }
    let mut rows: Vec<Vec<String>> = Vec::new();
    let mut i: usize = 0;
    while i < items.len()
        invariant
            i <= items@.len(),
            kind <= 3,
            iv == crate::json::json_views(items@),
            iv.len() == items@.len(),
            forall|x: JsonView| #![auto] cells_of(x, kind as nat, simple).len() <= columns@.len(),
            forall|k: int| 0 <= k < rows@.len() ==> (#[trigger] rows@[k])@.len() <= columns@.len(),
            rows_view(rows@) == iv.take(i as int).map_values(|x: JsonView| cells_of(x, kind as nat, simple)),
        decreases items@.len() - i,
    {
        proof {
            crate::json::lemma_json_views_index(items@, i as int);
        }
        let cells = cells_exec(&items[i], kind, simple);
        let ghost before = rows@;
        rows.push(cells);
        assert(rows_view(rows@) =~= rows_view(before).push(crate::server::state::strs(rows@[i as int]@)));
        assert(iv.take(i + 1).map_values(|x: JsonView| cells_of(x, kind as nat, simple)) =~= iv.take(i as int).map_values(
            |x: JsonView| cells_of(x, kind as nat, simple),
        ).push(cells_of(iv[i as int], kind as nat, simple)));
        i = i + 1;
    }
    assert(iv.take(items@.len() as int) =~= iv);
    table(columns, &rows)
}

fn items_of<'a>(data: &'a JsonValue, key: &str, empty: &'a Vec<JsonValue>) -> (r: &'a Vec<JsonValue>)
    requires
        empty@.len() == 0,
    ensures
        crate::json::json_views(r@) == crate::qa::api::array_or_empty(data@, key@),
{
    match data.get_array(key) {
        Some(a) => a,
        None => empty,
    }
}

pub fn render_clients(data: &JsonValue) -> (r: Vec<String>)
    ensures
        crate::server::state::strs(r@) == clients_lines(data@),
{
    let empty: Vec<JsonValue> = Vec::new();
    let items = items_of(data, "clients", &empty);
    proof {
        crate::json::lemma_json_views_len(items@);
    }
    let head = one_line(concat2("Unity clients: ", count_text(data).as_str()));
    if items.len() == 0 {
        let rest = one_line(copy_str("No Unity clients are connected."));
        return append_lines(head, &rest);
    }
    let columns = vec!["clientId", "name", "ip", "platform", "available", "busy", "tools", "current"];
    assert(columns@.map_values(|c: &str| c@) =~= client_columns());
    let t = items_table(&columns, items, 0, false);
    assert(crate::json::json_views(items@).map_values(|x: JsonView| cells_of(x, 0, false)) =~= crate::json::json_views(
        items@,
    ).map_values(|c: JsonView| client_cells(c)));
    append_lines(head, &t)
}

pub open spec fn method_columns(simple: bool) -> Seq<Seq<char>> {
    if simple {
        seq!["methodName"@, "methodId"@]
    } else {
        seq!["clientId"@, "methodName"@, "methodId"@, "parallel"@, "params"@, "returnType"@, "description"@]
    }
}

/// Search results shown: how many methods matched (and how many are shown
/// when the list was cut), then a table of them, short or full.
pub open spec fn tools_lines(data: JsonView, simple: bool) -> Seq<Seq<char>> {
    let ms = crate::qa::api::array_or_empty(data, "methods"@);
    seq![
        "Methods: "@ + decimal(count_of(data)) + if jbool(jget(data, "truncated"@)) == Some(true) {
            " (showing "@ + decimal(ms.len()) + ")"@
        } else {
            Seq::empty()
        },
    ] + if ms.len() == 0 {
        seq!["No methods matched."@]
    } else {
        table_lines(method_columns(simple), ms.map_values(|m: JsonView| cells_of(m, 1, simple)))
    }
}

pub fn render_tools(data: &JsonValue, simple: bool) -> (r: Vec<String>)
    ensures
        crate::server::state::strs(r@) == tools_lines(data@, simple),
{
    let empty: Vec<JsonValue> = Vec::new();
    let items = items_of(data, "methods", &empty);
    proof {
        crate::json::lemma_json_views_len(items@);
    }
    let suffix = if data.get_bool("truncated") == Some(true) {
        let n = crate::text::u64_to_string(items.len() as u64);
        concat3(" (showing ", n.as_str(), ")")
    } else {
        String::new()
    };
    let head = one_line(concat3("Methods: ", count_text(data).as_str(), suffix.as_str()));
    if items.len() == 0 {
        let rest = one_line(copy_str("No methods matched."));
        return append_lines(head, &rest);
    }
    let columns = if simple {
        vec!["methodName", "methodId"]
    } else {
        vec!["clientId", "methodName", "methodId", "parallel", "params", "returnType", "description"]
    };
    assert(columns@.map_values(|c: &str| c@) =~= method_columns(simple));
    let t = items_table(&columns, items, 1, simple);
    append_lines(head, &t)
}

pub open spec fn result_columns() -> Seq<Seq<char>> {
    seq!["status"@, "clientId"@, "methodName"@, "requestId"@, "sequenceId"@, "duration"@, "result"@, "error"@]
}

pub open spec fn results_lines(data: JsonView) -> Seq<Seq<char>> {
    let rs = crate::qa::api::array_or_empty(data, "results"@);
    seq!["Results: "@ + decimal(count_of(data))] + if rs.len() == 0 {
        seq!["No results matched."@]
    } else {
        table_lines(result_columns(), rs.map_values(|x: JsonView| cells_of(x, 2, false)))
    }
}

pub fn render_results(data: &JsonValue) -> (r: Vec<String>)
    ensures
        crate::server::state::strs(r@) == results_lines(data@),
{
    let empty: Vec<JsonValue> = Vec::new();
    let items = items_of(data, "results", &empty);
    proof {
        crate::json::lemma_json_views_len(items@);
    }
    let head = one_line(concat2("Results: ", count_text(data).as_str()));
    if items.len() == 0 {
        let rest = one_line(copy_str("No results matched."));
        return append_lines(head, &rest);
    }
    let columns = vec!["status", "clientId", "methodName", "requestId", "sequenceId", "duration", "result", "error"];
    assert(columns@.map_values(|c: &str| c@) =~= result_columns());
    let t = items_table(&columns, items, 2, false);
    append_lines(head, &t)
}

/// A count member as a whole number, or 0.
pub open spec fn u64_member(v: JsonView, key: Seq<char>) -> nat {
    match json_u64(jget(v, key)) {
        Some(n) => n as nat,
        None => 0,
    }
}

pub open spec fn watch_lines(data: JsonView) -> Seq<Seq<char>> {
    let es = crate::qa::api::array_or_empty(data, "events"@);
    seq![
        "Events: "@ + decimal(count_of(data)) + if jbool(jget(data, "truncated"@)) == Some(true) {
            " ("@ + decimal(u64_member(data, "droppedEvents"@)) + " dropped)"@
        } else {
            Seq::empty()
        },
    ] + if es.len() == 0 {
        seq!["No events captured."@]
    } else {
        table_lines(seq!["index"@, "receivedAt"@, "type"@, "summary"@], es.map_values(|x: JsonView| cells_of(x, 3, false)))
    }
}

fn u64_member_text(v: &JsonValue, key: &str) -> (r: String)
    ensures
        r@ == decimal(u64_member(v@, key@)),
{
    proof {
        reveal_strlit("0");
        assert(decimal(0) =~= "0"@);
    }
    match v.get(key) {
        Some(c) => match c.as_u64() {
            Some(n) => crate::text::u64_to_string(n),
            None => copy_str("0"),
        },
        None => copy_str("0"),
    }
}

pub fn render_watch(data: &JsonValue) -> (r: Vec<String>)
    ensures
        crate::server::state::strs(r@) == watch_lines(data@),
{
    let empty: Vec<JsonValue> = Vec::new();
    let items = items_of(data, "events", &empty);
    proof {
        crate::json::lemma_json_views_len(items@);
    }
    let suffix = if data.get_bool("truncated") == Some(true) {
        let n = u64_member_text(data, "droppedEvents");
        concat3(" (", n.as_str(), " dropped)")
    } else {
        String::new()
    };
    let head = one_line(concat3("Events: ", count_text(data).as_str(), suffix.as_str()));
    if items.len() == 0 {
        let rest = one_line(copy_str("No events captured."));
        return append_lines(head, &rest);
    }
    let columns = vec!["index", "receivedAt", "type", "summary"];
    assert(columns@.map_values(|c: &str| c@) =~= seq!["index"@, "receivedAt"@, "type"@, "summary"@]);
    let t = items_table(&columns, items, 3, false);
    append_lines(head, &t)
}

pub open spec fn detail_rows(method: JsonView, match_data: JsonView) -> Seq<(Seq<char>, Option<Seq<char>>)> {
    seq![
        ("Query"@, jget_str(match_data, "query"@)),
        ("Method"@, jget_str(method, "methodName"@)),
        ("ID"@, jget_str(method, "methodId"@)),
        ("Client"@, jget_str(method, "clientId"@)),
        ("Client name"@, jget_str(method, "clientName"@)),
        ("Client IP"@, jget_str(method, "clientIpAddress"@)),
        ("Declaring type"@, jget_str(method, "declaringType"@)),
        ("Return type"@, jget_str(method, "returnType"@)),
        ("Static"@, format_bool(jbool(jget(method, "isStatic"@)))),
        ("Parallel"@, format_bool(jbool(jget(method, "allowParallelExecution"@)))),
        ("Parameters"@, Some(format_parameters(jget(method, "parameters"@)))),
        ("Description"@, jget_str(method, "description"@)),
        ("Match"@, jget_str(match_data, "matchType"@)),
    ]
}

fn detail_lines(method: &JsonValue, match_data: &JsonValue) -> (r: Vec<String>)
    ensures
        crate::server::state::strs(r@) == key_value_lines(detail_rows(method@, match_data@)),
{
    let rows = vec![
        row("Query", text_of(match_data, "query")),
        row("Method", text_of(method, "methodName")),
        row("ID", text_of(method, "methodId")),
        row("Client", text_of(method, "clientId")),
        row("Client name", text_of(method, "clientName")),
        row("Client IP", text_of(method, "clientIpAddress")),
        row("Declaring type", text_of(method, "declaringType")),
        row("Return type", text_of(method, "returnType")),
        row("Static", format_bool_exec(method.get_bool("isStatic"))),
        row("Parallel", format_bool_exec(method.get_bool("allowParallelExecution"))),
        row("Parameters", Some(format_parameters_exec(method.get("parameters")))),
        row("Description", text_of(method, "description")),
        row("Match", text_of(match_data, "matchType")),
    ];
    assert(row_views(rows@) =~= detail_rows(method@, match_data@));
    key_values(&rows)
}

/// The details of the items from the `k`th on, a blank line between two.
pub open spec fn items_details(items: Seq<JsonView>, first: bool) -> Seq<Seq<char>>
    decreases items.len(),
{
    if items.len() == 0 {
        Seq::empty()
    } else {
        let x = items[0];
        (if first {
            Seq::empty()
        } else {
            seq![Seq::empty()]
        }) + key_value_lines(
            detail_rows(
                match jget(x, "method"@) {
                    Some(m) => m,
                    None => x,
                },
                x,
            ),
        ) + items_details(items.drop_first(), false)
    }
}

/// A method described: for several, how many and each one's details; for
/// one, its details.
pub open spec fn tool_lines(data: JsonView) -> Seq<Seq<char>> {
    match crate::json::jarray(jget(data, "methods"@)) {
        Some(items) => seq![
            "Methods: "@ + decimal(
                match json_u64(jget(data, "count"@)) {
                    Some(n) => n as nat,
                    None => items.len(),
                },
            ),
        ] + items_details(items, true),
        None => key_value_lines(detail_rows(member_or_null(data, "method"@), data)),
    }
}

pub fn render_tool(data: &JsonValue) -> (r: Vec<String>)
    ensures
        crate::server::state::strs(r@) == tool_lines(data@),
{
    match data.get_array("methods") {
        Some(items) => {
            let ghost iv = crate::json::json_views(items@);
            proof {
                crate::json::lemma_json_views_len(items@);
            }
            let n = match data.get("count") {
                Some(c) => match c.as_u64() {
                    Some(n) => n,
                    None => items.len() as u64,
                },
                None => items.len() as u64,
            };
            let mut out = one_line(concat2("Methods: ", crate::text::u64_to_string(n).as_str()));
            let ghost head = crate::server::state::strs(out@);
            let mut i: usize = 0;
            assert(iv.subrange(0, iv.len() as int) =~= iv);
            while i < items.len()
                invariant
                    i <= items@.len(),
                    iv == crate::json::json_views(items@),
                    iv.len() == items@.len(),
                    head + items_details(iv, true) == crate::server::state::strs(out@) + items_details(
                        iv.subrange(i as int, iv.len() as int),
                        i == 0,
                    ),
                decreases items@.len() - i,
            {
                proof {
                    crate::json::lemma_json_views_index(items@, i as int);
                }
                let ghost rest = iv.subrange(i as int, iv.len() as int);
                assert(rest.drop_first() =~= iv.subrange(i + 1, iv.len() as int));
                assert(rest[0] == items@[i as int]@);
                let item = &items[i];
                let method = match item.get("method") {
                    Some(m) => m,
                    None => item,
                };
                let d = detail_lines(method, item);
                let ghost o = crate::server::state::strs(out@);
                if i > 0 {
                    out.push(String::new());
                    assert(crate::server::state::strs(out@) =~= o.push(Seq::empty()));
                }
                let ghost o2 = crate::server::state::strs(out@);
                out = append_lines(out, &d);
                proof {
                    let sep: Seq<Seq<char>> = if i == 0 {
                        Seq::empty()
                    } else {
                        seq![Seq::empty()]
                    };
                    assert(o2 =~= o + sep);
                    assert(items_details(rest, i == 0) == sep + crate::server::state::strs(d@) + items_details(
                        rest.drop_first(),
                        false,
                    ));
                    assert(o + (sep + crate::server::state::strs(d@) + items_details(rest.drop_first(), false)) =~= (o
                        + sep + crate::server::state::strs(d@)) + items_details(rest.drop_first(), false));
                }
                i = i + 1;
            }
            assert(iv.subrange(iv.len() as int, iv.len() as int) =~= Seq::<JsonView>::empty());
            assert(crate::server::state::strs(out@) + Seq::<Seq<char>>::empty() =~= crate::server::state::strs(out@));
            out
        },
        None => {
            let null = JsonValue::Null;
            let method = match data.get("method") {
                Some(m) => m,
                None => &null,
            };
            detail_lines(method, data)
        },
    }
}

pub open spec fn execution_rows(data: JsonView) -> Seq<(Seq<char>, Option<Seq<char>>)> {
    let r = member_or_null(data, "result"@);
    let e = member_or_null(data, "execution"@);
    seq![
        (
            "Status"@,
            or_else(
                jget_str(r, "status"@),
                match jbool(jget(r, "success"@)) {
                    Some(ok) => Some(
                        if ok {
                            "success"@
                        } else {
                            "failed"@
                        },
                    ),
                    None => None,
                },
            ),
        ),
        ("Request"@, or_else(jget_str(r, "requestId"@), jget_str(e, "requestId"@))),
        ("Client"@, or_else(jget_str(r, "clientId"@), jget_str(e, "clientId"@))),
        ("Method"@, or_else(or_else(jget_str(r, "methodName"@), jget_str(r, "methodId"@)), jget_str(e, "methodId"@))),
        ("Duration"@, format_ms(jget(r, "durationMs"@))),
        ("Result"@, Some(stringify_brief(jget(r, "result"@)))),
        ("Error"@, jget_str(r, "error"@)),
    ]
}

pub fn render_execution(data: &JsonValue) -> (r: Vec<String>)
    ensures
        crate::server::state::strs(r@) == key_value_lines(execution_rows(data@)),
{
    let null = JsonValue::Null;
    let res = match data.get("result") {
        Some(x) => x,
        None => &null,
    };
    let ex = match data.get("execution") {
        Some(x) => x,
        None => &null,
    };
    let status = or_else_exec(
        text_of(res, "status"),
        match res.get_bool("success") {
            Some(ok) => Some(
                if ok {
                    copy_str("success")
                } else {
                    copy_str("failed")
                },
            ),
            None => None,
        },
    );
    let rows = vec![
        row("Status", status),
        row("Request", or_else_exec(text_of(res, "requestId"), text_of(ex, "requestId"))),
        row("Client", or_else_exec(text_of(res, "clientId"), text_of(ex, "clientId"))),
        row("Method", or_else_exec(or_else_exec(text_of(res, "methodName"), text_of(res, "methodId")), text_of(ex, "methodId"))),
        row("Duration", format_ms_exec(res.get("durationMs"))),
        row("Result", Some(stringify_brief_exec(res.get("result")))),
        row("Error", text_of(res, "error")),
    ];
    assert(row_views(rows@) =~= execution_rows(data@));
    key_values(&rows)
}

pub open spec fn artifact_rows(data: JsonView) -> Seq<(Seq<char>, Option<Seq<char>>)> {
    seq![
        ("Saved"@, jget_str(data, "savedPath"@)),
        ("Artifact"@, jget_str(data, "artifactId"@)),
        ("File"@, jget_str(data, "fileName"@)),
        ("Client"@, or_else(jget_str(data, "clientName"@), jget_str(data, "clientId"@))),
        ("Size"@, value_text(jget(data, "sizeBytes"@))),
        ("SHA-256"@, jget_str(data, "sha256"@)),
    ]
}

pub fn render_artifact_save(data: &JsonValue) -> (r: Vec<String>)
    ensures
        crate::server::state::strs(r@) == key_value_lines(artifact_rows(data@)),
{
    let rows = vec![
        row("Saved", text_of(data, "savedPath")),
        row("Artifact", text_of(data, "artifactId")),
        row("File", text_of(data, "fileName")),
        row("Client", or_else_exec(text_of(data, "clientName"), text_of(data, "clientId"))),
        row("Size", value_to_opt_string(data.get("sizeBytes"))),
        row("SHA-256", text_of(data, "sha256")),
    ];
    assert(row_views(rows@) =~= artifact_rows(data@));
    key_values(&rows)
}

pub open spec fn sequence_rows(data: JsonView) -> Seq<(Seq<char>, Option<Seq<char>>)> {
    let q = member_or_null(data, "sequence"@);
    seq![
        ("Status"@, Some(or_else_text(jget_str(q, "status"@), "unknown"@))),
        ("Sequence"@, or_else(jget_str(data, "sequenceId"@), jget_str(q, "sequenceId"@))),
        ("Client"@, jget_str(q, "clientId"@)),
        (
            "Steps"@,
            Some(
                or_else_text(
                    value_text(jget(q, "completedSteps"@)),
                    decimal(crate::qa::api::array_or_empty(data, "stepResults"@).len()),
                ) + "/"@ + or_else_text(
                    value_text(jget(q, "totalSteps"@)),
                    decimal(crate::qa::api::array_or_empty(data, "startedSteps"@).len()),
                ),
            ),
        ),
        ("Failed"@, Some(or_else_text(value_text(jget(q, "failedSteps"@)), "0"@))),
    ]
}

pub open spec fn or_else_text(a: Option<Seq<char>>, b: Seq<char>) -> Seq<char> {
    match a {
        Some(v) => v,
        None => b,
    }
}

fn or_else_text_exec(a: Option<String>, b: String) -> (r: String)
    ensures
        r@ == or_else_text(crate::paths::opt_view(a), b@),
{
    match a {
        Some(v) => v,
        None => b,
    }
}

fn array_len_text(data: &JsonValue, key: &str) -> (r: String)
    ensures
        r@ == decimal(crate::qa::api::array_or_empty(data@, key@).len()),
{
    proof {
        reveal_strlit("0");
        assert(decimal(0) =~= "0"@);
    }
    match data.get_array(key) {
        Some(a) => {
            proof {
                crate::json::lemma_json_views_len(a@);
            }
            crate::text::u64_to_string(a.len() as u64)
        },
        None => copy_str("0"),
    }
}

pub fn render_sequence(data: &JsonValue) -> (r: Vec<String>)
    ensures
        crate::server::state::strs(r@) == key_value_lines(sequence_rows(data@)),
{
    let null = JsonValue::Null;
    let q = match data.get("sequence") {
        Some(x) => x,
        None => &null,
    };
    let done = or_else_text_exec(value_to_opt_string(q.get("completedSteps")), array_len_text(data, "stepResults"));
    let total = or_else_text_exec(value_to_opt_string(q.get("totalSteps")), array_len_text(data, "startedSteps"));
    let rows = vec![
        row("Status", Some(or_else_text_exec(text_of(q, "status"), copy_str("unknown")))),
        row("Sequence", or_else_exec(text_of(data, "sequenceId"), text_of(q, "sequenceId"))),
        row("Client", text_of(q, "clientId")),
        row("Steps", Some(concat3(done.as_str(), "/", total.as_str()))),
        row("Failed", Some(or_else_text_exec(value_to_opt_string(q.get("failedSteps")), copy_str("0")))),
    ];
    assert(row_views(rows@) =~= sequence_rows(data@));
    key_values(&rows)
}

pub open spec fn stop_rows(data: JsonView) -> Seq<(Seq<char>, Option<Seq<char>>)> {
    let a = member_or_null(data, "acknowledgement"@);
    seq![
        ("Status"@, Some(or_else_text(jget_str(a, "type"@), "stop_accepted"@))),
        ("Controller"@, jget_str(data, "controllerId"@)),
        ("Request"@, jget_str(a, "requestId"@)),
        ("Sequence"@, jget_str(a, "sequenceId"@)),
        ("Reason"@, jget_str(a, "reason"@)),
    ]
}

pub fn render_stop(data: &JsonValue) -> (r: Vec<String>)
    ensures
        crate::server::state::strs(r@) == key_value_lines(stop_rows(data@)),
{
    let null = JsonValue::Null;
    let a = match data.get("acknowledgement") {
        Some(x) => x,
        None => &null,
    };
    let rows = vec![
        row("Status", Some(or_else_text_exec(text_of(a, "type"), copy_str("stop_accepted")))),
        row("Controller", text_of(data, "controllerId")),
        row("Request", text_of(a, "requestId")),
        row("Sequence", text_of(a, "sequenceId")),
        row("Reason", text_of(a, "reason")),
    ];
    assert(row_views(rows@) =~= stop_rows(data@));
    key_values(&rows)
}

pub open spec fn matched_line(data: JsonView) -> Seq<char> {
    "Matched "@ + or_empty(jget_str(data, "eventType"@)) + " from "@ + or_empty(jget_str(data, "source"@)) + "."@
}

/// A wait's outcome shown: what matched and from where, then the result or
/// the sequence; none (shown as JSON) when it holds neither.
pub open spec fn wait_lines(data: JsonView) -> Option<Seq<Seq<char>>> {
    match jget(data, "result"@) {
        Some(r) => Some(
            seq![matched_line(data)] + key_value_lines(execution_rows(JsonView::Object(seq![("result"@, r)]))),
        ),
        None => match jget(data, "sequence"@) {
            Some(_) => Some(seq![matched_line(data)] + key_value_lines(sequence_rows(data))),
            None => None,
        },
    }
}

fn matched_line_exec(data: &JsonValue) -> (r: String)
    ensures
        r@ == matched_line(data@),
{
    let a = concat3("Matched ", or_empty_exec(text_of(data, "eventType")).as_str(), " from ");
    concat3(a.as_str(), or_empty_exec(text_of(data, "source")).as_str(), ".")
}

pub fn render_wait(data: &JsonValue) -> (r: Option<Vec<String>>)
    ensures
        match wait_lines(data@) {
            None => r is None,
            Some(ls) => r matches Some(x) && crate::server::state::strs(x@) == ls,
        },
{
    if let Some(res) = data.get("result") {
        let ghost rv = res@;
        let wrapped = JsonValue::Object(vec![(copy_str("result"), res.copy())]);
        assert(wrapped@ == JsonView::Object(seq![("result"@, rv)])) by {
            match wrapped {
                JsonValue::Object(es) => {
                    crate::json::lemma_entry_views_new(es@);
                    assert(crate::json::json_entry_views(es@) =~= seq![("result"@, rv)]);
                },
                _ => {},
            }
        }
        let head = one_line(matched_line_exec(data));
        let body = render_execution(&wrapped);
        return Some(append_lines(head, &body));
    }
    if data.get("sequence").is_some() {
        let head = one_line(matched_line_exec(data));
        let body = render_sequence(data);
        return Some(append_lines(head, &body));
    }
    None
}

/// What `--text` shows for a command's data; none where the data is shown as
/// JSON (without `--text`, or for a command with no text form). `uptime` is
/// the health's uptime already written in seconds.
pub open spec fn spec_render_cli_output(
    command: Seq<char>,
    data: JsonView,
    text: Option<bool>,
    simple: Option<bool>,
    uptime: Option<Seq<char>>,
) -> Option<Seq<Seq<char>>> {
    if text != Some(true) {
        None
    } else if command == "health"@ {
        Some(key_value_lines(health_rows(data, uptime)))
    } else if command == "clients"@ {
        Some(clients_lines(data))
    } else if command == "config"@ {
        Some(config_lines(data))
    } else if command == "search"@ {
        Some(tools_lines(data, simple == Some(true)))
    } else if command == "describe"@ {
        Some(tool_lines(data))
    } else if command == "results"@ {
        Some(results_lines(data))
    } else if command == "run"@ {
        Some(key_value_lines(execution_rows(data)))
    } else if command == "capture-screenshot"@ {
        Some(key_value_lines(artifact_rows(data)))
    } else if command == "sequence"@ {
        Some(key_value_lines(sequence_rows(data)))
    } else if command == "stop"@ {
        Some(key_value_lines(stop_rows(data)))
    } else if command == "wait"@ {
        wait_lines(data)
    } else if command == "watch"@ {
        Some(watch_lines(data))
    } else {
        None
    }
}

pub fn render_cli_output(
    command: &str,
    data: &JsonValue,
    text: Option<bool>,
    simple: Option<bool>,
    uptime: Option<String>,
) -> (r: Option<Vec<String>>)
    ensures
        match spec_render_cli_output(command@, data@, text, simple, crate::paths::opt_view(uptime)) {
            None => r is None,
            Some(ls) => r matches Some(x) && crate::server::state::strs(x@) == ls,
        },
{
    if text != Some(true) {
        return None;
    }
    if str_eq(command, "health") {
        Some(render_health(data, uptime))
    } else if str_eq(command, "clients") {
        Some(render_clients(data))
    } else if str_eq(command, "config") {
        Some(render_config(data))
    } else if str_eq(command, "search") {
        Some(render_tools(data, simple == Some(true)))
    } else if str_eq(command, "describe") {
        Some(render_tool(data))
    } else if str_eq(command, "results") {
        Some(render_results(data))
    } else if str_eq(command, "run") {
        Some(render_execution(data))
    } else if str_eq(command, "capture-screenshot") {
        Some(render_artifact_save(data))
    } else if str_eq(command, "sequence") {
        Some(render_sequence(data))
    } else if str_eq(command, "stop") {
        Some(render_stop(data))
    } else if str_eq(command, "wait") {
        render_wait(data)
    } else if str_eq(command, "watch") {
        Some(render_watch(data))
    } else {
        None
    }
}

} // verus!
