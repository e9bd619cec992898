use vstd::prelude::*;
use vstd::string::StringExecFns;
use crate::json::{
    json_entry_views, json_view, json_views, lemma_entry_views_index, lemma_entry_views_len,
    lemma_json_views_index, lemma_json_views_len, JsonValue, JsonView,
};
use crate::server::auth::hex_digit_lower;
use crate::text::{chars_of, copy_str, push_char};

verus! {

/// How one character of a string is written inside JSON quotes: `"` and `\`
/// behind a backslash, the usual short escapes, other control characters as
/// `\u00` and two lower-case hex digits, everything else as itself.
pub open spec fn escape_char(c: char) -> Seq<char> {
    if c == '"' {
        seq!['\\', '"']
    } else if c == '\\' {
        seq!['\\', '\\']
    } else if c == '\n' {
        seq!['\\', 'n']
    } else if c == '\r' {
        seq!['\\', 'r']
    } else if c == '\t' {
        seq!['\\', 't']
    } else if c == '\u{8}' {
        seq!['\\', 'b']
    } else if c == '\u{c}' {
        seq!['\\', 'f']
    } else if (c as u32) < 0x20 {
        seq![
            '\\',
            'u',
            '0',
            '0',
            hex_digit_lower(((c as u32) / 16) as u8),
            hex_digit_lower(((c as u32) % 16) as u8),
        ]
    } else {
        seq![c]
    }
}

pub open spec fn escape_str(s: Seq<char>) -> Seq<char>
    decreases s.len(),
{
    if s.len() == 0 {
        Seq::empty()
    } else {
        escape_str(s.drop_last()) + escape_char(s.last())
    }
}

/// A JSON string literal.
pub open spec fn quoted(s: Seq<char>) -> Seq<char> {
    seq!['"'] + escape_str(s) + seq!['"']
}

/// The JSON text of a value, as the library hands it to `serde_json` to be
/// read and written out: no whitespace, members in their order.
pub open spec fn json_text(v: JsonView) -> Seq<char>
    decreases v, 0nat,
{
    match v {
        JsonView::Null => "null"@,
        JsonView::Bool(b) => if b {
            "true"@
        } else {
            "false"@
        },
        JsonView::Number(n) => n,
        JsonView::Str(s) => quoted(s),
        JsonView::Array(items) => seq!['['] + items_text(items) + seq![']'],
        JsonView::Object(es) => seq!['{'] + entries_text(es) + seq!['}'],
    }
}

/// The texts of `items`, separated by commas.
pub open spec fn items_text(items: Seq<JsonView>) -> Seq<char>
    decreases items, 1nat,
{
    if items.len() == 0 {
        Seq::empty()
    } else if items.len() == 1 {
        json_text(items[0])
    } else {
        items_text(items.drop_last()) + seq![','] + json_text(items.last())
    }
}

/// The members `"key":value`, separated by commas.
pub open spec fn entries_text(es: Seq<(Seq<char>, JsonView)>) -> Seq<char>
    decreases es, 1nat,
{
    if es.len() == 0 {
        Seq::empty()
    } else if es.len() == 1 {
        quoted(es[0].0) + seq![':'] + json_text(es[0].1)
    } else {
        entries_text(es.drop_last()) + seq![','] + quoted(es.last().0) + seq![':'] + json_text(
            es.last().1,
        )
    }
}

fn hex_char(n: u32) -> (c: char)
    requires
        n < 16,
    ensures
        c == hex_digit_lower(n as u8),
{
    if n < 10 {
        ((n + 0x30) as u8) as char
    } else {
        ((n - 10 + 0x61) as u8) as char
    }
}

fn push_escaped(out: &mut String, s: &str)
    ensures
        final(out)@ == old(out)@ + escape_str(s@),
{
    let v = chars_of(s);
    let ghost start = out@;
    let mut i: usize = 0;
    while i < v.len()
        invariant
            i <= v@.len(),
            v@ == s@,
            out@ == start + escape_str(v@.subrange(0, i as int)),
        decreases v@.len() - i,
    {
        let c = v[i];
        let ghost pre = v@.subrange(0, i + 1);
        assert(pre.drop_last() == v@.subrange(0, i as int));
        assert(pre.last() == c);
        let ghost before = out@;
        if c == '"' {
            push_char(out, '\\');
            push_char(out, '"');
        } else if c == '\\' {
            push_char(out, '\\');
            push_char(out, '\\');
        } else if c == '\n' {
            push_char(out, '\\');
            push_char(out, 'n');
        } else if c == '\r' {
            push_char(out, '\\');
            push_char(out, 'r');
        } else if c == '\t' {
            push_char(out, '\\');
            push_char(out, 't');
        } else if c == '\u{8}' {
            push_char(out, '\\');
            push_char(out, 'b');
        } else if c == '\u{c}' {
            push_char(out, '\\');
            push_char(out, 'f');
        } else if (c as u32) < 0x20 {
            let code = c as u32;
            push_char(out, '\\');
            push_char(out, 'u');
            push_char(out, '0');
            push_char(out, '0');
            push_char(out, hex_char(code / 16));
            push_char(out, hex_char(code % 16));
        } else {
            push_char(out, c);
        }
        assert(out@ == before + escape_char(c));
        assert(start + escape_str(pre) == start + escape_str(v@.subrange(0, i as int)) + escape_char(c));
        i = i + 1;
    }
    assert(v@.subrange(0, v@.len() as int) == v@);
}

fn push_quoted(out: &mut String, s: &str)
    ensures
        final(out)@ == old(out)@ + quoted(s@),
{
    push_char(out, '"');
    push_escaped(out, s);
    push_char(out, '"');
}

proof fn lemma_items_text_push(items: Seq<JsonView>, x: JsonView)
    ensures
        items_text(items.push(x)) == if items.len() == 0 {
            json_text(x)
        } else {
            items_text(items) + seq![','] + json_text(x)
        },
{
    let p = items.push(x);
    assert(p.drop_last() == items);
    assert(p.last() == x);
    if items.len() == 0 {
        assert(p[0] == x);
    }
}

proof fn lemma_entries_text_push(es: Seq<(Seq<char>, JsonView)>, k: Seq<char>, x: JsonView)
    ensures
        entries_text(es.push((k, x))) == if es.len() == 0 {
            quoted(k) + seq![':'] + json_text(x)
        } else {
            entries_text(es) + seq![','] + quoted(k) + seq![':'] + json_text(x)
        },
{
    let p = es.push((k, x));
    assert(p.drop_last() == es);
    assert(p.last() == (k, x));
    if es.len() == 0 {
        assert(p[0] == (k, x));
    }
}

impl JsonValue {
    /// Appends the compact JSON text of the value.
    #[verifier::loop_isolation(false)]
    #[verifier::spinoff_prover]
    #[verifier::rlimit(60)]
    pub fn write_json(&self, out: &mut String)
        ensures
            final(out)@ == old(out)@ + json_text(self@),
        decreases self,
    {
        match self {
            JsonValue::Null => {
                out.append("null");
            },
            JsonValue::Bool(b) => {
                if *b {
                    out.append("true");
                } else {
                    out.append("false");
                }
            },
            JsonValue::Number(n) => {
                out.append(n.as_str());
            },
            JsonValue::String(t) => {
                push_quoted(out, t.as_str());
            },
            JsonValue::Array(items) => {
                let ghost start = out@;
                push_char(out, '[');
                let mut i: usize = 0;
                assert(items@.subrange(0, 0) == Seq::<JsonValue>::empty());
                while i < items.len()
                    invariant
                        i <= items@.len(),
                        out@ == start + seq!['['] + items_text(
                            json_views(items@.subrange(0, i as int)),
                        ),
                    decreases items@.len() - i,
                {
                    proof {
                        assert(decreases_to!(*items => items[i as int]));
                        let a = items@.subrange(0, i + 1);
                        assert(a.drop_last() == items@.subrange(0, i as int));
                        assert(a.last() == items@[i as int]);
                        lemma_json_views_len(items@.subrange(0, i as int));
                        lemma_items_text_push(
                            json_views(items@.subrange(0, i as int)),
                            json_view(items@[i as int]),
                        );
                    }
                    if i > 0 {
                        push_char(out, ',');
                    }
                    items[i].write_json(out);
                    i = i + 1;
                }
                push_char(out, ']');
                assert(items@.subrange(0, items@.len() as int) == items@);
            },
            JsonValue::Object(entries) => {
                let ghost start = out@;
                push_char(out, '{');
                let mut i: usize = 0;
                while i < entries.len()
                    invariant
                        i <= entries@.len(),
                        out@ == start + seq!['{'] + entries_text(
                            json_entry_views(entries@.subrange(0, i as int)),
                        ),
                    decreases entries@.len() - i,
                {
                    proof {
                        assert(decreases_to!(*entries => entries[i as int]));
                        let a = entries@.subrange(0, i + 1);
                        assert(a.drop_last() == entries@.subrange(0, i as int));
                        assert(a.last() == entries@[i as int]);
                        lemma_entry_views_len(entries@.subrange(0, i as int));
                        lemma_entries_text_push(
                            json_entry_views(entries@.subrange(0, i as int)),
                            entries@[i as int].0@,
                            json_view(entries@[i as int].1),
                        );
                    }
                    if i > 0 {
                        push_char(out, ',');
                    }
                    push_quoted(out, entries[i].0.as_str());
                    push_char(out, ':');
                    entries[i].1.write_json(out);
                    i = i + 1;
                }
                push_char(out, '}');
                assert(entries@.subrange(0, entries@.len() as int) == entries@);
            },
        }
    }

    /// The compact JSON text of the value.
    pub fn to_json_text(&self) -> (r: String)
        ensures
            r@ == json_text(self@),
    {
        let mut out = String::new();
        self.write_json(&mut out);
        out
    }

    /// The value as `serde_json` writes it, compactly.
    pub fn to_compact_text(&self) -> (r: String)
        ensures
            r@ == compact_text(self@),
    {
        serde_compact(self.to_json_text().as_str())
    }

    /// The value as `serde_json` writes it, pretty-printed.
    pub fn to_pretty_text(&self) -> (r: String)
        ensures
            r@ == pretty_text(self@),
    {
        serde_pretty(self.to_json_text().as_str())
    }
}

/// What `serde_json::Value::to_string` writes for the value that
/// `serde_json::from_str` reads from `text`; empty when it cannot read `text`.
pub uninterp spec fn spec_serde_compact(text: Seq<char>) -> Seq<char>;

/// What `serde_json::to_string_pretty` writes for the value that
/// `serde_json::from_str` reads from `text`; empty when it cannot read `text`.
pub uninterp spec fn spec_serde_pretty(text: Seq<char>) -> Seq<char>;

/// `serde_json::from_str` into a `serde_json::Value`, then `to_string`.
#[verifier::external_body]
fn serde_compact(text: &str) -> (r: String)
    ensures
        r@ == spec_serde_compact(text@),
{
    match serde_json::from_str::<serde_json::Value>(text) {
        Ok(v) => v.to_string(),
        Err(_) => String::new(),
    }
}

/// `serde_json::from_str` into a `serde_json::Value`, then `to_string_pretty`.
#[verifier::external_body]
fn serde_pretty(text: &str) -> (r: String)
    ensures
        r@ == spec_serde_pretty(text@),
{
    match serde_json::from_str::<serde_json::Value>(text) {
        Ok(v) => serde_json::to_string_pretty(&v).unwrap_or_default(),
        Err(_) => String::new(),
    }
}

/// A value as `serde_json` writes it, compactly: its JSON text, read and
/// written again by `serde_json`.
pub open spec fn compact_text(v: JsonView) -> Seq<char> {
    spec_serde_compact(json_text(v))
}

/// A value as `serde_json` writes it, pretty-printed.
pub open spec fn pretty_text(v: JsonView) -> Seq<char> {
    spec_serde_pretty(json_text(v))
}

/// What a JSON value reads as where text is wanted: nothing for null, a
/// string's own characters, else its compact JSON text.
pub open spec fn value_text(v: Option<JsonView>) -> Option<Seq<char>> {
    match v {
        None => None,
        Some(JsonView::Null) => None,
        Some(JsonView::Str(s)) => Some(s),
        Some(other) => Some(compact_text(other)),
    }
}

pub fn value_to_opt_string(v: Option<&JsonValue>) -> (r: Option<String>)
    ensures
        crate::paths::opt_view(r) == value_text(crate::json::opt_json_view(v)),
{
    match v {
        None => None,
        Some(JsonValue::Null) => None,
        Some(JsonValue::String(s)) => Some(copy_str(s.as_str())),
        Some(other) => Some(other.to_compact_text()),
    }
}

/// What a JSON value reads as where text is wanted, null being `null`.
pub open spec fn value_string(v: JsonView) -> Seq<char> {
    match v {
        JsonView::Str(s) => s,
        other => compact_text(other),
    }
}

pub fn value_to_string_value(v: &JsonValue) -> (r: String)
    ensures
        r@ == value_string(v@),
{
    match v {
        JsonValue::String(s) => copy_str(s.as_str()),
        other => other.to_compact_text(),
    }
}

} // verus!
