use vstd::prelude::*;

verus! {

/// A JSON document. Numbers are kept as the text that denotes them, keys of an
/// object in the order in which they were read.
#[derive(Debug)]
pub enum JsonValue {
    Null,
    Bool(bool),
    Number(String),
    String(String),
    Array(Vec<JsonValue>),
    Object(Vec<(String, JsonValue)>),
}

/// The mathematical form of a [`JsonValue`].
pub enum JsonView {
    Null,
    Bool(bool),
    Number(Seq<char>),
    Str(Seq<char>),
    Array(Seq<JsonView>),
    Object(Seq<(Seq<char>, JsonView)>),
}

pub open spec fn json_view(v: JsonValue) -> JsonView
    decreases v, 0nat,
{
    match v {
        JsonValue::Null => JsonView::Null,
        JsonValue::Bool(b) => JsonView::Bool(b),
        JsonValue::Number(n) => JsonView::Number(n@),
        JsonValue::String(s) => JsonView::Str(s@),
        JsonValue::Array(items) => JsonView::Array(json_views(items@)),
        JsonValue::Object(entries) => JsonView::Object(json_entry_views(entries@)),
    }
}

pub open spec fn json_views(s: Seq<JsonValue>) -> Seq<JsonView>
    decreases s, 1nat,
{
    if s.len() == 0 {
        Seq::empty()
    } else {
        json_views(s.drop_last()).push(json_view(s.last()))
    }
}

pub open spec fn json_entry_views(s: Seq<(String, JsonValue)>) -> Seq<(Seq<char>, JsonView)>
    decreases s, 1nat,
{
    if s.len() == 0 {
        Seq::empty()
    } else {
        json_entry_views(s.drop_last()).push((s.last().0@, json_view(s.last().1)))
    }
}

impl View for JsonValue {
    type V = JsonView;

    open spec fn view(&self) -> JsonView {
        json_view(*self)
    }
}


pub open spec fn entries_get(es: Seq<(Seq<char>, JsonView)>, key: Seq<char>) -> Option<JsonView>
    decreases es.len(),
{
    if es.len() == 0 {
        None
    } else if es[0].0 == key {
        Some(es[0].1)
    } else {
        entries_get(es.drop_first(), key)
    }
}

/// The first member named `key` of an object.
pub open spec fn jget(v: JsonView, key: Seq<char>) -> Option<JsonView> {
    match v {
        JsonView::Object(es) => entries_get(es, key),
        _ => None,
    }
}

/// The text of a value, when it is one.
pub open spec fn jstr(v: Option<JsonView>) -> Option<Seq<char>> {
    match v {
        Some(JsonView::Str(s)) => Some(s),
        _ => None,
    }
}

/// The boolean of a value, when it is one.
pub open spec fn jbool(v: Option<JsonView>) -> Option<bool> {
    match v {
        Some(JsonView::Bool(b)) => Some(b),
        _ => None,
    }
}

/// The items of a value, when it is an array.
pub open spec fn jarray(v: Option<JsonView>) -> Option<Seq<JsonView>> {
    match v {
        Some(JsonView::Array(items)) => Some(items),
        _ => None,
    }
}

/// The string member `key` of `v`.
pub open spec fn jget_str(v: JsonView, key: Seq<char>) -> Option<Seq<char>> {
    jstr(jget(v, key))
}

pub open spec fn opt_json_view(v: Option<&JsonValue>) -> Option<JsonView> {
    match v {
        Some(x) => Some(x@),
        None => None,
    }
}

pub proof fn lemma_json_views_index(s: Seq<JsonValue>, i: int)
    requires
        0 <= i < s.len(),
    ensures
        json_views(s).len() == s.len(),
        json_views(s)[i] == json_view(s[i]),
    decreases s.len(),
{
    if i < s.len() - 1 {
        lemma_json_views_index(s.drop_last(), i);
    }
    lemma_json_views_len(s);
}

pub proof fn lemma_json_views_len(s: Seq<JsonValue>)
    ensures
        json_views(s).len() == s.len(),
    decreases s.len(),
{
    if s.len() > 0 {
        lemma_json_views_len(s.drop_last());
    }
}

pub proof fn lemma_entry_views_len(s: Seq<(String, JsonValue)>)
    ensures
        json_entry_views(s).len() == s.len(),
    decreases s.len(),
{
    if s.len() > 0 {
        lemma_entry_views_len(s.drop_last());
    }
}

pub proof fn lemma_entry_views_index(s: Seq<(String, JsonValue)>, i: int)
    requires
        0 <= i < s.len(),
    ensures
        json_entry_views(s).len() == s.len(),
        json_entry_views(s)[i] == (s[i].0@, json_view(s[i].1)),
    decreases s.len(),
{
    if i < s.len() - 1 {
        lemma_entry_views_index(s.drop_last(), i);
    }
    lemma_entry_views_len(s);
}

/// `entries_get` finds the first entry with the key.
pub proof fn lemma_entries_get_first(es: Seq<(Seq<char>, JsonView)>, key: Seq<char>, i: int)
    requires
        0 <= i <= es.len(),
        forall|j: int| 0 <= j < i ==> (#[trigger] es[j]).0 != key,
    ensures
        i == es.len() ==> entries_get(es, key) is None,
        i < es.len() && es[i].0 == key ==> entries_get(es, key) == Some(es[i].1),
    decreases i,
{
    if i > 0 {
        assert(es[0].0 != key);
        assert forall|j: int| 0 <= j < i - 1 implies (#[trigger] es.drop_first()[j]).0 != key by {
            assert(es.drop_first()[j] == es[j + 1]);
        }
        lemma_entries_get_first(es.drop_first(), key, i - 1);
        if i < es.len() {
            assert(es.drop_first()[i - 1] == es[i]);
        }
    }
}

/// The first member named `key`.
#[verifier::loop_isolation(false)]
pub fn member<'a>(entries: &'a Vec<(String, JsonValue)>, key: &str) -> (r: Option<&'a JsonValue>)
    ensures
        opt_json_view(r) == entries_get(json_entry_views(entries@), key@),
{
    let mut i: usize = 0;
    proof {
        lemma_entry_views_len(entries@);
    }
    while i < entries.len()
        invariant
            i <= entries@.len(),
            json_entry_views(entries@).len() == entries@.len(),
            forall|j: int| 0 <= j < i ==> (#[trigger] json_entry_views(entries@)[j]).0 != key@,
        decreases entries@.len() - i,
    {
        proof {
            lemma_entry_views_index(entries@, i as int);
        }
        if crate::text::str_eq(entries[i].0.as_str(), key) {
            proof {
                lemma_entries_get_first(json_entry_views(entries@), key@, i as int);
            }
            return Some(&entries[i].1);
        }
        i = i + 1;
    }
    proof {
        lemma_entries_get_first(json_entry_views(entries@), key@, i as int);
    }
    None
}

impl JsonValue {
    /// A deep copy.
    #[verifier::loop_isolation(false)]
    pub fn copy(&self) -> (r: JsonValue)
        ensures
            r@ == self@,
        decreases self,
    {
        match self {
            JsonValue::Null => JsonValue::Null,
            JsonValue::Bool(b) => JsonValue::Bool(*b),
            JsonValue::Number(n) => JsonValue::Number(n.clone()),
            JsonValue::String(t) => JsonValue::String(t.clone()),
            JsonValue::Array(items) => {
                let mut out: Vec<JsonValue> = Vec::new();
                let mut i: usize = 0;
                while i < items.len()
                    invariant
                        i <= items@.len(),
                        json_views(out@) == json_views(items@.subrange(0, i as int)),
                    decreases items@.len() - i,
                {
                    proof {
                        assert(decreases_to!(*items => items[i as int]));
                    }
                    let x = items[i].copy();
                    let ghost prev = out@;
                    out.push(x);
                    proof {
                        let a = items@.subrange(0, i + 1);
                        assert(a.drop_last() == items@.subrange(0, i as int));
                        assert(a.last() == items@[i as int]);
                        assert(out@.drop_last() == prev);
                    }
                    i = i + 1;
                }
                assert(items@.subrange(0, items@.len() as int) == items@);
                JsonValue::Array(out)
            },
            JsonValue::Object(entries) => {
                let mut out: Vec<(String, JsonValue)> = Vec::new();
                let mut i: usize = 0;
                while i < entries.len()
                    invariant
                        i <= entries@.len(),
                        json_entry_views(out@) == json_entry_views(entries@.subrange(0, i as int)),
                    decreases entries@.len() - i,
                {
                    proof {
                        assert(decreases_to!(*entries => entries[i as int]));
                    }
                    let k = entries[i].0.clone();
                    let x = entries[i].1.copy();
                    let ghost prev = out@;
                    out.push((k, x));
                    proof {
                        let a = entries@.subrange(0, i + 1);
                        assert(a.drop_last() == entries@.subrange(0, i as int));
                        assert(a.last() == entries@[i as int]);
                        assert(out@.drop_last() == prev);
                    }
                    i = i + 1;
                }
                assert(entries@.subrange(0, entries@.len() as int) == entries@);
                JsonValue::Object(out)
            },
        }
    }

    /// The first member named `key`, when this is an object.
    pub fn get(&self, key: &str) -> (r: Option<&JsonValue>)
        ensures
            opt_json_view(r) == jget(self@, key@),
    {
        match self {
            JsonValue::Object(entries) => member(entries, key),
            _ => None,
        }
    }

    /// The text of a value, when it is one.
    pub fn as_str(&self) -> (r: Option<&str>)
        ensures
            match r {
                Some(s) => jstr(Some(self@)) == Some(s@),
                None => jstr(Some(self@)) is None,
            },
    {
        match self {
            JsonValue::String(s) => Some(s.as_str()),
            _ => None,
        }
    }

    /// The boolean of a value, when it is one.
    pub fn as_bool(&self) -> (r: Option<bool>)
        ensures
            r == jbool(Some(self@)),
    {
        match self {
            JsonValue::Bool(b) => Some(*b),
            _ => None,
        }
    }

    /// The string member `key`, if there is one.
    pub fn get_str(&self, key: &str) -> (r: Option<&str>)
        ensures
            match r {
                Some(s) => jget_str(self@, key@) == Some(s@),
                None => jget_str(self@, key@) is None,
            },
    {
        match self.get(key) {
            Some(v) => v.as_str(),
            None => None,
        }
    }

    /// The items of a value, when it is an array.
    pub fn as_array(&self) -> (r: Option<&Vec<JsonValue>>)
        ensures
            match r {
                Some(a) => jarray(Some(self@)) == Some(json_views(a@)),
                None => jarray(Some(self@)) is None,
            },
    {
        match self {
            JsonValue::Array(a) => Some(a),
            _ => None,
        }
    }

    /// The array member `key`, if there is one.
    pub fn get_array(&self, key: &str) -> (r: Option<&Vec<JsonValue>>)
        ensures
            match r {
                Some(a) => jarray(jget(self@, key@)) == Some(json_views(a@)),
                None => jarray(jget(self@, key@)) is None,
            },
    {
        match self.get(key) {
            Some(v) => v.as_array(),
            None => None,
        }
    }

    /// The boolean member `key`, if there is one.
    pub fn get_bool(&self, key: &str) -> (r: Option<bool>)
        ensures
            r == jbool(jget(self@, key@)),
    {
        match self.get(key) {
            Some(v) => v.as_bool(),
            None => None,
        }
    }
}

} // verus!

verus! {

pub open spec fn is_digit_char(c: char) -> bool {
    '0' <= c && c <= '9'
}

/// The value of a string of decimal digits.
pub open spec fn digits_value(s: Seq<char>) -> nat
    decreases s.len(),
{
    if s.len() == 0 {
        0
    } else {
        digits_value(s.drop_last()) * 10 + ((s.last() as u32) - 0x30) as nat
    }
}

/// The number of a value as a `u64`: a number written with digits only, that fits in 64 bits.
pub open spec fn json_u64(v: Option<JsonView>) -> Option<u64> {
    match v {
        Some(JsonView::Number(t)) => if t.len() > 0 && (forall|i: int| 0 <= i < t.len() ==> is_digit_char(#[trigger] t[i]))
            && digits_value(t) <= u64::MAX {
            Some(digits_value(t) as u64)
        } else {
            None
        },
        _ => None,
    }
}

pub fn digits_u64(t: &str) -> (r: Option<u64>)
    ensures
        r == (if t@.len() > 0 && (forall|i: int| 0 <= i < t@.len() ==> is_digit_char(#[trigger] t@[i]))
            && digits_value(t@) <= u64::MAX {
            Some(digits_value(t@) as u64)
        } else {
            None
        }),
{
    let v = crate::text::chars_of(t);
    if v.len() == 0 {
        return None;
    }
    let mut acc: u64 = 0;
    let mut overflow = false;
    let mut i: usize = 0;
    while i < v.len()
        invariant
            i <= v@.len(),
            v@ == t@,
            forall|j: int| 0 <= j < i ==> is_digit_char(#[trigger] v@[j]),
            !overflow ==> acc as nat == digits_value(v@.subrange(0, i as int)),
            overflow ==> digits_value(v@.subrange(0, i as int)) > u64::MAX,
        decreases v@.len() - i,
    {
        let c = v[i];
        if !('0' <= c && c <= '9') {
            proof {
                assert(!is_digit_char(t@[i as int]));
            }
            return None;
        }
        let d = (c as u32 - 0x30) as u64;
        let ghost pre = v@.subrange(0, i + 1);
        assert(pre.drop_last() == v@.subrange(0, i as int));
        assert(pre.last() == c);
        assert(digits_value(pre) == digits_value(v@.subrange(0, i as int)) * 10 + d);
        if !overflow {
            if acc > (u64::MAX - d) / 10 {
                overflow = true;
                assert(acc * 10 + d > u64::MAX) by (nonlinear_arith)
                    requires
                        acc > (u64::MAX - d) / 10,
                        d <= 9,
                ;
            } else {
                assert(acc * 10 + d <= u64::MAX) by (nonlinear_arith)
                    requires
                        acc <= (u64::MAX - d) / 10,
                        d <= 9,
                ;
                acc = acc * 10 + d;
            }
        } else {
            assert(digits_value(v@.subrange(0, i as int)) * 10 + d > u64::MAX) by (nonlinear_arith)
                requires
                    digits_value(v@.subrange(0, i as int)) > u64::MAX,
            ;
        }
        i = i + 1;
    }
    assert(v@.subrange(0, v@.len() as int) == v@);
    if overflow {
        None
    } else {
        Some(acc)
    }
}

impl JsonValue {
    /// The number of this value as a `u64`, when it is one that fits.
    pub fn as_u64(&self) -> (r: Option<u64>)
        ensures
            r == json_u64(Some(self@)),
    {
        match self {
            JsonValue::Number(t) => digits_u64(t.as_str()),
            _ => None,
        }
    }
}

} // verus!

verus! {

/// The views of the entries, position by position.
pub proof fn lemma_entry_views_new(es: Seq<(String, JsonValue)>)
    ensures
        json_entry_views(es) == Seq::new(es.len(), |i: int| (es[i].0@, es[i].1@)),
{
    lemma_entry_views_len(es);
    assert forall|i: int| 0 <= i < es.len() implies #[trigger] json_entry_views(es)[i] == (es[i].0@, es[i].1@) by {
        lemma_entry_views_index(es, i);
    }
    assert(json_entry_views(es) =~= Seq::new(es.len(), |i: int| (es[i].0@, es[i].1@)));
}

/// The views of the values, position by position.
pub proof fn lemma_json_views_new(vs: Seq<JsonValue>)
    ensures
        json_views(vs) == Seq::new(vs.len(), |i: int| vs[i]@),
{
    lemma_json_views_len(vs);
    assert forall|i: int| 0 <= i < vs.len() implies #[trigger] json_views(vs)[i] == vs[i]@ by {
        lemma_json_views_index(vs, i);
    }
    assert(json_views(vs) =~= Seq::new(vs.len(), |i: int| vs[i]@));
}

/// The members of an object but those named `key`.
pub open spec fn entries_without(es: Seq<(Seq<char>, JsonView)>, key: Seq<char>) -> Seq<(Seq<char>, JsonView)>
    decreases es.len(),
{
    if es.len() == 0 {
        Seq::empty()
    } else {
        let r = entries_without(es.drop_last(), key);
        if es.last().0 == key {
            r
        } else {
            r.push(es.last())
        }
    }
}

/// The members of an object with `key` set to `v` (`Map::insert`): any old
/// member of that name goes, the new one comes last.
pub open spec fn entries_with(es: Seq<(Seq<char>, JsonView)>, key: Seq<char>, v: JsonView) -> Seq<(Seq<char>, JsonView)> {
    entries_without(es, key).push((key, v))
}

/// No member that `entries_without` keeps is named `key`.
pub proof fn lemma_entries_without_lacks(es: Seq<(Seq<char>, JsonView)>, key: Seq<char>)
    ensures
        forall|j: int| 0 <= j < entries_without(es, key).len() ==> (#[trigger] entries_without(es, key)[j]).0 != key,
    decreases es.len(),
{
    if es.len() > 0 {
        lemma_entries_without_lacks(es.drop_last(), key);
        let r = entries_without(es.drop_last(), key);
        if es.last().0 != key {
            assert forall|j: int| 0 <= j < r.push(es.last()).len() implies (#[trigger] r.push(es.last())[j]).0 != key by {
                if j < r.len() {
                    assert(r.push(es.last())[j] == r[j]);
                }
            }
        }
    }
}

/// A member that was just set is what reading that member gives back.
pub proof fn lemma_get_after_with(es: Seq<(Seq<char>, JsonView)>, key: Seq<char>, v: JsonView)
    ensures
        entries_get(entries_with(es, key, v), key) == Some(v),
        jget(JsonView::Object(entries_with(es, key, v)), key) == Some(v),
{
    let w = entries_with(es, key, v);
    let r = entries_without(es, key);
    lemma_entries_without_lacks(es, key);
    assert forall|j: int| 0 <= j < r.len() implies (#[trigger] w[j]).0 != key by {
        assert(w[j] == r[j]);
    }
    lemma_entries_get_first(w, key, r.len() as int);
}

/// The members of a value that is an object; none for any other value.
pub open spec fn object_entries(v: JsonView) -> Seq<(Seq<char>, JsonView)> {
    match v {
        JsonView::Object(es) => es,
        _ => Seq::empty(),
    }
}

/// A copy of the members but those named `key`.
pub fn without_member(es: &Vec<(String, JsonValue)>, key: &str) -> (r: Vec<(String, JsonValue)>)
    ensures
        json_entry_views(r@) == entries_without(json_entry_views(es@), key@),
{
    let ghost ev = json_entry_views(es@);
    proof {
        lemma_entry_views_len(es@);
    }
    let mut out: Vec<(String, JsonValue)> = Vec::new();
    let mut i: usize = 0;
    while i < es.len()
        invariant
            i <= es@.len(),
            ev == json_entry_views(es@),
            ev.len() == es@.len(),
            json_entry_views(out@) == entries_without(ev.subrange(0, i as int), key@),
        decreases es@.len() - i,
    {
        proof {
            lemma_entry_views_index(es@, i as int);
            let a = ev.subrange(0, i + 1);
            assert(a.drop_last() =~= ev.subrange(0, i as int));
            assert(a.last() == ev[i as int]);
        }
        if !crate::text::str_eq(es[i].0.as_str(), key) {
            let ghost before = out@;
            let e = (crate::text::copy_str(es[i].0.as_str()), es[i].1.copy());
            out.push(e);
            assert(out@.drop_last() =~= before);
            assert(out@.last() == e);
        }
        i = i + 1;
    }
    assert(ev.subrange(0, es@.len() as int) =~= ev);
    out
}

/// The members with `key` set to `v`.
pub fn with_member(es: &Vec<(String, JsonValue)>, key: &str, v: JsonValue) -> (r: Vec<(String, JsonValue)>)
    ensures
        json_entry_views(r@) == entries_with(json_entry_views(es@), key@, v@),
{
    let mut out = without_member(es, key);
    let ghost before = out@;
    let e = (crate::text::copy_str(key), v);
    out.push(e);
    assert(out@.drop_last() =~= before);
    assert(out@.last() == e);
    out
}

/// A copy of the members, in order.
pub fn copy_entries(es: &Vec<(String, JsonValue)>) -> (r: Vec<(String, JsonValue)>)
    ensures
        json_entry_views(r@) == json_entry_views(es@),
{
    let mut out: Vec<(String, JsonValue)> = Vec::new();
    let mut i: usize = 0;
    while i < es.len()
        invariant
            i <= es@.len(),
            json_entry_views(out@) == json_entry_views(es@.subrange(0, i as int)),
        decreases es@.len() - i,
    {
        let k = es[i].0.clone();
        let x = es[i].1.copy();
        let ghost prev = out@;
        out.push((k, x));
        proof {
            let a = es@.subrange(0, i + 1);
            assert(a.drop_last() == es@.subrange(0, i as int));
            assert(a.last() == es@[i as int]);
            assert(out@.drop_last() == prev);
        }
        i = i + 1;
    }
    assert(es@.subrange(0, es@.len() as int) == es@);
    out
}

/// A copy of the values, in order.
pub fn copy_values(vs: &Vec<JsonValue>) -> (r: Vec<JsonValue>)
    ensures
        json_views(r@) == json_views(vs@),
{
    let mut out: Vec<JsonValue> = Vec::new();
    let mut i: usize = 0;
    while i < vs.len()
        invariant
            i <= vs@.len(),
            json_views(out@) == json_views(vs@.subrange(0, i as int)),
        decreases vs@.len() - i,
    {
        let ghost before = out@;
        let x = vs[i].copy();
        out.push(x);
        proof {
            let a = vs@.subrange(0, i + 1);
            assert(a.drop_last() =~= vs@.subrange(0, i as int));
            assert(out@.drop_last() =~= before);
        }
        i = i + 1;
    }
    assert(vs@.subrange(0, vs@.len() as int) =~= vs@);
    out
}

} // verus!
