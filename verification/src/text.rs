use vstd::prelude::*;
use vstd::string::{StrSliceExecFns, StringExecFns};

verus! {

/// `char::is_whitespace`: the Unicode White_Space property.
pub open spec fn spec_is_whitespace(c: char) -> bool {
    ||| ('\u{9}' <= c && c <= '\u{d}')
    ||| c == ' '
    ||| c == '\u{85}'
    ||| c == '\u{a0}'
    ||| c == '\u{1680}'
    ||| ('\u{2000}' <= c && c <= '\u{200a}')
    ||| c == '\u{2028}'
    ||| c == '\u{2029}'
    ||| c == '\u{202f}'
    ||| c == '\u{205f}'
    ||| c == '\u{3000}'
}

pub fn is_whitespace(c: char) -> (r: bool)
    ensures
        r == spec_is_whitespace(c),
{
    ('\u{9}' <= c && c <= '\u{d}') || c == ' ' || c == '\u{85}' || c == '\u{a0}' || c == '\u{1680}'
        || ('\u{2000}' <= c && c <= '\u{200a}') || c == '\u{2028}' || c == '\u{2029}' || c
        == '\u{202f}' || c == '\u{205f}' || c == '\u{3000}'
}

/// `s` without its leading whitespace.
pub open spec fn trim_start(s: Seq<char>) -> Seq<char>
    decreases s.len(),
{
    if s.len() > 0 && spec_is_whitespace(s[0]) {
        trim_start(s.drop_first())
    } else {
        s
    }
}

/// `s` without its trailing whitespace.
pub open spec fn trim_end(s: Seq<char>) -> Seq<char>
    decreases s.len(),
{
    if s.len() > 0 && spec_is_whitespace(s.last()) {
        trim_end(s.drop_last())
    } else {
        s
    }
}

/// `str::trim`: `s` without leading and trailing whitespace.
pub open spec fn trim(s: Seq<char>) -> Seq<char> {
    trim_end(trim_start(s))
}

pub open spec fn is_ascii_upper(c: char) -> bool {
    'A' <= c && c <= 'Z'
}

pub open spec fn ascii_lower_char(c: char) -> char {
    if is_ascii_upper(c) {
        ((c as u32) + 32) as char
    } else {
        c
    }
}

/// `str::to_ascii_lowercase`.
pub open spec fn ascii_lower(s: Seq<char>) -> Seq<char> {
    s.map_values(|c: char| ascii_lower_char(c))
}

pub open spec fn is_ascii_alphanumeric(c: char) -> bool {
    ('a' <= c && c <= 'z') || ('A' <= c && c <= 'Z') || ('0' <= c && c <= '9')
}

pub fn ascii_lower_one(c: char) -> (r: char)
    ensures
        r == ascii_lower_char(c),
{
    if 'A' <= c && c <= 'Z' {
        let v: u32 = c as u32 + 32;
        assert(0x61 <= v <= 0x7a);
        char_from_ascii_code(v)
    } else {
        c
    }
}

fn char_from_ascii_code(v: u32) -> (r: char)
    requires
        v < 128,
    ensures
        r == v as char,
{
    let b: u8 = v as u8;
    let r = b as char;
    r
}

pub fn is_alphanumeric_ascii(c: char) -> (r: bool)
    ensures
        r == is_ascii_alphanumeric(c),
{
    ('a' <= c && c <= 'z') || ('A' <= c && c <= 'Z') || ('0' <= c && c <= '9')
}

/// Appends one character (`String::push`).
#[verifier::external_body]
pub(crate) fn push_char(s: &mut String, c: char)
    ensures
        final(s)@ == old(s)@.push(c),
{
    s.push(c);
}

/// Compares two string slices (`str == str`).
#[verifier::external_body]
pub(crate) fn str_eq(a: &str, b: &str) -> (r: bool)
    ensures
        r == (a@ == b@),
{
    a == b
}

/// The characters of `s`, in order.
pub fn chars_of(s: &str) -> (v: Vec<char>)
    ensures
        v@ == s@,
{
    let n = s.unicode_len();
    let mut v: Vec<char> = Vec::new();
    let mut i: usize = 0;
    while i < n
        invariant
            n == s@.len(),
            i <= n,
            v@ == s@.subrange(0, i as int),
        decreases n - i,
    {
        let c = s.get_char(i);
        v.push(c);
        assert(s@.subrange(0, i + 1) == s@.subrange(0, i as int).push(c));
        i = i + 1;
    }
    assert(s@.subrange(0, n as int) == s@);
    v
}

/// The string made of the characters `v[from..to]`.
pub fn string_from_range(v: &Vec<char>, from: usize, to: usize) -> (s: String)
    requires
        from <= to <= v@.len(),
    ensures
        s@ == v@.subrange(from as int, to as int),
{
    let mut s = String::new();
    let mut i = from;
    while i < to
        invariant
            from <= i <= to <= v@.len(),
            s@ == v@.subrange(from as int, i as int),
        decreases to - i,
    {
        push_char(&mut s, v[i]);
        assert(v@.subrange(from as int, i + 1) == v@.subrange(from as int, i as int).push(v@[i as int]));
        i = i + 1;
    }
    s
}

pub fn string_from_chars(v: &Vec<char>) -> (s: String)
    ensures
        s@ == v@,
{
    let s = string_from_range(v, 0, v.len());
    assert(v@.subrange(0, v@.len() as int) == v@);
    s
}

pub fn copy_str(s: &str) -> (r: String)
    ensures
        r@ == s@,
{
    let v = chars_of(s);
    string_from_chars(&v)
}

pub proof fn lemma_trim_start_suffix(s: Seq<char>)
    ensures
        exists|k: int| 0 <= k <= s.len() && trim_start(s) == s.subrange(k, s.len() as int) && (forall|
            j: int,
        | 0 <= j < k ==> spec_is_whitespace(#[trigger] s[j])) && (k == s.len() || !spec_is_whitespace(
            s[k],
        )),
    decreases s.len(),
{
    if s.len() > 0 && spec_is_whitespace(s[0]) {
        lemma_trim_start_suffix(s.drop_first());
        let k = choose|k: int|
            0 <= k <= s.drop_first().len() && trim_start(s.drop_first()) == s.drop_first().subrange(
                k,
                s.drop_first().len() as int,
            ) && (forall|j: int| 0 <= j < k ==> spec_is_whitespace(#[trigger] s.drop_first()[j])) && (k
                == s.drop_first().len() || !spec_is_whitespace(s.drop_first()[k]));
        assert(s.drop_first().subrange(k, s.drop_first().len() as int) == s.subrange(k + 1, s.len() as int));
        assert forall|j: int| 0 <= j < k + 1 implies spec_is_whitespace(#[trigger] s[j]) by {
            if j > 0 {
                assert(s[j] == s.drop_first()[j - 1]);
            }
        }
    } else {
        assert(s.subrange(0, s.len() as int) == s);
    }
}

/// Index of the first character that is not whitespace (or the length).
fn first_non_whitespace(v: &Vec<char>) -> (k: usize)
    ensures
        k <= v@.len(),
        trim_start(v@) == v@.subrange(k as int, v@.len() as int),
{
    let mut k: usize = 0;
    assert(v@.subrange(0, v@.len() as int) == v@);
    while k < v.len() && is_whitespace(v[k])
        invariant
            k <= v@.len(),
            trim_start(v@) == trim_start(v@.subrange(k as int, v@.len() as int)),
        decreases v@.len() - k,
    {
        let ghost t = v@.subrange(k as int, v@.len() as int);
        assert(t.drop_first() == v@.subrange(k + 1, v@.len() as int));
        k = k + 1;
    }
    proof {
        let t = v@.subrange(k as int, v@.len() as int);
        if t.len() > 0 {
            assert(t[0] == v@[k as int]);
        }
    }
    k
}

/// End index after dropping trailing whitespace from `v[from..]`.
fn last_non_whitespace(v: &Vec<char>, from: usize) -> (e: usize)
    requires
        from <= v@.len(),
    ensures
        from <= e <= v@.len(),
        trim_end(v@.subrange(from as int, v@.len() as int)) == v@.subrange(from as int, e as int),
{
    let mut e: usize = v.len();
    while e > from && is_whitespace(v[e - 1])
        invariant
            from <= e <= v@.len(),
            trim_end(v@.subrange(from as int, v@.len() as int)) == trim_end(
                v@.subrange(from as int, e as int),
            ),
        decreases e,
    {
        let ghost t = v@.subrange(from as int, e as int);
        assert(t.last() == v@[e - 1]);
        assert(t.drop_last() == v@.subrange(from as int, e - 1));
        e = e - 1;
    }
    proof {
        let t = v@.subrange(from as int, e as int);
        if t.len() > 0 {
            assert(t.last() == v@[e - 1]);
        }
    }
    e
}

/// Bounds `(from, to)` of the trimmed part of `v`.
pub fn trim_bounds(v: &Vec<char>) -> (r: (usize, usize))
    ensures
        r.0 <= r.1 <= v@.len(),
        trim(v@) == v@.subrange(r.0 as int, r.1 as int),
{
    let from = first_non_whitespace(v);
    let to = last_non_whitespace(v, from);
    (from, to)
}

/// `str::trim` as an owned string.
pub fn trim_string(s: &str) -> (r: String)
    ensures
        r@ == trim(s@),
{
    let v = chars_of(s);
    let (from, to) = trim_bounds(&v);
    string_from_range(&v, from, to)
}

/// `str::to_ascii_lowercase`.
pub fn to_ascii_lowercase(s: &str) -> (r: String)
    ensures
        r@ == ascii_lower(s@),
{
    let v = chars_of(s);
    let mut r = String::new();
    let mut i: usize = 0;
    while i < v.len()
        invariant
            i <= v@.len(),
            v@ == s@,
            r@ == ascii_lower(v@.subrange(0, i as int)),
        decreases v@.len() - i,
    {
        let c = ascii_lower_one(v[i]);
        push_char(&mut r, c);
        assert(ascii_lower(v@.subrange(0, i + 1)) == ascii_lower(v@.subrange(0, i as int)).push(c));
        i = i + 1;
    }
    assert(v@.subrange(0, v@.len() as int) == v@);
    r
}

/// Equality of two strings up to ASCII case (`str::eq_ignore_ascii_case`).
pub open spec fn eq_ignore_ascii_case(a: Seq<char>, b: Seq<char>) -> bool {
    ascii_lower(a) == ascii_lower(b)
}

/// The result of `str::to_lowercase`, the full Unicode lowercase mapping.
pub uninterp spec fn spec_to_lowercase(s: Seq<char>) -> Seq<char>;

/// Calls `str::to_lowercase`. Its result is a function of its argument alone,
/// which is all that this contract claims; the Unicode mapping itself is left unsaid.
#[verifier::external_body]
pub(crate) fn to_lowercase(s: &str) -> (r: String)
    ensures
        r@ == spec_to_lowercase(s@),
{
    s.to_lowercase()
}

} // verus!

verus! {

/// `a + b` as a new string.
pub fn concat2(a: &str, b: &str) -> (r: String)
    ensures
        r@ == a@ + b@,
{
    let mut r = copy_str(a);
    r.append(b);
    r
}

/// `a + b + c` as a new string.
pub fn concat3(a: &str, b: &str, c: &str) -> (r: String)
    ensures
        r@ == a@ + b@ + c@,
{
    let mut r = copy_str(a);
    r.append(b);
    r.append(c);
    r
}

} // verus!

verus! {

/// `str::eq_ignore_ascii_case`.
pub fn eq_ignore_case(a: &str, b: &str) -> (r: bool)
    ensures
        r == eq_ignore_ascii_case(a@, b@),
{
    let la = to_ascii_lowercase(a);
    let lb = to_ascii_lowercase(b);
    str_eq(la.as_str(), lb.as_str())
}

/// `v[from..]` as a string.
pub fn string_from(v: &Vec<char>, from: usize) -> (s: String)
    requires
        from <= v@.len(),
    ensures
        s@ == v@.subrange(from as int, v@.len() as int),
{
    string_from_range(v, from, v.len())
}

} // verus!

verus! {

/// The pieces of `s` between occurrences of `sep`, `cur` being the start of
/// the first piece (`str::split`).
pub open spec fn split_from(s: Seq<char>, sep: char, cur: Seq<char>) -> Seq<Seq<char>>
    decreases s.len(),
{
    if s.len() == 0 {
        seq![cur]
    } else if s[0] == sep {
        seq![cur] + split_from(s.drop_first(), sep, Seq::empty())
    } else {
        split_from(s.drop_first(), sep, cur.push(s[0]))
    }
}

/// `s.split(sep)`: the pieces of `s` between occurrences of `sep`.
pub open spec fn split_char(s: Seq<char>, sep: char) -> Seq<Seq<char>> {
    split_from(s, sep, Seq::empty())
}

/// The pieces, each trimmed, without those that are empty after trimming.
pub open spec fn trimmed_nonempty(p: Seq<Seq<char>>) -> Seq<Seq<char>>
    decreases p.len(),
{
    if p.len() == 0 {
        Seq::empty()
    } else {
        let t = trim(p[0]);
        let rest = trimmed_nonempty(p.drop_first());
        if t.len() > 0 {
            seq![t] + rest
        } else {
            rest
        }
    }
}

pub open spec fn string_views(v: Seq<String>) -> Seq<Seq<char>> {
    Seq::new(v.len(), |i: int| v[i]@)
}

proof fn lemma_trimmed_nonempty_cons(x: Seq<char>, rest: Seq<Seq<char>>)
    ensures
        trimmed_nonempty(seq![x] + rest) == (if trim(x).len() > 0 {
            seq![trim(x)]
        } else {
            Seq::<Seq<char>>::empty()
        }) + trimmed_nonempty(rest),
{
    let p = seq![x] + rest;
    assert(p[0] == x);
    assert(p.drop_first() == rest);
    if trim(x).len() == 0 {
        assert(Seq::<Seq<char>>::empty() + trimmed_nonempty(rest) == trimmed_nonempty(rest));
    }
}

/// `s.split(sep).map(str::trim).filter(|p| !p.is_empty())`, collected as
/// owned strings.
pub fn split_trimmed(s: &str, sep: char) -> (r: Vec<String>)
    ensures
        string_views(r@) == trimmed_nonempty(split_char(s@, sep)),
{
    let v = chars_of(s);
    let mut out: Vec<String> = Vec::new();
    let mut cur: Vec<char> = Vec::new();
    let mut i: usize = 0;
    assert(v@.subrange(0, v@.len() as int) == v@);
    assert(string_views(out@) == Seq::<Seq<char>>::empty());
    assert(Seq::<Seq<char>>::empty() + trimmed_nonempty(split_char(s@, sep)) == trimmed_nonempty(
        split_char(s@, sep),
    ));
    while i < v.len()
        invariant
            i <= v@.len(),
            v@ == s@,
            string_views(out@) + trimmed_nonempty(
                split_from(v@.subrange(i as int, v@.len() as int), sep, cur@),
            ) == trimmed_nonempty(split_char(s@, sep)),
        decreases v@.len() - i,
    {
        let ghost t = v@.subrange(i as int, v@.len() as int);
        assert(t[0] == v@[i as int]);
        assert(t.drop_first() == v@.subrange(i + 1, v@.len() as int));
        let c = v[i];
        if c == sep {
            let (a, b) = trim_bounds(&cur);
            let tp = string_from_range(&cur, a, b);
            proof {
                lemma_trimmed_nonempty_cons(cur@, split_from(t.drop_first(), sep, Seq::empty()));
            }
            if b > a {
                let ghost before = string_views(out@);
                out.push(tp);
                assert(string_views(out@) == before + seq![trim(cur@)]);
            } else {
                assert(Seq::<Seq<char>>::empty() + trimmed_nonempty(
                    split_from(t.drop_first(), sep, Seq::empty()),
                ) == trimmed_nonempty(split_from(t.drop_first(), sep, Seq::empty())));
            }
            cur = Vec::new();
            proof {
                assert(cur@ == Seq::<char>::empty());
            }
        } else {
            cur.push(c);
        }
        i = i + 1;
    }
    let ghost t = v@.subrange(i as int, v@.len() as int);
    assert(t.len() == 0);
    proof {
        lemma_trimmed_nonempty_cons(cur@, Seq::empty());
        assert(seq![cur@] + Seq::<Seq<char>>::empty() == seq![cur@]);
    }
    let (a, b) = trim_bounds(&cur);
    if b > a {
        let tp = string_from_range(&cur, a, b);
        let ghost before = string_views(out@);
        out.push(tp);
        assert(string_views(out@) == before + seq![trim(cur@)]);
    }
    assert(trimmed_nonempty(Seq::<Seq<char>>::empty()) == Seq::<Seq<char>>::empty());
    out
}

} // verus!

verus! {

/// Index of the first `c` in `s`, if any (`str::find` on a character).
pub open spec fn index_of(s: Seq<char>, c: char) -> Option<int>
    decreases s.len(),
{
    if s.len() == 0 {
        None
    } else if s[0] == c {
        Some(0)
    } else {
        match index_of(s.drop_first(), c) {
            Some(k) => Some(k + 1),
            None => None,
        }
    }
}

/// What `index_of` says, position by position.
pub proof fn lemma_index_of(s: Seq<char>, c: char)
    ensures
        match index_of(s, c) {
            Some(k) => 0 <= k < s.len() && s[k] == c && forall|j: int| 0 <= j < k ==> s[j] != c,
            None => forall|j: int| 0 <= j < s.len() ==> s[j] != c,
        },
    decreases s.len(),
{
    if s.len() > 0 && s[0] != c {
        lemma_index_of(s.drop_first(), c);
        assert forall|j: int| 1 <= j < s.len() implies s[j] == s.drop_first()[j - 1] by {}
    }
}

/// The part of `s` before its first `c`, or all of `s`.
pub open spec fn before_first(s: Seq<char>, c: char) -> Seq<char> {
    match index_of(s, c) {
        Some(k) => s.subrange(0, k),
        None => s,
    }
}

/// The index of the first `c` in `v`, if any.
pub fn find_char(v: &Vec<char>, c: char) -> (r: Option<usize>)
    ensures
        match r {
            Some(k) => index_of(v@, c) == Some(k as int),
            None => index_of(v@, c) is None,
        },
{
    let mut i: usize = 0;
    assert(v@.subrange(0, v@.len() as int) == v@);
    while i < v.len()
        invariant
            i <= v@.len(),
            forall|j: int| 0 <= j < i ==> v@[j] != c,
            index_of(v@, c) == match index_of(v@.subrange(i as int, v@.len() as int), c) {
                Some(k) => Some(k + i),
                None => None,
            },
        decreases v@.len() - i,
    {
        let ghost t = v@.subrange(i as int, v@.len() as int);
        assert(t[0] == v@[i as int]);
        assert(t.drop_first() == v@.subrange(i + 1, v@.len() as int));
        if v[i] == c {
            return Some(i);
        }
        i = i + 1;
    }
    None
}

} // verus!

verus! {

/// `s.split(sep)` collected as owned strings.
pub fn split_pieces(s: &str, sep: char) -> (r: Vec<String>)
    ensures
        string_views(r@) == split_char(s@, sep),
{
    let v = chars_of(s);
    let mut out: Vec<String> = Vec::new();
    let mut cur: Vec<char> = Vec::new();
    let mut i: usize = 0;
    assert(v@.subrange(0, v@.len() as int) == v@);
    assert(string_views(out@) + split_char(s@, sep) == split_char(s@, sep));
    while i < v.len()
        invariant
            i <= v@.len(),
            v@ == s@,
            string_views(out@) + split_from(v@.subrange(i as int, v@.len() as int), sep, cur@)
                == split_char(s@, sep),
        decreases v@.len() - i,
    {
        let ghost t = v@.subrange(i as int, v@.len() as int);
        assert(t[0] == v@[i as int]);
        assert(t.drop_first() == v@.subrange(i + 1, v@.len() as int));
        let c = v[i];
        if c == sep {
            let piece = string_from_chars(&cur);
            let ghost before = string_views(out@);
            out.push(piece);
            assert(string_views(out@) == before + seq![cur@]);
            assert(before + seq![cur@] + split_from(t.drop_first(), sep, Seq::empty()) == before + (
            seq![cur@] + split_from(t.drop_first(), sep, Seq::empty())));
            cur = Vec::new();
            assert(cur@ == Seq::<char>::empty());
        } else {
            cur.push(c);
        }
        i = i + 1;
    }
    let piece = string_from_chars(&cur);
    let ghost before = string_views(out@);
    out.push(piece);
    assert(string_views(out@) == before + seq![cur@]);
    assert(v@.subrange(i as int, v@.len() as int).len() == 0);
    out
}

} // verus!

verus! {

/// The decimal digit for `d` (below 10).
pub open spec fn digit_char(d: nat) -> char {
    ((d + 0x30) as u32) as char
}

/// `n` in decimal, without leading zeros.
pub open spec fn decimal(n: nat) -> Seq<char>
    decreases n,
{
    if n < 10 {
        seq![digit_char(n)]
    } else {
        decimal(n / 10) + seq![digit_char(n % 10)]
    }
}

/// `n.to_string()`.
pub fn u64_to_string(n: u64) -> (r: String)
    ensures
        r@ == decimal(n as nat),
    decreases n,
{
    let d: u64 = n % 10;
    let c = ((d as u8) + 0x30u8) as char;
    assert(c == digit_char(d as nat));
    if n < 10 {
        let mut r = String::new();
        push_char(&mut r, c);
        r
    } else {
        let mut r = u64_to_string(n / 10);
        push_char(&mut r, c);
        r
    }
}

/// `n` occurs in `h` at position `i`.
pub open spec fn occurs_at(h: Seq<char>, n: Seq<char>, i: int) -> bool {
    0 <= i && i + n.len() <= h.len() && h.subrange(i, i + n.len()) == n
}

/// `n` occurs somewhere in `h` (the empty text occurs everywhere).
pub open spec fn contains_seq(h: Seq<char>, n: Seq<char>) -> bool {
    exists|i: int| occurs_at(h, n, i)
}

fn occurs_at_exec(h: &Vec<char>, n: &Vec<char>, i: usize) -> (r: bool)
    requires
        i + n@.len() <= h@.len(),
    ensures
        r == (h@.subrange(i as int, i + n@.len()) == n@),
{
    let mut j: usize = 0;
    while j < n.len()
        invariant
            j <= n@.len(),
            i + n.len() <= h.len(),
            forall|k: int| 0 <= k < j ==> h@[i + k] == n@[k],
        decreases n@.len() - j,
    {
        if h[i + j] != n[j] {
            assert(h@.subrange(i as int, i + n@.len())[j as int] != n@[j as int]);
            return false;
        }
        j = j + 1;
    }
    assert(h@.subrange(i as int, i + n@.len()) =~= n@);
    true
}

/// `h.contains(n)`.
pub fn contains_str(h: &str, n: &str) -> (r: bool)
    ensures
        r == contains_seq(h@, n@),
{
    let hv = chars_of(h);
    let nv = chars_of(n);
    if nv.len() > hv.len() {
        return false;
    }
    let last = hv.len() - nv.len();
    let mut i: usize = 0;
    while i < last
        invariant
            last == hv@.len() - nv@.len(),
            hv@ == h@,
            nv@ == n@,
            nv@.len() <= hv@.len(),
            i <= last,
            forall|k: int| 0 <= k < i ==> !occurs_at(h@, n@, k),
        decreases last - i,
    {
        if occurs_at_exec(&hv, &nv, i) {
            assert(occurs_at(h@, n@, i as int));
            return true;
        }
        i = i + 1;
    }
    if occurs_at_exec(&hv, &nv, last) {
        assert(occurs_at(h@, n@, last as int));
        return true;
    }
    assert forall|k: int| !occurs_at(h@, n@, k) by {
        if 0 <= k < i {
        }
    }
    false
}

} // verus!
