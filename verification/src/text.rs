//! Character sequences: the plain-value form in which the parsers read and
//! write text.

use vstd::prelude::*;
use crate::unicode::white_space;

verus! {

/// Collects the characters of a string slice into a vector.
pub fn chars_of(s: &str) -> (v: Vec<char>)
    ensures
        v@ == s@,
{
    broadcast use vstd::string::group_string_axioms;
    let mut v: Vec<char> = Vec::new();
    for c in it: s.chars()
        invariant
            it.seq() == s@,
            v@ == it.seq().take(it.index()),
    {
        v.push(c);
    }
    v
}

/// Builds a string from a vector of characters.
pub fn string_of(v: &Vec<char>) -> (s: String)
    ensures
        s@ == v@,
{
    let mut s = String::new();
    let mut i: usize = 0;
    while i < v.len()
        invariant
            i <= v.len(),
            s@ == v@.take(i as int),
        decreases v.len() - i,
    {
        s.push(v[i]);
        i += 1;
    }
    s
}

/// Whether two vectors hold the same characters.
pub fn same_chars(v: &Vec<char>, w: &Vec<char>) -> (b: bool)
    ensures
        b == (v@ == w@),
{
    if w.len() != v.len() {
        return false;
    }
    let mut i: usize = 0;
    while i < v.len()
        invariant
            i <= v.len(),
            w.len() == v.len(),
            v@.take(i as int) == w@.take(i as int),
        decreases v.len() - i,
    {
        if v[i] != w[i] {
            return false;
        }
        assert(v@.take(i + 1) == v@.take(i as int).push(v@[i as int]));
        assert(w@.take(i + 1) == w@.take(i as int).push(w@[i as int]));
        i += 1;
    }
    assert(v@.take(v.len() as int) == v@);
    assert(w@.take(w.len() as int) == w@);
    true
}

/// Whether the characters are exactly those of the string slice.
pub fn chars_eq(v: &Vec<char>, s: &str) -> (b: bool)
    ensures
        b == (v@ == s@),
{
    let w = chars_of(s);
    same_chars(v, &w)
}

/// Whether two string slices hold the same text.
pub fn str_eq(a: &str, b: &str) -> (r: bool)
    ensures
        r == (a@ == b@),
{
    let v = chars_of(a);
    chars_eq(&v, b)
}

/// Appends the characters of a string slice.
pub fn push_str(out: &mut Vec<char>, s: &str)
    ensures
        final(out)@ == old(out)@ + s@,
{
    let w = chars_of(s);
    push_chars(out, &w);
}

/// Appends the characters of another vector.
pub fn push_chars(out: &mut Vec<char>, w: &Vec<char>)
    ensures
        final(out)@ == old(out)@ + w@,
{
    let mut i: usize = 0;
    while i < w.len()
        invariant
            i <= w.len(),
            out@ == old(out)@ + w@.take(i as int),
        decreases w.len() - i,
    {
        out.push(w[i]);
        i += 1;
    }
    assert(w@.take(w.len() as int) == w@);
}

/// The characters from `from` up to `to`.
pub fn slice_of(v: &Vec<char>, from: usize, to: usize) -> (r: Vec<char>)
    requires
        from <= to <= v.len(),
    ensures
        r@ == v@.subrange(from as int, to as int),
{
    let mut r: Vec<char> = Vec::new();
    let mut i: usize = from;
    while i < to
        invariant
            from <= i <= to <= v.len(),
            r@ == v@.subrange(from as int, i as int),
        decreases to - i,
    {
        r.push(v[i]);
        i += 1;
    }
    r
}

/// Index of the first character that is not whitespace, or the length.
pub open spec fn trim_start(s: Seq<char>) -> int
    decreases s.len(),
{
    if s.len() == 0 || !white_space(s[0]) {
        0
    } else {
        1 + trim_start(s.drop_first())
    }
}

/// Index just past the last character that is not whitespace, or zero.
pub open spec fn trim_end(s: Seq<char>) -> int
    decreases s.len(),
{
    if s.len() == 0 || !white_space(s.last()) {
        s.len() as int
    } else {
        trim_end(s.drop_last())
    }
}

/// The text without its leading and trailing whitespace.
pub open spec fn trimmed(s: Seq<char>) -> Seq<char> {
    if trim_start(s) >= trim_end(s) {
        Seq::empty()
    } else {
        s.subrange(trim_start(s), trim_end(s))
    }
}

/// `trim_start` is the one index before which all is whitespace and at which
/// a character that is not whitespace stands, if any is left.
pub proof fn lemma_trim_start(s: Seq<char>, i: int)
    requires
        0 <= i <= s.len(),
        forall|k: int| 0 <= k < i ==> white_space(#[trigger] s[k]),
        i < s.len() ==> !white_space(s[i]),
    ensures
        trim_start(s) == i,
    decreases s.len(),
{
    if s.len() == 0 || !white_space(s[0]) {
    } else {
        let t = s.drop_first();
        assert forall|k: int| 0 <= k < i - 1 implies white_space(#[trigger] t[k]) by {
            assert(t[k] == s[k + 1]);
        }
        lemma_trim_start(t, i - 1);
    }
}

/// `trim_end` is the one index from which all is whitespace and before which
/// a character that is not whitespace stands, if there is any.
pub proof fn lemma_trim_end(s: Seq<char>, j: int)
    requires
        0 <= j <= s.len(),
        forall|k: int| j <= k < s.len() ==> white_space(#[trigger] s[k]),
        j > 0 ==> !white_space(s[j - 1]),
    ensures
        trim_end(s) == j,
    decreases s.len(),
{
    if s.len() == 0 || !white_space(s.last()) {
    } else {
        let t = s.drop_last();
        assert forall|k: int| j <= k < t.len() implies white_space(#[trigger] t[k]) by {
            assert(t[k] == s[k]);
        }
        lemma_trim_end(t, j);
    }
}

/// A text that was trimmed neither starts nor ends with whitespace.
pub proof fn lemma_trimmed_edges(s: Seq<char>)
    ensures
        trimmed(s).len() > 0 ==> !white_space(trimmed(s).first()) && !white_space(
            trimmed(s).last(),
        ),
{
    lemma_trim_start_stops(s);
    lemma_trim_end_stops(s);
}

/// `trim_start` is an index of the text at which no whitespace stands.
pub proof fn lemma_trim_start_stops(s: Seq<char>)
    ensures
        0 <= trim_start(s) <= s.len(),
        trim_start(s) < s.len() ==> !white_space(s[trim_start(s)]),
    decreases s.len(),
{
    if s.len() > 0 && white_space(s[0]) {
        let t = s.drop_first();
        lemma_trim_start_stops(t);
        if trim_start(t) < t.len() {
            assert(t[trim_start(t)] == s[trim_start(t) + 1]);
        }
    }
}

/// `trim_end` is an index of the text before which no whitespace stands.
pub proof fn lemma_trim_end_stops(s: Seq<char>)
    ensures
        0 <= trim_end(s) <= s.len(),
        trim_end(s) > 0 ==> !white_space(s[trim_end(s) - 1]),
    decreases s.len(),
{
    if s.len() > 0 && white_space(s.last()) {
        let t = s.drop_last();
        lemma_trim_end_stops(t);
        if trim_end(t) > 0 {
            assert(t[trim_end(t) - 1] == s[trim_end(t) - 1]);
        }
    }
}

/// Trimming a text that was trimmed changes nothing.
pub proof fn lemma_trimmed_is_trimmed(s: Seq<char>)
    ensures
        trimmed(trimmed(s)) == trimmed(s),
{
    let w = trimmed(s);
    lemma_trimmed_edges(s);
    lemma_trim_start(w, 0);
    lemma_trim_end(w, w.len() as int);
    assert(trimmed(w) =~= w);
}

/// The characters of a trimmed text are those of the text, from its first
/// character that is no whitespace on.
pub proof fn lemma_trimmed_chars(s: Seq<char>, i: int)
    requires
        0 <= i < trimmed(s).len(),
    ensures
        0 <= trim_start(s) + i < s.len(),
        trimmed(s)[i] == s[trim_start(s) + i],
{
    lemma_trim_start_stops(s);
    lemma_trim_end_stops(s);
}

/// Removes leading and trailing whitespace.
pub fn trim(v: &Vec<char>) -> (r: Vec<char>)
    ensures
        r@ == trimmed(v@),
{
    let mut i: usize = 0;
    while i < v.len() && v[i].is_whitespace()
        invariant
            i <= v.len(),
            forall|k: int| 0 <= k < i ==> white_space(#[trigger] v@[k]),
        decreases v.len() - i,
    {
        i += 1;
    }
    let mut j: usize = v.len();
    while j > 0 && v[j - 1].is_whitespace()
        invariant
            j <= v.len(),
            forall|k: int| j <= k < v.len() ==> white_space(#[trigger] v@[k]),
        decreases j,
    {
        j -= 1;
    }
    proof {
        lemma_trim_start(v@, i as int);
        lemma_trim_end(v@, j as int);
    }
    if i >= j {
        Vec::new()
    } else {
        slice_of(v, i, j)
    }
}

/// The character of a decimal digit.
pub open spec fn digit_char(d: nat) -> char {
    if d == 0 {
        '0'
    } else if d == 1 {
        '1'
    } else if d == 2 {
        '2'
    } else if d == 3 {
        '3'
    } else if d == 4 {
        '4'
    } else if d == 5 {
        '5'
    } else if d == 6 {
        '6'
    } else if d == 7 {
        '7'
    } else if d == 8 {
        '8'
    } else {
        '9'
    }
}

/// The decimal digits of a number, most significant first, without leading zeros.
pub open spec fn decimal(n: nat) -> Seq<char>
    decreases n,
{
    if n < 10 {
        seq![digit_char(n)]
    } else {
        decimal(n / 10).push(digit_char(n % 10))
    }
}

fn digit_of(d: u128) -> (c: char)
    requires
        d < 10,
    ensures
        c == digit_char(d as nat),
{
    if d == 0 {
        '0'
    } else if d == 1 {
        '1'
    } else if d == 2 {
        '2'
    } else if d == 3 {
        '3'
    } else if d == 4 {
        '4'
    } else if d == 5 {
        '5'
    } else if d == 6 {
        '6'
    } else if d == 7 {
        '7'
    } else if d == 8 {
        '8'
    } else {
        '9'
    }
}

/// Appends the decimal digits of a number.
pub fn push_decimal(out: &mut Vec<char>, n: u128)
    ensures
        final(out)@ == old(out)@ + decimal(n as nat),
    decreases n,
{
    if n >= 10 {
        push_decimal(out, n / 10);
    }
    out.push(digit_of(n % 10));
    proof {
        if n >= 10 {
            assert(final(out)@ == old(out)@ + decimal((n / 10) as nat).push(digit_char((n % 10) as nat)));
        } else {
            assert(final(out)@ == old(out)@ + seq![digit_char(n as nat)]);
        }
    }
}

/// Width in bytes of the UTF-8 encoding of one character.
pub open spec fn utf8_width(c: char) -> nat {
    if (c as u32) < 0x80 {
        1
    } else if (c as u32) < 0x800 {
        2
    } else if (c as u32) < 0x10000 {
        3
    } else {
        4
    }
}

/// Length in bytes of the UTF-8 encoding of a text.
pub open spec fn utf8_len(s: Seq<char>) -> nat
    decreases s.len(),
{
    if s.len() == 0 {
        0
    } else {
        utf8_len(s.drop_last()) + utf8_width(s.last())
    }
}

/// The length of a text is the width of its first character and the
/// length of the rest.
pub proof fn lemma_utf8_len_front(s: Seq<char>)
    requires
        s.len() > 0,
    ensures
        utf8_len(s) == utf8_width(s[0]) + utf8_len(s.drop_first()),
    decreases s.len(),
{
    if s.len() == 1 {
        assert(s.drop_first() =~= Seq::<char>::empty());
        assert(s.drop_last() =~= Seq::<char>::empty());
    } else {
        lemma_utf8_len_front(s.drop_last());
        assert(s.drop_last().drop_first() =~= s.drop_first().drop_last());
        assert(s.drop_first().last() == s.last());
        assert(s.drop_last()[0] == s[0]);
    }
}

/// `utf8_len` is the number of bytes of the UTF-8 encoding of a text.
pub proof fn lemma_utf8_len_is_encoded_len(s: Seq<char>)
    ensures
        utf8_len(s) == vstd::utf8::encode_utf8(s).len(),
    decreases s.len(),
{
    if s.len() > 0 {
        lemma_utf8_len_front(s);
        lemma_utf8_len_is_encoded_len(s.drop_first());
        vstd::utf8::char_is_scalar(s[0]);
    }
}

fn width_of(c: char) -> (w: usize)
    ensures
        w == utf8_width(c),
        1 <= w <= 4,
{
    let code: u32 = c as u32;
    if code < 0x80 {
        1
    } else if code < 0x800 {
        2
    } else if code < 0x10000 {
        3
    } else {
        4
    }
}

/// The UTF-8 length of a text, modulo `m`.
pub fn utf8_len_mod(v: &Vec<char>, m: usize) -> (r: usize)
    requires
        0 < m <= usize::MAX - 4,
    ensures
        r == utf8_len(v@) % (m as nat),
{
    let mut r: usize = 0;
    let mut i: usize = 0;
    assert(v@.take(0) =~= Seq::<char>::empty());
    assert(utf8_len(v@.take(0)) == 0);
    assert(0nat % (m as nat) == 0) by {
        vstd::arithmetic::div_mod::lemma_small_mod(0, m as nat);
    }
    while i < v.len()
        invariant
            i <= v.len(),
            0 < m <= usize::MAX - 4,
            r < m,
            r == utf8_len(v@.take(i as int)) % (m as nat),
        decreases v.len() - i,
    {
        let w = width_of(v[i]);
        proof {
            let prev = v@.take(i as int);
            let cur = v@.take(i + 1);
            assert(cur.drop_last() == prev);
            assert(cur.last() == v@[i as int]);
            let a = utf8_len(prev) as int;
            vstd::arithmetic::div_mod::lemma_add_mod_noop_right(w as int, a, m as int);
            assert(utf8_len(cur) == a + w);
            assert((w + a % (m as int)) % (m as int) == (w + a) % (m as int));
        }
        r = (r + w) % m;
        i += 1;
    }
    assert(v@.take(v.len() as int) == v@);
    r
}

/// The index of the first occurrence of `pat` in `s` at or after `from`, or
/// the length of `s` where there is none.
pub open spec fn find_sub(s: Seq<char>, pat: Seq<char>, from: int) -> int
    decreases s.len() - from,
{
    if from < 0 || from >= s.len() || from + pat.len() > s.len() {
        s.len() as int
    } else if s.subrange(from, from + pat.len()) == pat {
        from
    } else {
        find_sub(s, pat, from + 1)
    }
}

/// The first occurrence lies at or after the start, and fits into the text.
pub proof fn lemma_find_sub(s: Seq<char>, pat: Seq<char>, from: int)
    requires
        0 <= from <= s.len(),
        pat.len() > 0,
    ensures
        from <= find_sub(s, pat, from) <= s.len(),
        find_sub(s, pat, from) < s.len() ==> find_sub(s, pat, from) + pat.len() <= s.len()
            && s.subrange(find_sub(s, pat, from), find_sub(s, pat, from) + pat.len()) == pat,
    decreases s.len() - from,
{
    if from + pat.len() <= s.len() && s.subrange(from, from + pat.len()) != pat {
        lemma_find_sub(s, pat, from + 1);
    }
}

/// Whether `pat` occurs in `s`.
pub open spec fn contains_sub(s: Seq<char>, pat: Seq<char>) -> bool {
    exists|i: int| 0 <= i && i + pat.len() <= s.len() && #[trigger] s.subrange(i, i + pat.len()) == pat
}

/// Nothing before the first occurrence is an occurrence.
pub proof fn lemma_find_sub_first(s: Seq<char>, pat: Seq<char>, from: int, i: int)
    requires
        0 <= from <= i,
        pat.len() > 0,
        i + pat.len() <= s.len(),
        s.subrange(i, i + pat.len()) == pat,
    ensures
        find_sub(s, pat, from) <= i,
    decreases i - from,
{
    if from < i && s.subrange(from, from + pat.len()) != pat {
        lemma_find_sub_first(s, pat, from + 1, i);
    }
}

/// The parts of `s` from `from` on that the separator `sep` divides.
pub open spec fn split_on(s: Seq<char>, sep: Seq<char>, from: int) -> Seq<Seq<char>>
    decreases s.len() - from,
{
    let i = find_sub(s, sep, from);
    if sep.len() == 0 || from < 0 || from > s.len() || i >= s.len() {
        seq![s.subrange(from, s.len() as int)]
    } else {
        proof {
            lemma_find_sub(s, sep, from);
        }
        seq![s.subrange(from, i)] + split_on(s, sep, i + sep.len())
    }
}

/// A text always divides into at least one part.
pub proof fn lemma_split_nonempty(s: Seq<char>, sep: Seq<char>, from: int)
    ensures
        split_on(s, sep, from).len() >= 1,
{
}

/// Whether `pat` stands in `v` at index `at`.
pub fn matches_at(v: &Vec<char>, pat: &Vec<char>, at: usize) -> (b: bool)
    requires
        at + pat.len() <= v.len(),
    ensures
        b == (v@.subrange(at as int, at + pat.len()) == pat@),
{
    let mut k: usize = 0;
    while k < pat.len()
        invariant
            k <= pat.len(),
            at + pat.len() <= v.len(),
            v@.subrange(at as int, at + k) == pat@.take(k as int),
        decreases pat.len() - k,
    {
        if v[at + k] != pat[k] {
            assert(v@.subrange(at as int, at + pat.len())[k as int] != pat@[k as int]);
            return false;
        }
        assert(v@.subrange(at as int, at + k + 1) == v@.subrange(at as int, at + k).push(
            v@[at + k],
        ));
        assert(pat@.take(k + 1) == pat@.take(k as int).push(pat@[k as int]));
        k += 1;
    }
    assert(pat@.take(pat.len() as int) == pat@);
    true
}

/// Finds the first occurrence of `pat` in `v` at or after `from`.
pub fn scan_sub(v: &Vec<char>, pat: &Vec<char>, from: usize) -> (idx: usize)
    requires
        from <= v.len(),
        pat.len() > 0,
    ensures
        idx == find_sub(v@, pat@, from as int),
        from <= idx <= v.len(),
{
    let mut i: usize = from;
    if pat.len() > v.len() {
        return v.len();
    }
    while i <= v.len() - pat.len()
        invariant
            from <= i <= v.len(),
            0 < pat.len() <= v.len(),
            find_sub(v@, pat@, i as int) == find_sub(v@, pat@, from as int),
        decreases v.len() - i,
    {
        if matches_at(v, pat, i) {
            return i;
        }
        i += 1;
    }
    v.len()
}

/// Whether `pat` occurs in `v`.
pub fn contains(v: &Vec<char>, pat: &str) -> (b: bool)
    ensures
        b == contains_sub(v@, pat@),
{
    let p = chars_of(pat);
    if p.len() == 0 {
        assert(v@.subrange(0int, 0int + p@.len()) =~= p@);
        return true;
    }
    let idx = scan_sub(v, &p, 0);
    proof {
        lemma_find_sub(v@, p@, 0);
        if contains_sub(v@, p@) {
            let i = choose|i: int|
                0 <= i && i + p@.len() <= v@.len() && #[trigger] v@.subrange(i, i + p@.len()) == p@;
            lemma_find_sub_first(v@, p@, 0, i);
        }
    }
    idx < v.len()
}

/// Divides `v` at each occurrence of the separator.
pub fn split(v: &Vec<char>, sep: &str) -> (parts: Vec<Vec<char>>)
    ensures
        parts.deep_view() == split_on(v@, sep@, 0),
{
    let p = chars_of(sep);
    let mut parts: Vec<Vec<char>> = Vec::new();
    let mut from: usize = 0;
    assert(parts.deep_view() =~~= Seq::<Seq<char>>::empty());
    if p.len() > 0 {
        loop
            invariant_except_break
                from <= v.len(),
                p.len() > 0,
                p@ == sep@,
                parts.deep_view() + split_on(v@, sep@, from as int) == split_on(v@, sep@, 0),
            ensures
                from <= v.len(),
                parts.deep_view() + seq![v@.subrange(from as int, v.len() as int)] == split_on(
                    v@,
                    sep@,
                    0,
                ),
            decreases v.len() - from,
        {
            let idx = scan_sub(v, &p, from);
            proof {
                lemma_find_sub(v@, p@, from as int);
            }
            if idx >= v.len() {
                break ;
            }
            let ghost held = parts.deep_view();
            let part = slice_of(v, from, idx);
            parts.push(part);
            assert(parts.deep_view() =~~= held.push(v@.subrange(from as int, idx as int)));
            assert(held + (seq![v@.subrange(from as int, idx as int)] + split_on(
                v@,
                sep@,
                idx + p.len(),
            )) == parts.deep_view() + split_on(v@, sep@, idx + p.len()));
            from = idx + p.len();
        }
    } else {
        assert(Seq::<Seq<char>>::empty() + seq![v@.subrange(0, v.len() as int)] =~= split_on(
            v@,
            sep@,
            0,
        ));
    }
    let ghost held = parts.deep_view();
    parts.push(slice_of(v, from, v.len()));
    assert(parts.deep_view() =~~= held + seq![v@.subrange(from as int, v.len() as int)]);
    parts
}

} // verus!
