//! Character-level text handling: the string operations that the importers
//! and the room logic rely on, each stated over `Seq<char>`.
use vstd::prelude::*;

verus! {

/// `String::push` appends one character.
pub assume_specification[ String::push ](s: &mut String, ch: char)
    ensures
        final(s)@ == old(s)@.push(ch),
;

// ------------------------------------------------------------------
// Character classes
// ------------------------------------------------------------------
/// Unicode `White_Space`, the property that `char::is_whitespace` tests.
pub open spec fn is_ws(c: char) -> bool {
    let u = c as u32;
    (0x09 <= u && u <= 0x0D) || u == 0x20 || u == 0x85 || u == 0xA0 || u == 0x1680 || (0x2000
        <= u && u <= 0x200A) || u == 0x2028 || u == 0x2029 || u == 0x202F || u == 0x205F || u
        == 0x3000
}

pub open spec fn is_ascii_digit(c: char) -> bool {
    '0' <= c && c <= '9'
}

pub open spec fn is_ascii_alnum(c: char) -> bool {
    ('0' <= c && c <= '9') || ('a' <= c && c <= 'z') || ('A' <= c && c <= 'Z')
}

pub open spec fn lower_ascii(c: char) -> char {
    if 'A' <= c && c <= 'Z' {
        ((c as u32) + 32) as char
    } else {
        c
    }
}

pub fn char_is_ws(c: char) -> (r: bool)
    ensures
        r == is_ws(c),
{
    let u = c as u32;
    (0x09 <= u && u <= 0x0D) || u == 0x20 || u == 0x85 || u == 0xA0 || u == 0x1680 || (0x2000
        <= u && u <= 0x200A) || u == 0x2028 || u == 0x2029 || u == 0x202F || u == 0x205F || u
        == 0x3000
}

pub fn char_is_ascii_alnum(c: char) -> (r: bool)
    ensures
        r == is_ascii_alnum(c),
{
    ('0' <= c && c <= '9') || ('a' <= c && c <= 'z') || ('A' <= c && c <= 'Z')
}

pub fn char_lower_ascii(c: char) -> (r: char)
    ensures
        r == lower_ascii(c),
{
    if 'A' <= c && c <= 'Z' {
        let b = (c as u8) + 32;
        b as char
    } else {
        c
    }
}

// ------------------------------------------------------------------
// Conversions between `str`/`String` and `Vec<char>`
// ------------------------------------------------------------------
/// The characters of a string slice, in order.
pub fn chars_of(s: &str) -> (r: Vec<char>)
    ensures
        r@ == s@,
{
    let mut out: Vec<char> = Vec::new();
    for c in it: s.chars()
        invariant
            out@ == it.seq().take(it.index() as int),
            it.seq() == s@,
    {
        out.push(c);
    }
    out
}

/// The string made of the given characters.
pub fn string_of(v: &Vec<char>) -> (r: String)
    ensures
        r@ == v@,
{
    let mut out = String::new();
    let mut i: usize = 0;
    while i < v.len()
        invariant
            i <= v.len(),
            out@ == v@.take(i as int),
        decreases v.len() - i,
    {
        out.push(v[i]);
        i = i + 1;
        assert(out@ =~= v@.take(i as int));
    }
    assert(v@.take(v.len() as int) =~= v@);
    out
}

/// Whether two strings hold the same characters.
pub fn same_text(a: &str, b: &str) -> (r: bool)
    ensures
        r == (a@ == b@),
{
    let x = chars_of(a);
    let y = chars_of(b);
    seq_eq(&x, &y)
}

pub fn seq_eq(x: &Vec<char>, y: &Vec<char>) -> (r: bool)
    ensures
        r == (x@ == y@),
{
    if x.len() != y.len() {
        return false;
    }
    let mut i: usize = 0;
    while i < x.len()
        invariant
            x.len() == y.len(),
            i <= x.len(),
            forall|j: int| 0 <= j < i ==> x@[j] == y@[j],
        decreases x.len() - i,
    {
        if x[i] != y[i] {
            return false;
        }
        i = i + 1;
    }
    assert(x@ =~= y@);
    true
}

/// A copy of a string.
pub fn copy_string(s: &String) -> (r: String)
    ensures
        r@ == s@,
{
    s.clone()
}

/// The owned string of a string slice.
pub fn owned(s: &str) -> (r: String)
    ensures
        r@ == s@,
{
    let v = chars_of(s);
    string_of(&v)
}


// ------------------------------------------------------------------
// Trimming
// ------------------------------------------------------------------
/// The sets of characters that the importers trim from the ends of text.
#[derive(Clone, Copy, PartialEq, Eq, Debug)]
pub enum CharClass {
    /// `char::is_whitespace`.
    Whitespace,
    /// Quotes, brackets and separators around a pasted URL.
    UrlWrapping,
    /// Whitespace and the separators `-`, `|`, `:`, `,` around a label.
    LabelEdge,
}

pub open spec fn class_has(k: CharClass, c: char) -> bool {
    match k {
        CharClass::Whitespace => is_ws(c),
        CharClass::UrlWrapping => c == '"' || c == '\'' || c == ')' || c == '(' || c == '[' || c
            == ']' || c == '<' || c == '>' || c == ',' || c == ';',
        CharClass::LabelEdge => is_ws(c) || c == '-' || c == '|' || c == ':' || c == ',',
    }
}

pub fn char_in_class(k: CharClass, c: char) -> (r: bool)
    ensures
        r == class_has(k, c),
{
    match k {
        CharClass::Whitespace => char_is_ws(c),
        CharClass::UrlWrapping => c == '"' || c == '\'' || c == ')' || c == '(' || c == '[' || c
            == ']' || c == '<' || c == '>' || c == ',' || c == ';',
        CharClass::LabelEdge => char_is_ws(c) || c == '-' || c == '|' || c == ':' || c == ',',
    }
}

/// `s` without the leading characters of class `k`.
pub open spec fn trim_start_by(s: Seq<char>, k: CharClass) -> Seq<char>
    decreases s.len(),
{
    if s.len() > 0 && class_has(k, s[0]) {
        trim_start_by(s.skip(1), k)
    } else {
        s
    }
}

/// `s` without the trailing characters of class `k`.
pub open spec fn trim_end_by(s: Seq<char>, k: CharClass) -> Seq<char>
    decreases s.len(),
{
    if s.len() > 0 && class_has(k, s.last()) {
        trim_end_by(s.drop_last(), k)
    } else {
        s
    }
}

/// `str::trim_matches` with the characters of class `k`.
pub open spec fn trim_by(s: Seq<char>, k: CharClass) -> Seq<char> {
    trim_end_by(trim_start_by(s, k), k)
}

/// `str::trim`.
pub open spec fn trim_ws(s: Seq<char>) -> Seq<char> {
    trim_by(s, CharClass::Whitespace)
}

/// `str::trim_matches` on a character vector.
pub fn trim_chars(s: &Vec<char>, k: CharClass) -> (r: Vec<char>)
    ensures
        r@ == trim_by(s@, k),
{
    let mut a: usize = 0;
    assert(s@.skip(0) =~= s@);
    while a < s.len() && char_in_class(k, s[a])
        invariant
            a <= s.len(),
            trim_start_by(s@, k) == trim_start_by(s@.skip(a as int), k),
        decreases s.len() - a,
    {
        assert(s@.skip(a as int).skip(1) =~= s@.skip(a + 1));
        a = a + 1;
    }
    let ghost mid = s@.skip(a as int);
    assert(trim_start_by(s@, k) == mid);
    let mut b: usize = s.len();
    assert(s@.subrange(a as int, b as int) =~= mid);
    while b > a && char_in_class(k, s[b - 1])
        invariant
            a <= b <= s.len(),
            trim_end_by(mid, k) == trim_end_by(s@.subrange(a as int, b as int), k),
        decreases b,
    {
        assert(s@.subrange(a as int, b as int).drop_last() =~= s@.subrange(a as int, b - 1));
        b = b - 1;
    }
    let mut out: Vec<char> = Vec::new();
    let mut i: usize = a;
    while i < b
        invariant
            a <= i <= b,
            b <= s.len(),
            out@ == s@.subrange(a as int, i as int),
        decreases b - i,
    {
        out.push(s[i]);
        i = i + 1;
        assert(out@ =~= s@.subrange(a as int, i as int));
    }
    out
}

/// `str::trim` on a character vector.
pub fn trim_ws_chars(s: &Vec<char>) -> (r: Vec<char>)
    ensures
        r@ == trim_ws(s@),
{
    trim_chars(s, CharClass::Whitespace)
}

/// `str::trim` on a string slice.
pub fn trim_str(s: &str) -> (r: Vec<char>)
    ensures
        r@ == trim_ws(s@),
{
    let v = chars_of(s);
    trim_chars(&v, CharClass::Whitespace)
}

/// Whether a string is empty once trimmed (`s.trim().is_empty()`).
pub fn is_blank(s: &str) -> (r: bool)
    ensures
        r == (trim_ws(s@).len() == 0),
{
    let t = trim_str(s);
    t.len() == 0
}


// ------------------------------------------------------------------
// Splitting and joining
// ------------------------------------------------------------------
/// The views of a vector of character vectors.
pub open spec fn views(v: Seq<Vec<char>>) -> Seq<Seq<char>> {
    v.map_values(|w: Vec<char>| w@)
}

/// `str::split_whitespace`: the maximal runs of non-whitespace characters.
pub open spec fn words(s: Seq<char>) -> Seq<Seq<char>>
    decreases s.len(),
{
    if s.len() == 0 {
        seq![]
    } else {
        let prev = words(s.drop_last());
        let c = s.last();
        if is_ws(c) {
            prev
        } else if s.len() > 1 && !is_ws(s[s.len() - 2]) && prev.len() > 0 {
            prev.update(prev.len() - 1, prev.last().push(c))
        } else {
            prev.push(seq![c])
        }
    }
}

/// The parts joined with `sep` between consecutive parts (`[..].join(sep)`).
pub open spec fn join(parts: Seq<Seq<char>>, sep: Seq<char>) -> Seq<char>
    decreases parts.len(),
{
    if parts.len() == 0 {
        seq![]
    } else if parts.len() == 1 {
        parts[0]
    } else {
        join(parts.drop_last(), sep) + sep + parts.last()
    }
}

/// `str::split(sep)` for a single character: the pieces between separators.
pub open spec fn split_char(s: Seq<char>, sep: char) -> Seq<Seq<char>>
    decreases s.len(),
{
    if s.len() == 0 {
        seq![seq![]]
    } else {
        let prev = split_char(s.drop_last(), sep);
        if s.last() == sep {
            prev.push(seq![])
        } else {
            prev.update(prev.len() - 1, prev.last().push(s.last()))
        }
    }
}

pub proof fn lemma_split_char_nonempty(s: Seq<char>, sep: char)
    ensures
        split_char(s, sep).len() >= 1,
    decreases s.len(),
{
    if s.len() > 0 {
        lemma_split_char_nonempty(s.drop_last(), sep);
    }
}

/// A line without the `\r` of a `\r\n` ending.
pub open spec fn strip_cr(x: Seq<char>) -> Seq<char> {
    if x.len() > 0 && x.last() == '\r' {
        x.drop_last()
    } else {
        x
    }
}

/// `str::lines`: the pieces between `\n`, each without the `\r` of a `\r\n`
/// ending, and without an empty piece after a final `\n`.
pub open spec fn lines(s: Seq<char>) -> Seq<Seq<char>> {
    let p = split_char(s, '\n');
    let body = p.drop_last().map_values(|x: Seq<char>| strip_cr(x));
    if p.last().len() == 0 {
        body
    } else {
        body.push(p.last())
    }
}

/// `split_whitespace` on a character vector.
pub fn split_ws(s: &Vec<char>) -> (r: Vec<Vec<char>>)
    ensures
        views(r@) == words(s@),
{
    let mut out: Vec<Vec<char>> = Vec::new();
    let mut i: usize = 0;
    while i < s.len()
        invariant
            i <= s.len(),
            views(out@) == words(s@.take(i as int)),
        decreases s.len() - i,
    {
        let c = s[i];
        let ghost p = s@.take(i as int);
        assert(s@.take(i + 1).drop_last() =~= p);
        assert(s@.take(i + 1).last() == c);
        if char_is_ws(c) {
        } else if i > 0 && !char_is_ws(s[i - 1]) && out.len() > 0 {
            assert(s@.take(i + 1)[i - 1] == s[i - 1]);
            let last = out.len() - 1;
            let mut w = out[last].clone();
            w.push(c);
            out.set(last, w);
            assert(views(out@) =~= words(p).update(words(p).len() - 1, words(p).last().push(c)));
        } else {
            let mut w: Vec<char> = Vec::new();
            w.push(c);
            out.push(w);
            assert(views(out@) =~= words(p).push(seq![c]));
        }
        i = i + 1;
    }
    assert(s@.take(s.len() as int) =~= s@);
    out
}

/// `parts.join(sep)` on character vectors.
pub fn join_chars(parts: &Vec<Vec<char>>, sep: &Vec<char>) -> (r: Vec<char>)
    ensures
        r@ == join(views(parts@), sep@),
{
    let mut out: Vec<char> = Vec::new();
    let mut i: usize = 0;
    while i < parts.len()
        invariant
            i <= parts.len(),
            out@ == join(views(parts@).take(i as int), sep@),
        decreases parts.len() - i,
    {
        let ghost before = out@;
        if i > 0 {
            append_chars(&mut out, sep);
        }
        append_chars(&mut out, &parts[i]);
        proof {
            let t = views(parts@).take(i + 1);
            assert(t.drop_last() =~= views(parts@).take(i as int));
            if i == 0 {
                assert(out@ =~= t[0]);
            } else {
                assert(out@ =~= join(t.drop_last(), sep@) + sep@ + t.last());
            }
        }
        i = i + 1;
    }
    assert(views(parts@).take(parts.len() as int) =~= views(parts@));
    out
}

/// Appends the characters of `b` to `a`.
pub fn append_chars(a: &mut Vec<char>, b: &Vec<char>)
    ensures
        final(a)@ == old(a)@ + b@,
{
    let mut i: usize = 0;
    while i < b.len()
        invariant
            i <= b.len(),
            a@ == old(a)@ + b@.take(i as int),
        decreases b.len() - i,
    {
        a.push(b[i]);
        i = i + 1;
        assert(a@ =~= old(a)@ + b@.take(i as int));
    }
    assert(b@.take(b.len() as int) =~= b@);
}

/// `split(sep)` on a character vector.
pub fn split_chars(s: &Vec<char>, sep: char) -> (r: Vec<Vec<char>>)
    ensures
        views(r@) == split_char(s@, sep),
        r@.len() >= 1,
{
    let mut out: Vec<Vec<char>> = Vec::new();
    out.push(Vec::new());
    let mut i: usize = 0;
    assert(views(out@) =~= split_char(s@.take(0), sep));
    while i < s.len()
        invariant
            i <= s.len(),
            views(out@) == split_char(s@.take(i as int), sep),
            out@.len() >= 1,
        decreases s.len() - i,
    {
        let c = s[i];
        let ghost p = s@.take(i as int);
        assert(s@.take(i + 1).drop_last() =~= p);
        assert(s@.take(i + 1).last() == c);
        if c == sep {
            out.push(Vec::new());
            assert(views(out@) =~= split_char(p, sep).push(seq![]));
        } else {
            let last = out.len() - 1;
            let mut w = out[last].clone();
            w.push(c);
            out.set(last, w);
            assert(views(out@) =~= split_char(p, sep).update(
                split_char(p, sep).len() - 1,
                split_char(p, sep).last().push(c),
            ));
        }
        i = i + 1;
    }
    assert(s@.take(s.len() as int) =~= s@);
    out
}

/// `str::lines` on a character vector.
pub fn lines_of(s: &Vec<char>) -> (r: Vec<Vec<char>>)
    ensures
        views(r@) == lines(s@),
{
    let pieces = split_chars(s, '\n');
    let n = pieces.len();
    let mut out: Vec<Vec<char>> = Vec::new();
    let mut i: usize = 0;
    let ghost p = split_char(s@, '\n');
    while i + 1 < n
        invariant
            n == pieces@.len(),
            n >= 1,
            views(pieces@) == p,
            i + 1 <= n,
            views(out@) == p.drop_last().take(i as int).map_values(|x: Seq<char>| strip_cr(x)),
        decreases n - i,
    {
        let piece = &pieces[i];
        assert(views(pieces@)[i as int] == pieces@[i as int]@);
        assert(p.drop_last()[i as int] == p[i as int]);
        let mut w = piece.clone();
        if w.len() > 0 && w[w.len() - 1] == '\r' {
            w.pop();
        }
        assert(w@ == strip_cr(p[i as int]));
        let ghost prev = views(out@);
        out.push(w);
        assert(views(out@) =~= prev.push(strip_cr(p[i as int])));
        i = i + 1;
        assert(views(out@) =~= p.drop_last().take(i as int).map_values(
            |x: Seq<char>| strip_cr(x),
        ));
    }
    assert(p.drop_last().take((n - 1) as int) =~= p.drop_last());
    assert(views(pieces@)[n - 1] == pieces@[n - 1]@);
    if pieces[n - 1].len() > 0 {
        out.push(pieces[n - 1].clone());
        assert(views(out@) =~= lines(s@));
    }
    out
}


// ------------------------------------------------------------------
// Searching
// ------------------------------------------------------------------
/// `pat` occurs in `s` starting at index `i`.
pub open spec fn matches_at(s: Seq<char>, i: int, pat: Seq<char>) -> bool {
    0 <= i && i + pat.len() <= s.len() && s.subrange(i, i + pat.len()) == pat
}

/// `pat` occurs somewhere in `s` (`str::contains`).
pub open spec fn contains_seq(s: Seq<char>, pat: Seq<char>) -> bool {
    exists|i: int| matches_at(s, i, pat)
}

/// `i` is the first index at which `pat` occurs in `s` (`str::find`).
pub open spec fn is_first_match(s: Seq<char>, pat: Seq<char>, i: int) -> bool {
    matches_at(s, i, pat) && forall|j: int| 0 <= j < i ==> !matches_at(s, j, pat)
}

/// `i` is the last index at which `pat` occurs in `s` (`str::rfind`).
pub open spec fn is_last_match(s: Seq<char>, pat: Seq<char>, i: int) -> bool {
    matches_at(s, i, pat) && forall|j: int| i < j ==> !matches_at(s, j, pat)
}

/// Whether `pat` occurs at index `i` of `s`.
pub fn match_at(s: &Vec<char>, i: usize, pat: &Vec<char>) -> (r: bool)
    ensures
        r == matches_at(s@, i as int, pat@),
{
    if i > s.len() || pat.len() > s.len() - i {
        return false;
    }
    let mut k: usize = 0;
    while k < pat.len()
        invariant
            i + pat.len() <= s.len(),
            k <= pat.len(),
            forall|j: int| 0 <= j < k ==> s@[i + j] == pat@[j],
        decreases pat.len() - k,
    {
        if s[i + k] != pat[k] {
            assert(s@.subrange(i as int, i + pat.len())[k as int] != pat@[k as int]);
            return false;
        }
        k = k + 1;
    }
    assert(s@.subrange(i as int, i + pat.len()) =~= pat@);
    true
}

/// `str::find` with a string pattern, on character vectors.
pub fn find_seq(s: &Vec<char>, pat: &Vec<char>) -> (r: Option<usize>)
    ensures
        match r {
            Some(i) => is_first_match(s@, pat@, i as int),
            None => !contains_seq(s@, pat@),
        },
{
    if pat.len() > s.len() {
        return None;
    }
    let last = s.len() - pat.len();
    let mut i: usize = 0;
    while i < last
        invariant
            i <= last,
            last == s.len() - pat.len(),
            forall|j: int| 0 <= j < i ==> !matches_at(s@, j, pat@),
        decreases last - i,
    {
        if match_at(s, i, pat) {
            return Some(i);
        }
        i = i + 1;
    }
    if match_at(s, last, pat) {
        return Some(last);
    }
    None
}

/// `str::rfind` with a string pattern, on character vectors.
pub fn rfind_seq(s: &Vec<char>, pat: &Vec<char>) -> (r: Option<usize>)
    ensures
        match r {
            Some(i) => is_last_match(s@, pat@, i as int),
            None => !contains_seq(s@, pat@),
        },
{
    if pat.len() > s.len() {
        return None;
    }
    let mut i: usize = s.len() - pat.len();
    while i > 0
        invariant
            i <= s.len() - pat.len(),
            pat.len() <= s.len(),
            forall|j: int| i < j ==> !matches_at(s@, j, pat@),
        decreases i,
    {
        if match_at(s, i, pat) {
            return Some(i);
        }
        i = i - 1;
    }
    if match_at(s, 0, pat) {
        return Some(0);
    }
    None
}

/// `str::find` with a character pattern.
pub fn find_char(s: &Vec<char>, c: char) -> (r: Option<usize>)
    ensures
        match r {
            Some(i) => i < s@.len() && s@[i as int] == c && forall|j: int|
                0 <= j < i ==> s@[j] != c,
            None => forall|j: int| 0 <= j < s@.len() ==> s@[j] != c,
        },
{
    let mut i: usize = 0;
    while i < s.len()
        invariant
            i <= s.len(),
            forall|j: int| 0 <= j < i ==> s@[j] != c,
        decreases s.len() - i,
    {
        if s[i] == c {
            return Some(i);
        }
        i = i + 1;
    }
    None
}

/// `str::contains` with a string pattern.
pub fn contains_chars(s: &Vec<char>, pat: &Vec<char>) -> (r: bool)
    ensures
        r == contains_seq(s@, pat@),
{
    match find_seq(s, pat) {
        Some(_) => true,
        None => false,
    }
}

/// `str::contains` on string slices.
pub fn str_contains(s: &str, pat: &str) -> (r: bool)
    ensures
        r == contains_seq(s@, pat@),
{
    let a = chars_of(s);
    let b = chars_of(pat);
    contains_chars(&a, &b)
}

/// `str::starts_with`.
pub fn starts_with_chars(s: &Vec<char>, pat: &Vec<char>) -> (r: bool)
    ensures
        r == matches_at(s@, 0, pat@),
{
    match_at(s, 0, pat)
}

/// The characters of `s` from `a` to `b`.
pub fn slice_chars(s: &Vec<char>, a: usize, b: usize) -> (r: Vec<char>)
    requires
        a <= b <= s@.len(),
    ensures
        r@ == s@.subrange(a as int, b as int),
{
    let mut out: Vec<char> = Vec::new();
    let mut i: usize = a;
    while i < b
        invariant
            a <= i <= b,
            b <= s.len(),
            out@ == s@.subrange(a as int, i as int),
        decreases b - i,
    {
        out.push(s[i]);
        i = i + 1;
        assert(out@ =~= s@.subrange(a as int, i as int));
    }
    out
}

/// Where `pat` first occurs in `s`, if it does (`str::find`).
pub open spec fn find_index(s: Seq<char>, pat: Seq<char>) -> Option<int> {
    if contains_seq(s, pat) {
        Some(choose|i: int| is_first_match(s, pat, i))
    } else {
        None
    }
}

/// Where `pat` last occurs in `s`, if it does (`str::rfind`).
pub open spec fn rfind_index(s: Seq<char>, pat: Seq<char>) -> Option<int> {
    if contains_seq(s, pat) {
        Some(choose|i: int| is_last_match(s, pat, i))
    } else {
        None
    }
}

proof fn lemma_first_match_exists(s: Seq<char>, pat: Seq<char>, i: int)
    requires
        matches_at(s, i, pat),
    ensures
        exists|k: int| is_first_match(s, pat, k),
    decreases i,
{
    if exists|j: int| 0 <= j < i && matches_at(s, j, pat) {
        let j = choose|j: int| 0 <= j < i && matches_at(s, j, pat);
        lemma_first_match_exists(s, pat, j);
    } else {
        assert(is_first_match(s, pat, i));
    }
}

proof fn lemma_last_match_exists(s: Seq<char>, pat: Seq<char>, i: int)
    requires
        matches_at(s, i, pat),
    ensures
        exists|k: int| is_last_match(s, pat, k),
    decreases s.len() - i,
{
    if exists|j: int| i < j && matches_at(s, j, pat) {
        let j = choose|j: int| i < j && matches_at(s, j, pat);
        lemma_last_match_exists(s, pat, j);
    } else {
        assert(is_last_match(s, pat, i));
    }
}

/// `find_index` names the first occurrence.
pub proof fn lemma_find_index(s: Seq<char>, pat: Seq<char>)
    ensures
        match find_index(s, pat) {
            Some(i) => is_first_match(s, pat, i) && 0 <= i && i + pat.len() <= s.len(),
            None => !contains_seq(s, pat),
        },
{
    if contains_seq(s, pat) {
        let i = choose|i: int| matches_at(s, i, pat);
        lemma_first_match_exists(s, pat, i);
    }
}

/// `rfind_index` names the last occurrence.
pub proof fn lemma_rfind_index(s: Seq<char>, pat: Seq<char>)
    ensures
        match rfind_index(s, pat) {
            Some(i) => is_last_match(s, pat, i) && 0 <= i && i + pat.len() <= s.len(),
            None => !contains_seq(s, pat),
        },
{
    if contains_seq(s, pat) {
        let i = choose|i: int| matches_at(s, i, pat);
        lemma_last_match_exists(s, pat, i);
    }
}

/// An index as an optional integer.
pub open spec fn opt_int(r: Option<usize>) -> Option<int> {
    match r {
        Some(i) => Some(i as int),
        None => None,
    }
}

/// `str::find` with a string pattern, stated with `find_index`.
pub fn find_in(s: &Vec<char>, pat: &Vec<char>) -> (r: Option<usize>)
    ensures
        opt_int(r) == find_index(s@, pat@),
        r matches Some(i) ==> i + pat@.len() <= s@.len(),
{
    let r = find_seq(s, pat);
    proof {
        lemma_find_index(s@, pat@);
        if let Some(i) = r {
            let k = find_index(s@, pat@)->0;
            lemma_first_match_unique(s@, pat@, i as int, k);
        }
    }
    r
}

/// `str::rfind` with a string pattern, stated with `rfind_index`.
pub fn rfind_in(s: &Vec<char>, pat: &Vec<char>) -> (r: Option<usize>)
    ensures
        opt_int(r) == rfind_index(s@, pat@),
        r matches Some(i) ==> i + pat@.len() <= s@.len(),
{
    let r = rfind_seq(s, pat);
    proof {
        lemma_rfind_index(s@, pat@);
        if let Some(i) = r {
            let k = rfind_index(s@, pat@)->0;
            if i < k {
                assert(!matches_at(s@, k, pat@));
            } else if k < i {
                assert(!matches_at(s@, i as int, pat@));
            }
        }
    }
    r
}

/// `str::split_once` with a string separator: the text before and after the
/// first occurrence of `sep`.
pub open spec fn split_once_spec(s: Seq<char>, sep: Seq<char>) -> Option<(Seq<char>, Seq<char>)> {
    if contains_seq(s, sep) {
        let i = choose|i: int| is_first_match(s, sep, i);
        Some((s.take(i), s.skip(i + sep.len())))
    } else {
        None
    }
}

pub proof fn lemma_first_match_unique(s: Seq<char>, pat: Seq<char>, i: int, j: int)
    requires
        is_first_match(s, pat, i),
        is_first_match(s, pat, j),
    ensures
        i == j,
{
    if i < j {
        assert(!matches_at(s, i, pat));
    } else if j < i {
        assert(!matches_at(s, j, pat));
    }
}

/// `str::split_once` on character vectors.
pub fn split_once_chars(s: &Vec<char>, sep: &Vec<char>) -> (r: Option<(Vec<char>, Vec<char>)>)
    ensures
        match r {
            Some((a, b)) => split_once_spec(s@, sep@) == Some((a@, b@)),
            None => split_once_spec(s@, sep@) is None,
        },
{
    match find_seq(s, sep) {
        Some(i) => {
            assert(matches_at(s@, i as int, sep@));
            let sl = sep.len();
            let n = s.len();
            assert(i + sl <= n);
            let j: usize = i + sl;
            let a = slice_chars(s, 0, i);
            let b = slice_chars(s, j, s.len());
            proof {
                let k = choose|k: int| is_first_match(s@, sep@, k);
                lemma_first_match_unique(s@, sep@, i as int, k);
                assert(a@ =~= s@.take(i as int));
                assert(b@ =~= s@.skip(i + sep@.len()));
            }
            Some((a, b))
        },
        None => None,
    }
}

// ------------------------------------------------------------------
// Replacing
// ------------------------------------------------------------------
/// `str::replace`: every non-overlapping occurrence of `pat`, scanning from
/// the left, replaced by `rep`.
pub open spec fn replace_all(s: Seq<char>, pat: Seq<char>, rep: Seq<char>) -> Seq<char>
    decreases s.len(),
{
    if s.len() == 0 {
        seq![]
    } else if pat.len() > 0 && matches_at(s, 0, pat) {
        rep + replace_all(s.skip(pat.len() as int), pat, rep)
    } else {
        seq![s[0]] + replace_all(s.skip(1), pat, rep)
    }
}

/// Replacing the empty pattern by nothing leaves the text unchanged.
pub proof fn lemma_replace_empty_pattern(s: Seq<char>, rep: Seq<char>)
    ensures
        replace_all(s, seq![], rep) == s,
    decreases s.len(),
{
    if s.len() > 0 {
        lemma_replace_empty_pattern(s.skip(1), rep);
        assert(seq![s[0]] + s.skip(1) =~= s);
    }
}

/// `str::replace` on character vectors.
pub fn replace_chars(s: &Vec<char>, pat: &Vec<char>, rep: &Vec<char>) -> (r: Vec<char>)
    requires
        pat@.len() > 0,
    ensures
        r@ == replace_all(s@, pat@, rep@),
{
    let mut out: Vec<char> = Vec::new();
    let mut i: usize = 0;
    assert(s@.skip(0) =~= s@);
    while i < s.len()
        invariant
            i <= s.len(),
            pat@.len() > 0,
            out@ + replace_all(s@.skip(i as int), pat@, rep@) == replace_all(s@, pat@, rep@),
        decreases s.len() - i,
    {
        let ghost rest = s@.skip(i as int);
        let ghost before = out@;
        if match_at(s, i, pat) {
            proof {
                assert(rest.subrange(0, pat@.len() as int) =~= s@.subrange(
                    i as int,
                    i + pat@.len(),
                ));
                assert(rest.skip(pat@.len() as int) =~= s@.skip(i + pat@.len()));
            }
            append_chars(&mut out, rep);
            i = i + pat.len();
            assert(out@ + replace_all(s@.skip(i as int), pat@, rep@) =~= before + replace_all(
                rest,
                pat@,
                rep@,
            ));
        } else {
            proof {
                if matches_at(rest, 0, pat@) {
                    assert(rest.subrange(0, pat@.len() as int) =~= s@.subrange(
                        i as int,
                        i + pat@.len(),
                    ));
                }
                assert(rest.skip(1) =~= s@.skip(i + 1));
            }
            out.push(s[i]);
            i = i + 1;
            assert(out@ + replace_all(s@.skip(i as int), pat@, rep@) =~= before + replace_all(
                rest,
                pat@,
                rep@,
            ));
        }
    }
    assert(out@ + replace_all(s@.skip(i as int), pat@, rep@) =~= out@);
    out
}

// ------------------------------------------------------------------
// Case, numbers
// ------------------------------------------------------------------
/// `str::to_ascii_lowercase`.
pub open spec fn lower_ascii_seq(s: Seq<char>) -> Seq<char> {
    s.map_values(|c: char| lower_ascii(c))
}

pub fn lower_ascii_chars(s: &Vec<char>) -> (r: Vec<char>)
    ensures
        r@ == lower_ascii_seq(s@),
{
    let mut out: Vec<char> = Vec::new();
    let mut i: usize = 0;
    while i < s.len()
        invariant
            i <= s.len(),
            out@ == lower_ascii_seq(s@.take(i as int)),
        decreases s.len() - i,
    {
        out.push(char_lower_ascii(s[i]));
        i = i + 1;
        assert(out@ =~= lower_ascii_seq(s@.take(i as int)));
    }
    assert(s@.take(s.len() as int) =~= s@);
    out
}

pub open spec fn digit_value(c: char) -> nat {
    ((c as u32) - ('0' as u32)) as nat
}

/// The number written by a sequence of decimal digits.
pub open spec fn digits_value(s: Seq<char>) -> nat
    decreases s.len(),
{
    if s.len() == 0 {
        0
    } else {
        digits_value(s.drop_last()) * 10 + digit_value(s.last())
    }
}

pub open spec fn all_digits(s: Seq<char>) -> bool {
    forall|i: int| 0 <= i < s.len() ==> is_ascii_digit(#[trigger] s[i])
}

/// The digits that `u32::from_str` reads: the text without one leading `+`.
pub open spec fn unsigned_digits(s: Seq<char>) -> Seq<char> {
    if s.len() > 0 && s[0] == '+' {
        s.skip(1)
    } else {
        s
    }
}

/// `u32::from_str`: an optional `+` then at least one decimal digit, of a
/// value that fits in `u32`.
pub open spec fn parse_u32_spec(s: Seq<char>) -> Option<u32> {
    let d = unsigned_digits(s);
    if d.len() > 0 && all_digits(d) && digits_value(d) <= u32::MAX {
        Some(digits_value(d) as u32)
    } else {
        None
    }
}

proof fn lemma_digits_value_grows(s: Seq<char>, i: int)
    requires
        0 <= i <= s.len(),
        all_digits(s),
    ensures
        digits_value(s.take(i)) <= digits_value(s),
    decreases s.len() - i,
{
    if i < s.len() {
        lemma_digits_value_grows(s, i + 1);
        assert(s.take(i + 1).drop_last() =~= s.take(i));
    } else {
        assert(s.take(i) =~= s);
    }
}

/// `str::parse::<u32>` on a character vector.
pub fn parse_u32_chars(s: &Vec<char>) -> (r: Option<u32>)
    ensures
        r == parse_u32_spec(s@),
{
    let mut i: usize = 0;
    if s.len() > 0 && s[0] == '+' {
        i = 1;
    }
    let ghost d = unsigned_digits(s@);
    assert(d =~= s@.skip(i as int));
    if i >= s.len() {
        assert(d.len() == 0);
        return None;
    }
    let mut v: u32 = 0;
    let start = i;
    while i < s.len()
        invariant
            start <= i <= s.len(),
            start < s.len(),
            d == unsigned_digits(s@),
            d =~= s@.skip(start as int),
            all_digits(d.take(i - start)),
            v as nat == digits_value(d.take(i - start)),
        decreases s.len() - i,
    {
        let c = s[i];
        assert(d[i - start] == c);
        if !('0' <= c && c <= '9') {
            assert(!all_digits(d));
            return None;
        }
        let dv = (c as u32) - ('0' as u32);
        assert(d.take(i + 1 - start).drop_last() =~= d.take(i - start));
        assert(d.take(i + 1 - start).last() == c);
        assert(digit_value(c) == dv);
        if v > 429496729 || (v == 429496729 && dv > 5) {
            assert(v * 10 + dv > u32::MAX) by (nonlinear_arith)
                requires
                    v > 429496729 || (v == 429496729 && dv > 5),
            ;
            proof {
                if all_digits(d) {
                    lemma_digits_value_grows(d, i + 1 - start);
                }
            }
            return None;
        }
        v = v * 10 + dv;
        i = i + 1;
    }
    assert(d.take(i - start) =~= d);
    Some(v)
}

/// The decimal digit for `n < 10`.
pub open spec fn digit_char(n: nat) -> char {
    (('0' as u32) + n) as char
}

/// The decimal representation of `n` (`format!("{}", n)`).
pub open spec fn dec(n: nat) -> Seq<char>
    decreases n,
{
    if n < 10 {
        seq![digit_char(n)]
    } else {
        dec(n / 10).push(digit_char(n % 10))
    }
}

/// Different numbers are written differently.
pub proof fn lemma_dec_injective(a: nat, b: nat)
    requires
        dec(a) == dec(b),
    ensures
        a == b,
    decreases a,
{
    if a < 10 && b < 10 {
        assert(dec(a)[0] == digit_char(a));
        assert(dec(b)[0] == digit_char(b));
        assert((digit_char(a) as u32) == 48 + a);
        assert((digit_char(b) as u32) == 48 + b);
    } else if a < 10 {
        lemma_dec_len(b);
    } else if b < 10 {
        lemma_dec_len(a);
    } else {
        assert(dec(a / 10) =~= dec(a).drop_last());
        assert(dec(b / 10) =~= dec(b).drop_last());
        lemma_dec_injective(a / 10, b / 10);
        assert(dec(a).last() == digit_char(a % 10));
        assert(dec(b).last() == digit_char(b % 10));
        assert((digit_char(a % 10) as u32) == 48 + a % 10);
        assert((digit_char(b % 10) as u32) == 48 + b % 10);
    }
}

/// A number from ten on has at least two digits.
pub proof fn lemma_dec_len(n: nat)
    ensures
        dec(n).len() >= 1,
        n >= 10 ==> dec(n).len() >= 2,
    decreases n,
{
    if n >= 10 {
        lemma_dec_len(n / 10);
    }
}

fn digit_of(n: u64) -> (c: char)
    requires
        n < 10,
    ensures
        c == digit_char(n as nat),
{
    let b = (n as u8) + 48;
    b as char
}

/// `format!("{}", n)` as characters.
pub fn dec_chars(n: u64) -> (r: Vec<char>)
    ensures
        r@ == dec(n as nat),
    decreases n,
{
    if n < 10 {
        let mut v = Vec::new();
        v.push(digit_of(n));
        v
    } else {
        let mut v = dec_chars(n / 10);
        v.push(digit_of(n % 10));
        v
    }
}

/// `format!("{:02}", n)` for `n < 100`.
pub open spec fn dec2(n: nat) -> Seq<char> {
    if n < 10 {
        seq!['0', digit_char(n)]
    } else {
        dec(n)
    }
}

pub fn dec2_chars(n: u64) -> (r: Vec<char>)
    requires
        n < 100,
    ensures
        r@ == dec2(n as nat),
{
    if n < 10 {
        let mut v = Vec::new();
        v.push('0');
        v.push(digit_of(n));
        v
    } else {
        dec_chars(n)
    }
}

// ------------------------------------------------------------------
// Cleaning imported text
// ------------------------------------------------------------------
/// The HTML entities that imported text may hold, decoded in order:
/// `&amp;`, `&quot;`, `&#x27;`, `&#39;`, `&lt;`, `&gt;`.
pub open spec fn decode_entities(s: Seq<char>) -> Seq<char> {
    let a = replace_all(s, "&amp;"@, "&"@);
    let b = replace_all(a, "&quot;"@, "\""@);
    let c = replace_all(b, "&#x27;"@, "'"@);
    let d = replace_all(c, "&#39;"@, "'"@);
    let e = replace_all(d, "&lt;"@, "<"@);
    replace_all(e, "&gt;"@, ">"@)
}

/// Runs of whitespace collapsed to one space, with no whitespace at the ends.
pub open spec fn collapse_ws(s: Seq<char>) -> Seq<char> {
    join(words(s), seq![' '])
}

/// Imported text as it is stored: entities decoded, whitespace collapsed,
/// at most 500 characters.
pub open spec fn clean(s: Seq<char>) -> Seq<char> {
    let c = collapse_ws(decode_entities(s));
    if c.len() <= 500 {
        c
    } else {
        c.take(500)
    }
}

/// The key under which pasted lines are compared for duplicates: lower
/// case, with every run of characters that are not ASCII letters or digits
/// turned into one space, and no space at the ends.
pub open spec fn dedup_key(s: Seq<char>) -> Seq<char> {
    collapse_ws(lower_ascii_seq(s).map_values(|c: char| key_char(c)))
}

/// A character of a duplicate key: ASCII letters and digits stay, anything
/// else becomes a space.
pub open spec fn key_char(c: char) -> char {
    if is_ascii_alnum(c) {
        c
    } else {
        ' '
    }
}

fn replace_lit(s: &Vec<char>, pat: &str, rep: &str) -> (r: Vec<char>)
    requires
        pat@.len() > 0,
    ensures
        r@ == replace_all(s@, pat@, rep@),
{
    let p = lit(pat);
    let q = lit(rep);
    replace_chars(s, &p, &q)
}

/// Decodes the HTML entities of imported text.
pub fn decode_entities_chars(s: &Vec<char>) -> (r: Vec<char>)
    ensures
        r@ == decode_entities(s@),
{
    proof {
        reveal_strlit("&amp;");
        reveal_strlit("&quot;");
        reveal_strlit("&#x27;");
        reveal_strlit("&#39;");
        reveal_strlit("&lt;");
        reveal_strlit("&gt;");
    }
    let a = replace_lit(s, "&amp;", "&");
    let b = replace_lit(&a, "&quot;", "\"");
    let c = replace_lit(&b, "&#x27;", "'");
    let d = replace_lit(&c, "&#39;", "'");
    let e = replace_lit(&d, "&lt;", "<");
    replace_lit(&e, "&gt;", ">")
}

/// Collapses the whitespace of a character vector.
pub fn collapse_ws_chars(s: &Vec<char>) -> (r: Vec<char>)
    ensures
        r@ == collapse_ws(s@),
{
    let w = split_ws(s);
    let mut sep: Vec<char> = Vec::new();
    sep.push(' ');
    assert(sep@ =~= seq![' ']);
    join_chars(&w, &sep)
}

/// The first `n` characters (all of them when there are fewer).
pub fn take_chars(s: &Vec<char>, n: usize) -> (r: Vec<char>)
    ensures
        r@ == (if s@.len() <= n {
            s@
        } else {
            s@.take(n as int)
        }),
{
    if s.len() <= n {
        let r = slice_chars(s, 0, s.len());
        assert(r@ =~= s@);
        r
    } else {
        slice_chars(s, 0, n)
    }
}

/// Cleans imported text.
pub fn clean_chars(s: &Vec<char>) -> (r: Vec<char>)
    ensures
        r@ == clean(s@),
{
    let d = decode_entities_chars(s);
    let c = collapse_ws_chars(&d);
    take_chars(&c, 500)
}

/// Cleans imported text (`clean_text`).
pub fn clean_text(s: &str) -> (r: String)
    ensures
        r@ == clean(s@),
{
    let v = chars_of(s);
    let c = clean_chars(&v);
    string_of(&c)
}

/// The duplicate key of a pasted line.
pub fn dedup_key_chars(s: &Vec<char>) -> (r: Vec<char>)
    ensures
        r@ == dedup_key(s@),
{
    let low = lower_ascii_chars(s);
    let mut m: Vec<char> = Vec::new();
    let mut i: usize = 0;
    while i < low.len()
        invariant
            i <= low.len(),
            m@ == low@.take(i as int).map_values(|c: char| key_char(c)),
        decreases low.len() - i,
    {
        let c = low[i];
        if char_is_ascii_alnum(c) {
            m.push(c);
        } else {
            m.push(' ');
        }
        i = i + 1;
        assert(m@ =~= low@.take(i as int).map_values(|c: char| key_char(c)));
    }
    assert(low@.take(i as int) =~= low@);
    collapse_ws_chars(&m)
}

/// The characters of a string literal.
pub fn lit(s: &str) -> (r: Vec<char>)
    ensures
        r@ == s@,
{
    chars_of(s)
}

/// Decodes the HTML entities of a text (`decode_html_entities`).
pub fn decode_html_entities(input: &str) -> (r: String)
    ensures
        r@ == decode_entities(input@),
{
    let v = chars_of(input);
    string_of(&decode_entities_chars(&v))
}

// ------------------------------------------------------------------
// Facts about written numbers
// ------------------------------------------------------------------
/// A written number is digits, and reads back as itself.
pub proof fn lemma_dec_digits(n: nat)
    ensures
        all_digits(dec(n)),
        dec(n).len() > 0,
        digits_value(dec(n)) == n,
    decreases n,
{
    assert((digit_char(n % 10) as u32) == 48 + n % 10);
    assert(digit_value(digit_char(n % 10)) == n % 10);
    if n < 10 {
        assert((digit_char(n) as u32) == 48 + n);
        assert(digit_value(digit_char(n)) == n);
        assert(dec(n).drop_last() =~= Seq::<char>::empty());
        assert(dec(n).last() == digit_char(n));
        assert(digits_value(Seq::<char>::empty()) == 0);
        assert(digits_value(dec(n)) == digits_value(dec(n).drop_last()) * 10 + digit_value(dec(n).last()));
    } else {
        lemma_dec_digits(n / 10);
        assert(dec(n).drop_last() =~= dec(n / 10));
        assert(dec(n).last() == digit_char(n % 10));
        assert(digits_value(dec(n)) == digits_value(dec(n).drop_last()) * 10 + digit_value(dec(n).last()));
        assert((n / 10) * 10 + n % 10 == n);
    }
}

/// A two-digit number is digits, and reads back as itself.
pub proof fn lemma_dec2_digits(n: nat)
    requires
        n < 100,
    ensures
        all_digits(dec2(n)),
        dec2(n).len() > 0,
        digits_value(dec2(n)) == n,
{
    if n < 10 {
        assert((digit_char(n) as u32) == 48 + n);
        assert(dec2(n).drop_last() =~= seq!['0']);
        assert(seq!['0'].drop_last() =~= Seq::<char>::empty());
        assert(seq!['0'].last() == '0');
        assert(digit_value('0') == 0);
        assert(digits_value(Seq::<char>::empty()) == 0);
        assert(digits_value(seq!['0']) == digits_value(seq!['0'].drop_last()) * 10 + digit_value('0'));
        assert(digits_value(seq!['0']) == 0);
        assert(digit_value(digit_char(n)) == n);
        assert(dec2(n).last() == digit_char(n));
    } else {
        lemma_dec_digits(n);
    }
}

/// Trimming digits leaves them as they are.
pub proof fn lemma_trim_digits(s: Seq<char>)
    requires
        all_digits(s),
    ensures
        trim_ws(s) == s,
{
    if s.len() > 0 {
        assert(is_ascii_digit(s[0]));
        assert(is_ascii_digit(s.last()));
    }
}

/// Digits whose value fits in `u32` parse as that value.
pub proof fn lemma_parse_digits(s: Seq<char>)
    requires
        all_digits(s),
        s.len() > 0,
        digits_value(s) <= u32::MAX,
    ensures
        parse_u32_spec(s) == Some(digits_value(s) as u32),
{
    assert(is_ascii_digit(s[0]));
    assert(unsigned_digits(s) == s);
}

/// Appending text without the separator extends the last piece.
pub proof fn lemma_split_append(x: Seq<char>, y: Seq<char>, sep: char)
    requires
        forall|i: int| 0 <= i < y.len() ==> y[i] != sep,
    ensures
        split_char(x + y, sep) == split_char(x, sep).update(
            split_char(x, sep).len() - 1,
            split_char(x, sep).last() + y,
        ),
    decreases y.len(),
{
    lemma_split_char_nonempty(x, sep);
    if y.len() == 0 {
        assert(x + y =~= x);
        assert(split_char(x, sep).last() + y =~= split_char(x, sep).last());
        assert(split_char(x, sep).update(split_char(x, sep).len() - 1, split_char(x, sep).last())
            =~= split_char(x, sep));
    } else {
        let y0 = y.drop_last();
        lemma_split_append(x, y0, sep);
        assert((x + y).drop_last() =~= x + y0);
        assert((x + y).last() == y.last());
        let p = split_char(x, sep);
        let q = split_char(x + y0, sep);
        assert(q =~= p.update(p.len() - 1, p.last() + y0));
        assert(q.last() == p.last() + y0);
        assert(q.last().push(y.last()) =~= p.last() + y);
        assert(q.update(q.len() - 1, q.last().push(y.last())) =~= p.update(p.len() - 1, p.last() + y));
    }
}

/// Appending the separator starts a new piece.
pub proof fn lemma_split_sep(x: Seq<char>, sep: char)
    ensures
        split_char(x.push(sep), sep) == split_char(x, sep).push(Seq::empty()),
{
    assert(x.push(sep).drop_last() =~= x);
}

} // verus!
