//! Character and string helpers shared by the client logic.

use vstd::prelude::*;

verus! {

/// Unicode `White_Space` property (the set used by `char::is_whitespace`).
pub open spec fn is_ws(c: char) -> bool {
    let v = c as u32;
    ||| 0x09 <= v <= 0x0d
    ||| v == 0x20
    ||| v == 0x85
    ||| v == 0xa0
    ||| v == 0x1680
    ||| 0x2000 <= v <= 0x200a
    ||| v == 0x2028
    ||| v == 0x2029
    ||| v == 0x202f
    ||| v == 0x205f
    ||| v == 0x3000
}

/// Returns whether `c` is a Unicode white-space character.
pub fn is_whitespace_char(c: char) -> (r: bool)
    ensures
        r == is_ws(c),
{
    let v = c as u32;
    (0x09 <= v && v <= 0x0d) || v == 0x20 || v == 0x85 || v == 0xa0 || v == 0x1680 || (0x2000
        <= v && v <= 0x200a) || v == 0x2028 || v == 0x2029 || v == 0x202f || v == 0x205f || v
        == 0x3000
}

/// A string made only of white space (empty strings included).
pub open spec fn is_blank(s: Seq<char>) -> bool {
    forall|i: int| 0 <= i < s.len() ==> is_ws(#[trigger] s[i])
}

/// `a` is where the text of `s` starts once leading white space is skipped.
pub open spec fn is_trim_start(s: Seq<char>, a: int) -> bool {
    &&& 0 <= a <= s.len()
    &&& forall|j: int| 0 <= j < a ==> is_ws(#[trigger] s[j])
    &&& a == s.len() || !is_ws(s[a])
}

/// `b` is where the text of `s` ends once trailing white space is dropped, given its start `a`.
pub open spec fn is_trim_end(s: Seq<char>, a: int, b: int) -> bool {
    &&& a <= b <= s.len()
    &&& forall|j: int| b <= j < s.len() ==> is_ws(#[trigger] s[j])
    &&& b == a || !is_ws(s[b - 1])
}

pub open spec fn trim_start_index(s: Seq<char>) -> int {
    choose|a: int| is_trim_start(s, a)
}

pub open spec fn trim_end_index(s: Seq<char>) -> int {
    choose|b: int| is_trim_end(s, trim_start_index(s), b)
}

/// `s` without leading and trailing white space (what `str::trim` returns).
pub open spec fn trimmed(s: Seq<char>) -> Seq<char> {
    s.subrange(trim_start_index(s), trim_end_index(s))
}

proof fn lemma_trim_start_unique(s: Seq<char>, a: int)
    requires
        is_trim_start(s, a),
    ensures
        trim_start_index(s) == a,
{
    let c = trim_start_index(s);
    assert(is_trim_start(s, c));
    if c < a {
        assert(is_ws(s[c]));
    } else if a < c {
        assert(is_ws(s[a]));
    }
}

proof fn lemma_trim_end_unique(s: Seq<char>, a: int, b: int)
    requires
        is_trim_start(s, a),
        is_trim_end(s, a, b),
    ensures
        trim_end_index(s) == b,
{
    lemma_trim_start_unique(s, a);
    let c = trim_end_index(s);
    assert(is_trim_end(s, a, c));
    if c < b {
        assert(is_ws(s[b - 1]));
    } else if b < c {
        assert(is_ws(s[c - 1]));
    }
}

proof fn find_trim_start(s: Seq<char>, i: int) -> (a: int)
    requires
        0 <= i <= s.len(),
        forall|j: int| 0 <= j < i ==> is_ws(#[trigger] s[j]),
    ensures
        is_trim_start(s, a),
    decreases s.len() - i,
{
    if i == s.len() || !is_ws(s[i]) {
        i
    } else {
        find_trim_start(s, i + 1)
    }
}

proof fn find_trim_end(s: Seq<char>, a: int, b: int) -> (r: int)
    requires
        0 <= a <= b <= s.len(),
        forall|j: int| b <= j < s.len() ==> is_ws(#[trigger] s[j]),
    ensures
        is_trim_end(s, a, r),
    decreases b - a,
{
    if b == a || !is_ws(s[b - 1]) {
        b
    } else {
        find_trim_end(s, a, b - 1)
    }
}

/// The start and end that `trimmed` uses do exist.
pub proof fn lemma_trim_indices(s: Seq<char>)
    ensures
        is_trim_start(s, trim_start_index(s)),
        is_trim_end(s, trim_start_index(s), trim_end_index(s)),
{
    let a = find_trim_start(s, 0);
    lemma_trim_start_unique(s, a);
    let b = find_trim_end(s, a, s.len() as int);
    lemma_trim_end_unique(s, a, b);
}

/// A trimmed string is empty exactly when the string is blank.
pub proof fn lemma_trimmed_empty_iff_blank(s: Seq<char>)
    ensures
        (trimmed(s).len() == 0) <==> is_blank(s),
{
    lemma_trim_indices(s);
    let a = trim_start_index(s);
    let b = trim_end_index(s);
    if is_blank(s) {
        if a < s.len() {
            assert(is_ws(s[a]));
        }
    }
    if b == a && a < s.len() {
        assert(is_ws(s[a]));
    }
    if b == a {
        assert forall|i: int| 0 <= i < s.len() implies is_ws(#[trigger] s[i]) by {
            if i < a {
            } else {
            }
        }
    }
}

/// `str::trim`: removes leading and trailing white space.
pub fn trim(s: &str) -> (r: &str)
    ensures
        r@ == trimmed(s@),
{
    let cs = chars_of(s);
    let n = cs.len();
    let mut a: usize = 0;
    while a < n && is_whitespace_char(cs[a])
        invariant
            cs@ == s@,
            n == cs@.len(),
            a <= n,
            forall|j: int| 0 <= j < a ==> is_ws(#[trigger] s@[j]),
        decreases n - a,
    {
        a = a + 1;
    }
    let mut b: usize = n;
    while b > a && is_whitespace_char(cs[b - 1])
        invariant
            cs@ == s@,
            n == cs@.len(),
            a <= b <= n,
            forall|j: int| b <= j < n ==> is_ws(#[trigger] s@[j]),
        decreases b - a,
    {
        b = b - 1;
    }
    proof {
        assert(is_trim_start(s@, a as int));
        assert(is_trim_end(s@, a as int, b as int));
        lemma_trim_start_unique(s@, a as int);
        lemma_trim_end_unique(s@, a as int, b as int);
    }
    s.substring_char(a, b)
}

/// Whether `s` is empty or only white space (`s.trim().is_empty()`).
pub fn is_blank_str(s: &str) -> (r: bool)
    ensures
        r == is_blank(s@),
{
    let t = trim(s);
    proof {
        lemma_trimmed_empty_iff_blank(s@);
    }
    t.unicode_len() == 0
}

/// ASCII lower-case of one character; other characters are unchanged.
pub open spec fn ascii_lower(c: char) -> char {
    if 'A' <= c <= 'Z' {
        ((c as u32) + 32) as char
    } else {
        c
    }
}

/// `str::eq_ignore_ascii_case` on character sequences.
pub open spec fn eq_ignore_ascii_case_spec(a: Seq<char>, b: Seq<char>) -> bool {
    &&& a.len() == b.len()
    &&& forall|i: int| 0 <= i < a.len() ==> ascii_lower(#[trigger] a[i]) == ascii_lower(b[i])
}

fn ascii_lower_char(c: char) -> (r: char)
    ensures
        r == ascii_lower(c),
{
    if 'A' <= c && c <= 'Z' {
        let v = (c as u32) + 32;
        proof {
            assert(0x61 <= v <= 0x7a);
        }
        char_from_ascii(v)
    } else {
        c
    }
}

fn char_from_ascii(v: u32) -> (r: char)
    requires
        v < 0x80,
    ensures
        r == v as char,
{
    let b = v as u8;
    b as char
}

/// Compares two strings, ignoring ASCII case.
pub fn eq_ignore_ascii_case(a: &str, b: &str) -> (r: bool)
    ensures
        r == eq_ignore_ascii_case_spec(a@, b@),
{
    let x = chars_of(a);
    let y = chars_of(b);
    if x.len() != y.len() {
        return false;
    }
    let mut i: usize = 0;
    while i < x.len()
        invariant
            x@ == a@,
            y@ == b@,
            x.len() == y.len(),
            i <= x.len(),
            forall|j: int| 0 <= j < i ==> ascii_lower(#[trigger] a@[j]) == ascii_lower(b@[j]),
        decreases x.len() - i,
    {
        if ascii_lower_char(x[i]) != ascii_lower_char(y[i]) {
            return false;
        }
        i = i + 1;
    }
    true
}

/// Exact equality of two string slices.
pub fn str_eq(a: &str, b: &str) -> (r: bool)
    ensures
        r == (a@ == b@),
{
    let x = chars_of(a);
    let y = chars_of(b);
    if x.len() != y.len() {
        return false;
    }
    let mut i: usize = 0;
    while i < x.len()
        invariant
            x@ == a@,
            y@ == b@,
            x.len() == y.len(),
            i <= x.len(),
            forall|j: int| 0 <= j < i ==> #[trigger] a@[j] == b@[j],
        decreases x.len() - i,
    {
        if x[i] != y[i] {
            return false;
        }
        i = i + 1;
    }
    assert(a@ =~= b@);
    true
}

/// `str::starts_with` for a string prefix.
pub open spec fn has_prefix(s: Seq<char>, p: Seq<char>) -> bool {
    p.len() <= s.len() && s.subrange(0, p.len() as int) == p
}

/// Whether `s` starts with `p`.
pub fn starts_with(s: &str, p: &str) -> (r: bool)
    ensures
        r == has_prefix(s@, p@),
{
    let x = chars_of(s);
    let y = chars_of(p);
    if y.len() > x.len() {
        return false;
    }
    let mut i: usize = 0;
    while i < y.len()
        invariant
            x@ == s@,
            y@ == p@,
            y.len() <= x.len(),
            i <= y.len(),
            forall|j: int| 0 <= j < i ==> #[trigger] s@[j] == p@[j],
        decreases y.len() - i,
    {
        if x[i] != y[i] {
            assert(s@.subrange(0, p@.len() as int)[i as int] != p@[i as int]);
            return false;
        }
        i = i + 1;
    }
    assert(s@.subrange(0, p@.len() as int) =~= p@);
    true
}

/// Copies the characters of `s` into a vector.
pub fn chars_of(s: &str) -> (v: Vec<char>)
    ensures
        v@ == s@,
{
    let n = s.unicode_len();
    let mut v: Vec<char> = Vec::new();
    let mut i: usize = 0;
    while i < n
        invariant
            n == s@.len(),
            i <= n,
            v@ == s@.subrange(0, i as int),
        decreases n - i,
    {
        let c = s.get_char(i);
        v.push(c);
        i = i + 1;
        assert(v@ =~= s@.subrange(0, i as int));
    }
    assert(v@ =~= s@);
    v
}

/// `str::ends_with` for a string suffix.
pub open spec fn has_suffix(s: Seq<char>, p: Seq<char>) -> bool {
    p.len() <= s.len() && s.subrange(s.len() - p.len(), s.len() as int) == p
}

/// Whether `s` ends with `p`.
pub fn ends_with(s: &str, p: &str) -> (r: bool)
    ensures
        r == has_suffix(s@, p@),
{
    let x = chars_of(s);
    let y = chars_of(p);
    if y.len() > x.len() {
        return false;
    }
    let off = x.len() - y.len();
    let mut i: usize = 0;
    while i < y.len()
        invariant
            x@ == s@,
            y@ == p@,
            y.len() <= x.len(),
            off == x.len() - y.len(),
            i <= y.len(),
            forall|j: int| 0 <= j < i ==> #[trigger] s@[off + j] == p@[j],
        decreases y.len() - i,
    {
        if x[off + i] != y[i] {
            assert(s@.subrange(s@.len() - p@.len(), s@.len() as int)[i as int] != p@[i as int]);
            return false;
        }
        i = i + 1;
    }
    assert forall|j: int| 0 <= j < p@.len() implies #[trigger] s@.subrange(
        s@.len() - p@.len(),
        s@.len() as int,
    )[j] == p@[j] by {
        assert(s@[off + j] == p@[j]);
    }
    assert(s@.subrange(s@.len() - p@.len(), s@.len() as int) =~= p@);
    true
}

/// The concatenation of two strings.
pub fn concat_str(a: &str, b: &str) -> (r: String)
    ensures
        r@ == a@ + b@,
{
    let mut r = String::from_str(a);
    r.append(b);
    r
}

/// Appends one character, with `String::push`.
/// Trusted: std documents that `push` appends the character to the end of the string.
#[verifier::external_body]
pub(crate) fn push_char(s: &mut String, c: char)
    ensures
        final(s)@ == old(s)@.push(c),
{
    s.push(c);
}

/// Removes the last character, with `String::pop`.
/// Trusted: std documents that `pop` removes the last character and returns it, or returns
/// `None` when the string is empty.
#[verifier::external_body]
pub(crate) fn pop_char(s: &mut String) -> (r: Option<char>)
    ensures
        old(s)@.len() == 0 ==> r is None && final(s)@ == old(s)@,
        old(s)@.len() > 0 ==> r == Some(old(s)@.last()) && final(s)@ == old(s)@.drop_last(),
{
    s.pop()
}

} // verus!
