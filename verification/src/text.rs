//! Character-level string utilities with exact specifications.
use vstd::prelude::*;

verus! {

/// Appending one character to a `String` extends its character sequence by that character.
pub assume_specification[ String::push ](s: &mut String, ch: char)
    ensures
        final(s)@ == old(s)@.push(ch),
;

/// The characters of a string slice, in order.
pub fn chars_of(s: &str) -> (v: Vec<char>)
    ensures
        v@ == s@,
{
    let mut v: Vec<char> = Vec::new();
    for c in it: s.chars()
        invariant
            v@ == it.seq().take(it.index() as int),
            it.seq() == s@,
    {
        v.push(c);
    }
    v
}

/// A string made of the given characters.
pub fn string_of(v: &Vec<char>) -> (s: String)
    ensures
        s@ == v@,
{
    let s = string_of_range(v, 0, v.len());
    assert(v@.subrange(0, v@.len() as int) == v@);
    s
}

/// A string made of the characters of `v` at positions `from..to`.
pub fn string_of_range(v: &Vec<char>, from: usize, to: usize) -> (s: String)
    requires
        from <= to <= v.len(),
    ensures
        s@ == v@.subrange(from as int, to as int),
{
    let mut s = String::new();
    let mut i: usize = from;
    while i < to
        invariant
            from <= i <= to <= v.len(),
            s@ == v@.subrange(from as int, i as int),
        decreases to - i,
    {
        s.push(v[i]);
        assert(v@.subrange(from as int, i + 1) == v@.subrange(from as int, i as int).push(v@[i as int]));
        i = i + 1;
    }
    s
}

/// The characters of an optional string.
pub open spec fn opt_view(o: Option<String>) -> Option<Seq<char>> {
    match o {
        Some(s) => Some(s@),
        None => None,
    }
}

/// `p` is a prefix of `s`.
pub open spec fn has_prefix(s: Seq<char>, p: Seq<char>) -> bool {
    p.len() <= s.len() && s.subrange(0, p.len() as int) == p
}

/// `p` is a suffix of `s`.
pub open spec fn has_suffix(s: Seq<char>, p: Seq<char>) -> bool {
    p.len() <= s.len() && s.subrange(s.len() - p.len(), s.len() as int) == p
}

/// `s` without the suffix `p`, when `s` ends with `p`.
pub open spec fn strip_suffix_spec(s: Seq<char>, p: Seq<char>) -> Option<Seq<char>> {
    if has_suffix(s, p) {
        Some(s.subrange(0, s.len() - p.len()))
    } else {
        None
    }
}

/// `s` with every leading copy of `p` removed (no change for an empty `p`).
pub open spec fn trim_start_all(s: Seq<char>, p: Seq<char>) -> Seq<char>
    decreases s.len(),
{
    if p.len() > 0 && has_prefix(s, p) {
        trim_start_all(s.skip(p.len() as int), p)
    } else {
        s
    }
}

/// `s` with every trailing `c` removed.
pub open spec fn trim_end_char(s: Seq<char>, c: char) -> Seq<char>
    decreases s.len(),
{
    if s.len() > 0 && s.last() == c {
        trim_end_char(s.drop_last(), c)
    } else {
        s
    }
}

/// `i` is the position of the first `c` in `s`.
pub open spec fn is_first_index(s: Seq<char>, c: char, i: int) -> bool {
    0 <= i < s.len() && s[i] == c && forall|j: int| 0 <= j < i ==> s[j] != c
}

/// The position of the first `c` in `s`, if any.
pub open spec fn first_index(s: Seq<char>, c: char) -> Option<int> {
    if exists|i: int| is_first_index(s, c, i) {
        Some(choose|i: int| is_first_index(s, c, i))
    } else {
        None
    }
}

/// The decimal digit character for `d < 10`.
pub open spec fn digit_char(d: nat) -> char {
    if d == 0 { '0' } else if d == 1 { '1' } else if d == 2 { '2' } else if d == 3 { '3' }
    else if d == 4 { '4' } else if d == 5 { '5' } else if d == 6 { '6' } else if d == 7 { '7' }
    else if d == 8 { '8' } else { '9' }
}

/// The decimal rendering of `n`, without leading zeros.
pub open spec fn decimal(n: nat) -> Seq<char>
    decreases n,
{
    if n < 10 {
        seq![digit_char(n)]
    } else {
        decimal(n / 10).push(digit_char(n % 10))
    }
}

/// All characters are ASCII.
pub open spec fn is_ascii_seq(s: Seq<char>) -> bool {
    forall|i: int| 0 <= i < s.len() ==> (s[i] as u32) < 128
}

/// ASCII lowercase of one character.
pub open spec fn ascii_lower_char(c: char) -> char {
    if 'A' <= c && c <= 'Z' { ((c as u32) + 32) as char } else { c }
}

/// ASCII uppercase of one character.
pub open spec fn ascii_upper_char(c: char) -> char {
    if 'a' <= c && c <= 'z' { ((c as u32) - 32) as char } else { c }
}

/// ASCII lowercase of a character sequence.
pub open spec fn ascii_lower(s: Seq<char>) -> Seq<char> {
    s.map_values(|c: char| ascii_lower_char(c))
}

/// ASCII uppercase of a character sequence.
pub open spec fn ascii_upper(s: Seq<char>) -> Seq<char> {
    s.map_values(|c: char| ascii_upper_char(c))
}

/// What `str::to_lowercase` returns for a string with these characters.
pub uninterp spec fn unicode_lowercase(s: Seq<char>) -> Seq<char>;

/// What `str::to_uppercase` returns for a string with these characters.
pub uninterp spec fn unicode_uppercase(s: Seq<char>) -> Seq<char>;

/// Calls `str::to_lowercase`. Its result is named by `unicode_lowercase`; for an
/// ASCII string the Unicode lowercase mapping coincides with the ASCII one, which
/// is the only fact stated of its content.
#[verifier::external_body]
pub(crate) fn to_lowercase(s: &str) -> (r: String)
    ensures
        r@ == unicode_lowercase(s@),
        is_ascii_seq(s@) ==> r@ == ascii_lower(s@),
{
    s.to_lowercase()
}

/// Calls `str::to_uppercase`. Its result is named by `unicode_uppercase`; for an
/// ASCII string the Unicode uppercase mapping coincides with the ASCII one, which
/// is the only fact stated of its content.
#[verifier::external_body]
pub(crate) fn to_uppercase(s: &str) -> (r: String)
    ensures
        r@ == unicode_uppercase(s@),
        is_ascii_seq(s@) ==> r@ == ascii_upper(s@),
{
    s.to_uppercase()
}

/// Calls `std::str::from_utf8`: the text that the bytes encode, when they are
/// well-formed UTF-8 (as vstd defines it), and `None` when they are not.
#[verifier::external_body]
pub(crate) fn str_from_utf8(bytes: &[u8]) -> (r: Option<String>)
    ensures
        r is Some <==> vstd::utf8::valid_utf8(bytes@),
        r matches Some(s) ==> s@ == vstd::utf8::decode_utf8(bytes@),
{
    match std::str::from_utf8(bytes) {
        Ok(s) => Some(s.to_string()),
        Err(_) => None,
    }
}

/// Whether two string slices hold the same characters.
pub fn str_eq(a: &str, b: &str) -> (r: bool)
    ensures
        r == (a@ == b@),
{
    let x = chars_of(a);
    let y = chars_of(b);
    if x.len() != y.len() {
        return false;
    }
    let mut i: usize = 0;
    while i < x.len()
        invariant
            x.len() == y.len(),
            i <= x.len(),
            x@ == a@,
            y@ == b@,
            forall|j: int| 0 <= j < i ==> x@[j] == y@[j],
        decreases x.len() - i,
    {
        if x[i] != y[i] {
            return false;
        }
        i = i + 1;
    }
    assert(x@ =~= y@);
    true
}

/// Whether `s` starts with `p`.
pub fn starts_with(s: &str, p: &str) -> (r: bool)
    ensures
        r == has_prefix(s@, p@),
{
    let x = chars_of(s);
    let y = chars_of(p);
    let r = seq_starts_with(&x, 0, &y);
    assert(x@.skip(0) == x@);
    r
}

/// Whether `y` occurs in `x` at position `at`.
fn seq_starts_with(x: &Vec<char>, at: usize, y: &Vec<char>) -> (r: bool)
    requires
        at <= x.len(),
    ensures
        r == has_prefix(x@.skip(at as int), y@),
{
    if y.len() > x.len() - at {
        return false;
    }
    let mut i: usize = 0;
    while i < y.len()
        invariant
            y.len() <= x.len() - at,
            at <= x.len(),
            i <= y.len(),
            forall|j: int| 0 <= j < i ==> x@[at + j] == y@[j],
        decreases y.len() - i,
    {
        if x[at + i] != y[i] {
            assert(x@.skip(at as int).subrange(0, y@.len() as int)[i as int] == x@[at + i]);
            return false;
        }
        i = i + 1;
    }
    assert(x@.skip(at as int).subrange(0, y@.len() as int) =~= y@);
    true
}

/// Whether `s` ends with `p`.
pub fn ends_with(s: &str, p: &str) -> (r: bool)
    ensures
        r == has_suffix(s@, p@),
{
    let x = chars_of(s);
    let y = chars_of(p);
    if y.len() > x.len() {
        return false;
    }
    let at = x.len() - y.len();
    let r = seq_starts_with(&x, at, &y);
    assert(x@.skip(at as int).subrange(0, y@.len() as int) =~= x@.subrange(
        x@.len() - y@.len(),
        x@.len() as int,
    ));
    r
}

/// `s` without the suffix `p`, when `s` ends with `p`.
pub fn strip_suffix(s: &str, p: &str) -> (r: Option<String>)
    ensures
        r matches Some(t) ==> strip_suffix_spec(s@, p@) == Some(t@),
        r is None ==> strip_suffix_spec(s@, p@) is None,
{
    if ends_with(s, p) {
        let x = chars_of(s);
        let y = chars_of(p);
        let n = x.len() - y.len();
        Some(string_of_range(&x, 0, n))
    } else {
        None
    }
}

/// The position of the first `c` in `s`, if any.
pub fn find_char(s: &str, c: char) -> (r: Option<usize>)
    ensures
        r matches Some(i) ==> first_index(s@, c) == Some(i as int) && is_first_index(s@, c, i as int)
            && i < usize::MAX,
        r is None ==> first_index(s@, c) is None,
{
    let x = chars_of(s);
    let mut i: usize = 0;
    while i < x.len()
        invariant
            x@ == s@,
            i <= x.len(),
            forall|j: int| 0 <= j < i ==> x@[j] != c,
        decreases x.len() - i,
    {
        if x[i] == c {
            assert(is_first_index(s@, c, i as int));
            assert forall|k: int| is_first_index(s@, c, k) implies k == i by {
                if k < i {
                } else if k > i {
                    assert(s@[i as int] == c);
                }
            }
            return Some(i);
        }
        i = i + 1;
    }
    None
}

/// The characters of `s` from position `from` on.
pub fn suffix_from(s: &str, from: usize) -> (r: String)
    requires
        from <= s@.len(),
    ensures
        r@ == s@.skip(from as int),
{
    let x = chars_of(s);
    string_of_range(&x, from, x.len())
}

/// `s` with every leading copy of `p` removed.
pub fn trim_start_matches(s: &str, p: &str) -> (r: String)
    ensures
        r@ == trim_start_all(s@, p@),
{
    let x = chars_of(s);
    let y = chars_of(p);
    let mut at: usize = 0;
    if y.len() == 0 {
        return string_of(&x);
    }
    assert(s@.skip(0) == s@);
    while at < x.len() && seq_starts_with(&x, at, &y)
        invariant
            at <= x.len(),
            y.len() > 0,
            x@ == s@,
            y@ == p@,
            trim_start_all(s@, p@) == trim_start_all(s@.skip(at as int), p@),
        decreases x.len() - at,
    {
        assert(s@.skip(at as int).skip(y@.len() as int) =~= s@.skip(at + y@.len()));
        at = at + y.len();
    }
    if at == x.len() {
        assert(s@.skip(at as int).len() == 0);
    }
    let r = string_of_range(&x, at, x.len());
    assert(x@.subrange(at as int, x@.len() as int) =~= s@.skip(at as int));
    r
}

/// `s` with every trailing `c` removed.
pub fn trim_end_matches_char(s: &str, c: char) -> (r: String)
    ensures
        r@ == trim_end_char(s@, c),
{
    let x = chars_of(s);
    let mut n: usize = x.len();
    assert(s@.take(n as int) == s@);
    while n > 0 && x[n - 1] == c
        invariant
            n <= x.len(),
            x@ == s@,
            trim_end_char(s@, c) == trim_end_char(s@.take(n as int), c),
        decreases n,
    {
        assert(s@.take(n as int).drop_last() =~= s@.take(n - 1));
        n = n - 1;
    }
    let r = string_of_range(&x, 0, n);
    assert(x@.subrange(0, n as int) =~= s@.take(n as int));
    r
}

/// The decimal rendering of `n`.
pub fn u32_to_decimal(n: u32) -> (r: String)
    ensures
        r@ == decimal(n as nat),
{
    let mut digits: Vec<char> = Vec::new();
    let mut m: u32 = n;
    // digits holds the low-order digits, most significant first
    loop
        invariant
            decimal(n as nat) == decimal(m as nat) + digits@,
        decreases m,
    {
        if m < 10 {
            let mut s = String::new();
            s.push(digit(m));
            let mut i: usize = 0;
            while i < digits.len()
                invariant
                    i <= digits.len(),
                    s@ == decimal(m as nat) + digits@.take(i as int),
                decreases digits.len() - i,
            {
                s.push(digits[i]);
                assert(digits@.take(i + 1) == digits@.take(i as int).push(digits@[i as int]));
                i = i + 1;
            }
            assert(digits@.take(digits.len() as int) == digits@);
            return s;
        }
        let d = digit(m % 10);
        let ghost old_digits = digits@;
        digits.insert(0, d);
        assert(digits@ == seq![d] + old_digits);
        assert(decimal(m as nat) == decimal((m / 10) as nat).push(d));
        assert(decimal((m / 10) as nat).push(d) + old_digits =~= decimal((m / 10) as nat) + digits@);
        m = m / 10;
    }
}

/// The digit character for `d < 10`.
fn digit(d: u32) -> (c: char)
    requires
        d < 10,
    ensures
        c == digit_char(d as nat),
{
    if d == 0 { '0' } else if d == 1 { '1' } else if d == 2 { '2' } else if d == 3 { '3' }
    else if d == 4 { '4' } else if d == 5 { '5' } else if d == 6 { '6' } else if d == 7 { '7' }
    else if d == 8 { '8' } else { '9' }
}

} // verus!
