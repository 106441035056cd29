//! Character-level text helpers used across the request pipeline: trimming,
//! ASCII case folding, substring search and decimal rendering, each with a
//! mathematical model over `Seq<char>`.
use vstd::prelude::*;
use vstd::string::*;

verus! {

/// `String::push` of the standard library: the string afterwards is the string
/// before with `c` appended as its last character.
pub assume_specification[ String::push ](s: &mut String, c: char)
    ensures
        final(s)@ == old(s)@.push(c),
;

/// `==` on string slices (`PartialEq::eq` for `str`): true exactly when both
/// slices hold the same characters.
pub assume_specification[ <str as PartialEq>::eq ](a: &str, b: &str) -> (same: bool)
    ensures
        same == (a@ == b@),
;

/// Whether two string slices hold the same characters.
pub fn str_eq(a: &str, b: &str) -> (same: bool)
    ensures
        same == (a@ == b@),
{
    a.eq(b)
}

/// The code points with the Unicode `White_Space` property.
pub open spec fn is_whitespace(c: char) -> bool {
    let n = c as u32;
    (0x09 <= n && n <= 0x0D) || n == 0x20 || n == 0x85 || n == 0xA0 || n == 0x1680 || (0x2000 <= n
        && n <= 0x200A) || n == 0x2028 || n == 0x2029 || n == 0x202F || n == 0x205F || n == 0x3000
}

pub fn char_is_whitespace(c: char) -> (b: bool)
    ensures
        b == is_whitespace(c),
{
    let n: u32 = c as u32;
    (0x09 <= n && n <= 0x0D) || n == 0x20 || n == 0x85 || n == 0xA0 || n == 0x1680 || (0x2000 <= n
        && n <= 0x200A) || n == 0x2028 || n == 0x2029 || n == 0x202F || n == 0x205F || n == 0x3000
}

/// `s` without its leading whitespace.
pub open spec fn trim_start(s: Seq<char>) -> Seq<char>
    decreases s.len(),
{
    if s.len() > 0 && is_whitespace(s[0]) {
        trim_start(s.drop_first())
    } else {
        s
    }
}

/// `s` without its trailing whitespace.
pub open spec fn trim_end(s: Seq<char>) -> Seq<char>
    decreases s.len(),
{
    if s.len() > 0 && is_whitespace(s.last()) {
        trim_end(s.drop_last())
    } else {
        s
    }
}

/// `s` without leading and trailing whitespace.
pub open spec fn trimmed(s: Seq<char>) -> Seq<char> {
    trim_end(trim_start(s))
}

/// True when `s` holds nothing but whitespace.
pub open spec fn is_blank(s: Seq<char>) -> bool {
    trimmed(s).len() == 0
}

/// The characters of a string slice, in order.
pub fn chars_of(s: &str) -> (v: Vec<char>)
    ensures
        v@ == s@,
{
    let mut v: Vec<char> = Vec::new();
    for c in it: s.chars()
        invariant
            v@ == s@.take(it.index() as int),
            it.seq() == s@,
    {
        v.push(c);
    }
    v
}

/// The string made of `v[from..to]`.
pub fn string_of_range(v: &Vec<char>, from: usize, to: usize) -> (s: String)
    requires
        from <= to <= v.len(),
    ensures
        s@ == v@.subrange(from as int, to as int),
{
    let mut s = String::new();
    let mut i: usize = from;
    while i < to
        invariant
            from <= i <= to <= v.len(),
            s@ == v@.subrange(from as int, i as int),
        decreases to - i,
    {
        s.push(v[i]);
        i += 1;
    }
    s
}

/// The string made of the characters of `v`.
pub fn string_of(v: &Vec<char>) -> (s: String)
    ensures
        s@ == v@,
{
    let s = string_of_range(v, 0, v.len());
    assert(v@.subrange(0, v.len() as int) =~= v@);
    s
}

/// Skips the leading whitespace of `v[from..to]`.
pub fn skip_whitespace(v: &Vec<char>, from: usize, to: usize) -> (i: usize)
    requires
        from <= to <= v.len(),
    ensures
        from <= i <= to,
        v@.subrange(i as int, to as int) == trim_start(v@.subrange(from as int, to as int)),
{
    let mut i: usize = from;
    while i < to && char_is_whitespace(v[i])
        invariant
            from <= i <= to <= v.len(),
            trim_start(v@.subrange(from as int, to as int)) == trim_start(
                v@.subrange(i as int, to as int),
            ),
        decreases to - i,
    {
        assert(v@.subrange(i as int, to as int).drop_first() =~= v@.subrange(
            i as int + 1,
            to as int,
        ));
        i += 1;
    }
    i
}

/// Skips the trailing whitespace of `v[from..to]`.
pub fn skip_whitespace_back(v: &Vec<char>, from: usize, to: usize) -> (j: usize)
    requires
        from <= to <= v.len(),
    ensures
        from <= j <= to,
        v@.subrange(from as int, j as int) == trim_end(v@.subrange(from as int, to as int)),
{
    let mut j: usize = to;
    while j > from && char_is_whitespace(v[j - 1])
        invariant
            from <= j <= to <= v.len(),
            trim_end(v@.subrange(from as int, to as int)) == trim_end(
                v@.subrange(from as int, j as int),
            ),
        decreases j - from,
    {
        assert(v@.subrange(from as int, j as int).drop_last() =~= v@.subrange(
            from as int,
            j as int - 1,
        ));
        j -= 1;
    }
    j
}

/// The bounds of `trimmed(v@)` inside `v`.
pub fn trim_bounds(v: &Vec<char>) -> (bounds: (usize, usize))
    ensures
        bounds.0 <= bounds.1 <= v.len(),
        v@.subrange(bounds.0 as int, bounds.1 as int) == trimmed(v@),
{
    let n = v.len();
    assert(v@.subrange(0, n as int) =~= v@);
    let start = skip_whitespace(v, 0, n);
    let end = skip_whitespace_back(v, start, n);
    (start, end)
}

/// The index of the last `c` in `s`, or -1 when there is none.
pub open spec fn last_index_of(s: Seq<char>, c: char) -> int
    decreases s.len(),
{
    if s.len() == 0 {
        -1
    } else if s.last() == c {
        s.len() - 1
    } else {
        last_index_of(s.drop_last(), c)
    }
}

/// The index of the last `c` in `v[from..to]`, counted from `from`.
pub fn find_last(v: &Vec<char>, c: char, from: usize, to: usize) -> (r: Option<usize>)
    requires
        from <= to <= v.len(),
    ensures
        match r {
            Some(i) => i < to - from && i as int == last_index_of(
                v@.subrange(from as int, to as int),
                c,
            ),
            None => last_index_of(v@.subrange(from as int, to as int), c) == -1,
        },
{
    let mut j: usize = to;
    while j > from
        invariant
            from <= j <= to <= v.len(),
            last_index_of(v@.subrange(from as int, to as int), c) == last_index_of(
                v@.subrange(from as int, j as int),
                c,
            ),
        decreases j - from,
    {
        if v[j - 1] == c {
            return Some(j - 1 - from);
        }
        assert(v@.subrange(from as int, j as int).drop_last() =~= v@.subrange(
            from as int,
            j as int - 1,
        ));
        j -= 1;
    }
    None
}

/// The index of the first `c` in `s`, or `s.len()` when there is none.
pub open spec fn first_index_of(s: Seq<char>, c: char) -> int
    decreases s.len(),
{
    if s.len() == 0 || s[0] == c {
        0
    } else {
        1 + first_index_of(s.drop_first(), c)
    }
}

/// The index of the first `c` in `v`, or `v.len()` when there is none.
pub fn find_first(v: &Vec<char>, c: char) -> (i: usize)
    ensures
        i <= v.len(),
        i as int == first_index_of(v@, c),
{
    let mut i: usize = 0;
    assert(v@.skip(0) =~= v@);
    while i < v.len() && v[i] != c
        invariant
            i <= v.len(),
            first_index_of(v@, c) == i + first_index_of(v@.skip(i as int), c),
        decreases v.len() - i,
    {
        assert(v@.skip(i as int).drop_first() =~= v@.skip(i as int + 1));
        i += 1;
    }
    i
}

/// An optional string as an optional sequence of characters.
pub open spec fn opt_view(o: Option<String>) -> Option<Seq<char>> {
    match o {
        Some(s) => Some(s@),
        None => None,
    }
}

/// An optional string slice as an optional sequence of characters.
pub open spec fn opt_str_view(o: Option<&str>) -> Option<Seq<char>> {
    match o {
        Some(s) => Some(s@),
        None => None,
    }
}

/// The trimmed text, or `None` when nothing but whitespace is left.
pub open spec fn non_empty_spec(s: Seq<char>) -> Option<Seq<char>> {
    if is_blank(s) {
        None
    } else {
        Some(trimmed(s))
    }
}

/// `value` without leading and trailing whitespace.
pub fn trim(value: &str) -> (r: &str)
    ensures
        r@ == trimmed(value@),
{
    let chars = chars_of(value);
    let (start, end) = trim_bounds(&chars);
    value.substring_char(start, end)
}

/// The trimmed text, or `None` when nothing but whitespace is left.
pub fn non_empty(value: &str) -> (r: Option<&str>)
    ensures
        opt_str_view(r) == non_empty_spec(value@),
{
    let t = trim(value);
    if t.unicode_len() == 0 {
        None
    } else {
        Some(t)
    }
}

/// The trimmed text as an owned string, or `None` when nothing but whitespace
/// is left.
pub fn normalize_optional_text(value: String) -> (r: Option<String>)
    ensures
        opt_view(r) == non_empty_spec(value@),
{
    match non_empty(value.as_str()) {
        Some(t) => Some(t.to_owned()),
        None => None,
    }
}

/// The lower-case form of an ASCII capital; any other character unchanged.
pub open spec fn ascii_lower(c: char) -> char {
    if 'A' <= c && c <= 'Z' {
        ((c as u8) + 32) as char
    } else {
        c
    }
}

pub fn char_to_ascii_lower(c: char) -> (r: char)
    ensures
        r == ascii_lower(c),
{
    if 'A' <= c && c <= 'Z' {
        ((c as u8) + 32) as char
    } else {
        c
    }
}

/// `s` with every ASCII capital replaced by its lower-case form.
pub open spec fn ascii_lowercase(s: Seq<char>) -> Seq<char> {
    Seq::new(s.len(), |i: int| ascii_lower(s[i]))
}

pub fn to_ascii_lowercase(v: &Vec<char>) -> (r: Vec<char>)
    ensures
        r@ == ascii_lowercase(v@),
{
    let mut r: Vec<char> = Vec::new();
    let mut i: usize = 0;
    while i < v.len()
        invariant
            i <= v.len(),
            r@ == ascii_lowercase(v@.take(i as int)),
        decreases v.len() - i,
    {
        r.push(char_to_ascii_lower(v[i]));
        i += 1;
        assert(r@ =~= ascii_lowercase(v@.take(i as int)));
    }
    assert(v@.take(v.len() as int) =~= v@);
    r
}

/// `needle` occurs in `hay` starting at index `i`.
pub open spec fn occurs_at(hay: Seq<char>, needle: Seq<char>, i: int) -> bool {
    0 <= i && i + needle.len() <= hay.len() && hay.subrange(i, i + needle.len()) == needle
}

/// `needle` occurs somewhere in `hay`.
pub open spec fn contains_text(hay: Seq<char>, needle: Seq<char>) -> bool {
    exists|i: int| occurs_at(hay, needle, i)
}

/// Whether `needle` occurs in `hay` at index `at`.
pub fn matches_at(hay: &Vec<char>, needle: &Vec<char>, at: usize) -> (b: bool)
    requires
        at + needle.len() <= hay.len(),
    ensures
        b == occurs_at(hay@, needle@, at as int),
{
    let m = needle.len();
    let mut k: usize = 0;
    while k < m
        invariant
            k <= m,
            m == needle.len(),
            at + m <= hay.len(),
            forall|j: int| 0 <= j < k ==> hay@[at + j] == needle@[j],
        decreases m - k,
    {
        if hay[at + k] != needle[k] {
            assert(hay@.subrange(at as int, at + m)[k as int] != needle@[k as int]);
            return false;
        }
        k += 1;
    }
    assert(hay@.subrange(at as int, at + m) =~= needle@);
    true
}

pub fn chars_contain(hay: &Vec<char>, needle: &Vec<char>) -> (b: bool)
    ensures
        b == contains_text(hay@, needle@),
{
    let n = hay.len();
    let m = needle.len();
    if m > n {
        return false;
    }
    if m == 0 {
        assert(hay@.subrange(0, 0) =~= needle@);
        assert(occurs_at(hay@, needle@, 0));
        return true;
    }
    let mut i: usize = 0;
    while i <= n - m
        invariant
            1 <= m <= n,
            n == hay.len(),
            m == needle.len(),
            i <= n - m + 1,
            forall|j: int| 0 <= j < i ==> !occurs_at(hay@, needle@, j),
        decreases n - m + 1 - i,
    {
        if matches_at(hay, needle, i) {
            return true;
        }
        i += 1;
    }
    false
}

/// `s` ends with `suffix`.
pub open spec fn ends_with(s: Seq<char>, suffix: Seq<char>) -> bool {
    suffix.len() <= s.len() && s.skip(s.len() - suffix.len()) == suffix
}

pub fn chars_end_with(v: &Vec<char>, suffix: &Vec<char>) -> (b: bool)
    ensures
        b == ends_with(v@, suffix@),
{
    if suffix.len() > v.len() {
        return false;
    }
    let at = v.len() - suffix.len();
    let b = matches_at(v, suffix, at);
    assert(v@.subrange(at as int, at + suffix.len()) =~= v@.skip(at as int));
    b
}

pub fn chars_equal(a: &Vec<char>, b: &Vec<char>) -> (same: bool)
    ensures
        same == (a@ == b@),
{
    if a.len() != b.len() {
        return false;
    }
    let same = matches_at(a, b, 0);
    assert(a@.subrange(0, b.len() as int) =~= a@);
    same
}

/// The character for a decimal digit.
pub open spec fn digit_char(d: nat) -> char
    recommends
        d < 10,
{
    ((48 + d) as u8) as char
}

/// The decimal notation of `n`, without sign or leading zeros.
pub open spec fn decimal_digits(n: nat) -> Seq<char>
    decreases n,
{
    if n < 10 {
        seq![digit_char(n)]
    } else {
        decimal_digits(n / 10).push(digit_char(n % 10))
    }
}

/// Appends the decimal notation of `n` to `out`.
pub fn push_decimal(out: &mut String, n: u64)
    ensures
        final(out)@ == old(out)@ + decimal_digits(n as nat),
    decreases n,
{
    if n >= 10 {
        push_decimal(out, n / 10);
    }
    let d: u8 = (n % 10) as u8;
    out.push((48 + d) as char);
    assert(final(out)@ =~= old(out)@ + decimal_digits(n as nat));
}

/// The decimal notation of `n` as a string.
pub fn decimal_string(n: u64) -> (s: String)
    ensures
        s@ == decimal_digits(n as nat),
{
    let mut s = String::new();
    push_decimal(&mut s, n);
    assert(Seq::<char>::empty() + decimal_digits(n as nat) =~= decimal_digits(n as nat));
    s
}

/// The pieces of `s` between occurrences of `sep`; one more than there are
/// separators.
pub open spec fn split_on(s: Seq<char>, sep: char) -> Seq<Seq<char>>
    decreases s.len(),
{
    if s.len() == 0 {
        seq![Seq::empty()]
    } else {
        let before = split_on(s.drop_last(), sep);
        if s.last() == sep {
            before.push(Seq::empty())
        } else {
            before.drop_last().push(before.last().push(s.last()))
        }
    }
}

/// The views of a vector of character vectors.
pub open spec fn pieces_view(pieces: Seq<Vec<char>>) -> Seq<Seq<char>> {
    pieces.map_values(|p: Vec<char>| p@)
}

pub fn split_chars(v: &Vec<char>, sep: char) -> (pieces: Vec<Vec<char>>)
    ensures
        pieces_view(pieces@) == split_on(v@, sep),
{
    let mut pieces: Vec<Vec<char>> = Vec::new();
    let mut current: Vec<char> = Vec::new();
    let mut i: usize = 0;
    assert(pieces_view(pieces@).push(current@) =~= split_on(v@.take(0), sep));
    while i < v.len()
        invariant
            i <= v.len(),
            pieces_view(pieces@).push(current@) == split_on(v@.take(i as int), sep),
        decreases v.len() - i,
    {
        let ghost before = split_on(v@.take(i as int), sep);
        proof {
            assert(v@.take(i as int + 1).drop_last() =~= v@.take(i as int));
            assert(before.last() == current@);
            assert(before.drop_last() =~= pieces_view(pieces@));
        }
        if v[i] == sep {
            let ghost done = pieces_view(pieces@);
            pieces.push(current);
            current = Vec::new();
            assert(pieces_view(pieces@) =~= before);
        } else {
            current.push(v[i]);
        }
        i += 1;
    }
    assert(v@.take(v.len() as int) =~= v@);
    let ghost done = pieces_view(pieces@);
    pieces.push(current);
    assert(pieces_view(pieces@) =~= done.push(current@));
    pieces
}

/// An ASCII decimal digit.
pub open spec fn is_digit(c: char) -> bool {
    '0' <= c && c <= '9'
}

pub open spec fn all_digits(s: Seq<char>) -> bool {
    forall|i: int| 0 <= i < s.len() ==> is_digit(#[trigger] s[i])
}

/// The number that a sequence of decimal digits denotes.
pub open spec fn digits_value(s: Seq<char>) -> nat
    decreases s.len(),
{
    if s.len() == 0 {
        0
    } else {
        (digits_value(s.drop_last()) * 10 + (s.last() as u8 - 48)) as nat
    }
}

/// `s` without the `+` that may stand in front of a number.
pub open spec fn unsigned_digits(s: Seq<char>) -> Seq<char> {
    if s.len() > 0 && s[0] == '+' {
        s.skip(1)
    } else {
        s
    }
}

/// The number written in `s`: decimal digits, at least one, after an
/// optional `+`; `None` for anything else and for a number above `max`.
pub open spec fn parse_unsigned_spec(s: Seq<char>, max: u64) -> Option<u64> {
    let digits = unsigned_digits(s);
    if digits.len() > 0 && all_digits(digits) && digits_value(digits) <= max {
        Some(digits_value(digits) as u64)
    } else {
        None
    }
}

/// The value of digits does not shrink when more digits follow.
pub proof fn lemma_digits_value_grows(s: Seq<char>, k: int)
    requires
        all_digits(s),
        0 <= k <= s.len(),
    ensures
        digits_value(s.take(k)) <= digits_value(s),
    decreases s.len() - k,
{
    if k == s.len() {
        assert(s.take(k) =~= s);
    } else {
        lemma_digits_value_grows(s, k + 1);
        assert(s.take(k + 1).drop_last() =~= s.take(k));
        assert(is_digit(s[k]));
        assert(s.take(k + 1).last() == s[k]);
    }
}

pub fn parse_unsigned(v: &Vec<char>, max: u64) -> (r: Option<u64>)
    ensures
        r == parse_unsigned_spec(v@, max),
{
    let start: usize = if v.len() > 0 && v[0] == '+' {
        1
    } else {
        0
    };
    let ghost digits = unsigned_digits(v@);
    assert(digits =~= v@.skip(start as int));
    if start == v.len() {
        return None;
    }
    let mut acc: u64 = 0;
    let mut i: usize = start;
    assert(digits.take(0) =~= Seq::<char>::empty());
    while i < v.len()
        invariant
            start <= i <= v.len(),
            start < v.len(),
            digits == unsigned_digits(v@),
            digits == v@.skip(start as int),
            all_digits(digits.take(i - start)),
            acc == digits_value(digits.take(i - start)),
            acc <= max,
        decreases v.len() - i,
    {
        let c = v[i];
        let ghost k = i - start;
        proof {
            assert(digits[k] == c);
            assert(digits.take(k + 1).drop_last() =~= digits.take(k));
            assert(digits.take(k + 1).last() == c);
        }
        if !('0' <= c && c <= '9') {
            assert(!all_digits(digits));
            return None;
        }
        let d: u8 = c as u8 - 48;
        assert(all_digits(digits.take(k + 1))) by {
            assert forall|j: int| 0 <= j < k + 1 implies is_digit(
                #[trigger] digits.take(k + 1)[j],
            ) by {
                if j < k {
                    assert(digits.take(k)[j] == digits.take(k + 1)[j]);
                }
            }
        }
        let next: u128 = (acc as u128) * 10 + (d as u128);
        assert(next == digits_value(digits.take(k + 1)));
        if next > max as u128 {
            proof {
                if all_digits(digits) {
                    lemma_digits_value_grows(digits, k + 1);
                }
            }
            return None;
        }
        acc = next as u64;
        i += 1;
    }
    assert(digits.take(v.len() - start) =~= digits);
    Some(acc)
}

} // verus!
