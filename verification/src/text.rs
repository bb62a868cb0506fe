//! Characters and strings: what the rest of the library reads a `str` as,
//! and the few `char` properties it asks std about.

use vstd::prelude::*;
use vstd::string::*;

verus! {

/// Whether `c` has Unicode's `White_Space` property, as
/// `char::is_whitespace` answers: the ASCII tab, line feed, vertical tab,
/// form feed, carriage return and space, next line, no-break space, the
/// Ogham space mark, the spaces from U+2000 to U+200A, the line and
/// paragraph separators, the narrow no-break space, the medium
/// mathematical space and the ideographic space.
pub open spec fn whitespace_char(c: char) -> bool {
    let n = c as u32;
    ||| 0x9 <= n <= 0xD
    ||| n == 0x20
    ||| n == 0x85
    ||| n == 0xA0
    ||| n == 0x1680
    ||| 0x2000 <= n <= 0x200A
    ||| n == 0x2028
    ||| n == 0x2029
    ||| n == 0x202F
    ||| n == 0x205F
    ||| n == 0x3000
}

/// Whether `c` is alphabetic or numeric in Unicode's sense, as
/// `char::is_alphanumeric` answers.
pub uninterp spec fn alphanumeric_char(c: char) -> bool;

/// Whether `c` has Unicode's `Uppercase` property, as
/// `char::is_uppercase` answers.
pub uninterp spec fn uppercase_char(c: char) -> bool;

/// Whether `c` has the White_Space property.
pub(crate) fn is_whitespace(c: char) -> (b: bool)
    ensures
        b == whitespace_char(c),
{
    let n = c as u32;
    (0x9 <= n && n <= 0xD) || n == 0x20 || n == 0x85 || n == 0xA0 || n == 0x1680 || (0x2000 <= n && n <= 0x200A)
        || n == 0x2028 || n == 0x2029 || n == 0x202F || n == 0x205F || n == 0x3000
}

/// `char::is_alphanumeric`: its answer is named, not spelled out beyond
/// ASCII, where it is the letters and the digits.
#[verifier::external_body]
pub(crate) fn is_alphanumeric(c: char) -> (b: bool)
    ensures
        b == alphanumeric_char(c),
        (c as u32) < 0x80 ==> (b <==> ('a' <= c <= 'z' || 'A' <= c <= 'Z' || '0' <= c <= '9')),
{
    c.is_alphanumeric()
}

/// `char::is_uppercase`: its answer is named, not spelled out.
#[verifier::external_body]
pub(crate) fn is_uppercase(c: char) -> (b: bool)
    ensures
        b == uppercase_char(c),
{
    c.is_uppercase()
}

/// `String::push`: the string gains `c` at its end.
#[verifier::external_body]
pub(crate) fn push_char(s: &mut String, c: char)
    ensures
        final(s)@ == old(s)@.push(c),
{
    s.push(c)
}

/// Whether `a` and `b` hold the same characters.
pub fn str_eq(a: &str, b: &str) -> (same: bool)
    ensures
        same == (a@ == b@),
{
    let n = a.unicode_len();
    if n != b.unicode_len() {
        return false;
    }
    let mut i: usize = 0;
    while i < n
        invariant
            n == a@.len() == b@.len(),
            i <= n,
            forall|j: int| 0 <= j < i ==> a@[j] == b@[j],
        decreases n - i,
    {
        if a.get_char(i) != b.get_char(i) {
            return false;
        }
        i = i + 1;
    }
    assert(a@ =~= b@);
    true
}

/// The characters of `s`, in order.
pub fn chars_of(s: &str) -> (v: Vec<char>)
    ensures
        v@ == s@,
{
    let n = s.unicode_len();
    let mut v: Vec<char> = Vec::new();
    let mut i: usize = 0;
    while i < n
        invariant
            n == s@.len(),
            i <= n,
            v@ == s@.subrange(0, i as int),
        decreases n - i,
    {
        let c = s.get_char(i);
        v.push(c);
        i = i + 1;
        assert(v@ =~= s@.subrange(0, i as int));
    }
    assert(v@ =~= s@);
    v
}

/// The string of the characters `v[from..to]`.
pub fn string_of_range(v: &Vec<char>, from: usize, to: usize) -> (s: String)
    requires
        from <= to <= v@.len(),
    ensures
        s@ == v@.subrange(from as int, to as int),
{
    let mut s = String::new();
    let mut i = from;
    while i < to
        invariant
            from <= i <= to <= v@.len(),
            s@ == v@.subrange(from as int, i as int),
        decreases to - i,
    {
        push_char(&mut s, v[i]);
        i = i + 1;
        assert(s@ =~= v@.subrange(from as int, i as int));
    }
    s
}

/// The string of the characters `v`.
pub fn string_of(v: &Vec<char>) -> (s: String)
    ensures
        s@ == v@,
{
    let s = string_of_range(v, 0, v.len());
    assert(v@.subrange(0, v@.len() as int) =~= v@);
    s
}

/// `a` then `b`, as a new string.
pub fn concat(a: &str, b: &str) -> (s: String)
    ensures
        s@ == a@ + b@,
{
    let mut s = a.to_owned();
    s.append(b);
    s
}

} // verus!

verus! {

/// How `{:?}` writes a string: quoted, with its escapes.
pub uninterp spec fn debug_quoted(s: Seq<char>) -> Seq<char>;

/// `format!("{s:?}")`: the string as Rust's `Debug` writes it, named
/// rather than spelled out.
#[verifier::external_body]
pub(crate) fn debug_str(s: &str) -> (d: String)
    ensures
        d@ == debug_quoted(s@),
{
    format!("{s:?}")
}

} // verus!

verus! {

/// What `s.push(x)` contains: what `s` does, and `x`.
pub proof fn lemma_push_contains<A>(s: Seq<A>, x: A, y: A)
    ensures
        s.push(x).contains(y) == (s.contains(y) || x == y),
{
    let d = s.push(x);
    if x == y {
        assert(d[d.len() - 1] == y);
    }
    if s.contains(y) {
        let k = choose|k: int| 0 <= k < s.len() && s[k] == y;
        assert(d[k] == y);
    }
    if d.contains(y) && x != y {
        let k = choose|k: int| 0 <= k < d.len() && d[k] == y;
        assert(s[k] == y);
    }
}

} // verus!

verus! {

/// The digit `d` (0 to 9) as a character.
pub open spec fn digit_char(d: nat) -> char {
    (('0' as int) + d) as char
}

/// `n` in decimal, as `{}` writes an integer.
pub open spec fn decimal_spec(n: nat) -> Seq<char>
    decreases n,
{
    if n < 10 {
        seq![digit_char(n)]
    } else {
        decimal_spec(n / 10).push(digit_char(n % 10))
    }
}

/// `n` in decimal.
pub fn decimal(n: u64) -> (s: String)
    ensures
        s@ == decimal_spec(n as nat),
    decreases n,
{
    let d = (n % 10) as u8;
    let c = (48u8 + d) as char;
    assert(c == digit_char((n % 10) as nat));
    if n < 10 {
        let mut s = String::new();
        push_char(&mut s, c);
        assert(s@ =~= seq![c]);
        s
    } else {
        let mut s = decimal(n / 10);
        push_char(&mut s, c);
        s
    }
}

/// Whether `c` is an ASCII digit.
pub open spec fn is_digit(c: char) -> bool {
    '0' <= c <= '9'
}

/// The value of the decimal digits `t`.
pub open spec fn digits_value(t: Seq<char>) -> nat
    decreases t.len(),
{
    if t.len() == 0 {
        0
    } else {
        digits_value(t.drop_last()) * 10 + ((t.last() as int - '0' as int) as nat)
    }
}

/// The whole number `t` writes, if it is one: one or more ASCII digits,
/// no sign, no point, no exponent, and no more than fits in a `u64`.
pub open spec fn whole_number(t: Seq<char>) -> Option<nat> {
    if t.len() > 0 && (forall|i: int| 0 <= i < t.len() ==> is_digit(#[trigger] t[i]))
        && digits_value(t) <= u64::MAX {
        Some(digits_value(t))
    } else {
        None
    }
}

/// The digits seen so far only grow the value.
proof fn lemma_digits_grow(t: Seq<char>, n: int)
    requires
        0 <= n <= t.len(),
        forall|i: int| 0 <= i < t.len() ==> is_digit(#[trigger] t[i]),
    ensures
        digits_value(t.subrange(0, n)) <= digits_value(t),
    decreases t.len() - n,
{
    if n < t.len() {
        lemma_digits_grow(t, n + 1);
        assert(t.subrange(0, n + 1).drop_last() =~= t.subrange(0, n));
    } else {
        assert(t.subrange(0, n) =~= t);
    }
}

/// The `u64` the text `t` writes, as a whole number.
pub fn parse_u64(t: &str) -> (r: Option<u64>)
    ensures
        match r {
            Some(v) => whole_number(t@) == Some(v as nat),
            None => whole_number(t@) is None,
        },
{
    let n = t.unicode_len();
    if n == 0 {
        return None;
    }
    let mut value: u64 = 0;
    let mut i: usize = 0;
    while i < n
        invariant
            n == t@.len(),
            i <= n,
            forall|j: int| 0 <= j < i ==> is_digit(#[trigger] t@[j]),
            value == digits_value(t@.subrange(0, i as int)),
        decreases n - i,
    {
        let c = t.get_char(i);
        if !('0' <= c && c <= '9') {
            return None;
        }
        assert(t@.subrange(0, i + 1).drop_last() =~= t@.subrange(0, i as int));
        let d = ((c as u32) - ('0' as u32)) as u64;
        let next = match value.checked_mul(10) {
            Some(m) => m.checked_add(d),
            None => None,
        };
        match next {
            Some(v) => {
                value = v;
            },
            None => {
                proof {
                    assert(digits_value(t@.subrange(0, i + 1)) == value * 10 + d);
                    if forall|j: int| 0 <= j < t@.len() ==> is_digit(#[trigger] t@[j]) {
                        lemma_digits_grow(t@, i + 1);
                    }
                }
                return None;
            },
        }
        i = i + 1;
    }
    assert(t@.subrange(0, n as int) =~= t@);
    Some(value)
}

} // verus!

verus! {

/// `s` as `str::to_lowercase` gives it, by Unicode's case mappings.
pub uninterp spec fn lowercase_of(s: Seq<char>) -> Seq<char>;

/// `c` with an ASCII uppercase letter made lowercase.
pub open spec fn ascii_to_lower(c: char) -> char {
    if 'A' <= c <= 'Z' {
        ((c as u32) + 32) as char
    } else {
        c
    }
}

/// `c` with an ASCII lowercase letter made uppercase.
pub open spec fn ascii_to_upper(c: char) -> char {
    if 'a' <= c <= 'z' {
        ((c as u32) - 32) as char
    } else {
        c
    }
}

/// Whether every character of `s` is ASCII.
pub open spec fn all_ascii(s: Seq<char>) -> bool {
    forall|i: int| 0 <= i < s.len() ==> (#[trigger] s[i] as u32) < 0x80
}

/// `c` as `char::to_uppercase` gives it: one or more characters.
pub uninterp spec fn char_uppercase(c: char) -> Seq<char>;

/// `c` as `char::to_lowercase` gives it: one or more characters.
pub uninterp spec fn char_lowercase(c: char) -> Seq<char>;

/// `str::to_lowercase`: its result is named, not spelled out beyond
/// ASCII, which it maps as `to_ascii_lowercase` does.
#[verifier::external_body]
pub(crate) fn to_lowercase(s: &str) -> (r: String)
    ensures
        r@ == lowercase_of(s@),
        all_ascii(s@) ==> r@ == s@.map_values(|c: char| ascii_to_lower(c)),
{
    s.to_lowercase()
}

/// `char::to_uppercase`, collected: its result is named, not spelled out
/// beyond ASCII, where it is the one character `to_ascii_uppercase` gives.
#[verifier::external_body]
pub(crate) fn to_uppercase_char(c: char) -> (r: String)
    ensures
        r@ == char_uppercase(c),
        (c as u32) < 0x80 ==> r@ == seq![ascii_to_upper(c)],
{
    c.to_uppercase().collect()
}

/// `char::to_lowercase`, collected: its result is named, not spelled out
/// beyond ASCII, where it is the one character `to_ascii_lowercase` gives.
#[verifier::external_body]
pub(crate) fn to_lowercase_char(c: char) -> (r: String)
    ensures
        r@ == char_lowercase(c),
        (c as u32) < 0x80 ==> r@ == seq![ascii_to_lower(c)],
{
    c.to_lowercase().collect()
}

/// How many whitespace characters `s` starts with.
pub open spec fn leading_ws(s: Seq<char>) -> nat
    decreases s.len(),
{
    if s.len() > 0 && whitespace_char(s[0]) {
        1 + leading_ws(s.subrange(1, s.len() as int))
    } else {
        0
    }
}

/// How many whitespace characters `s` ends with.
pub open spec fn trailing_ws(s: Seq<char>) -> nat
    decreases s.len(),
{
    if s.len() > 0 && whitespace_char(s.last()) {
        1 + trailing_ws(s.drop_last())
    } else {
        0
    }
}

proof fn lemma_leading_ws(s: Seq<char>)
    ensures
        leading_ws(s) <= s.len(),
        forall|i: int| 0 <= i < leading_ws(s) ==> whitespace_char(#[trigger] s[i]),
        leading_ws(s) < s.len() ==> !whitespace_char(s[leading_ws(s) as int]),
    decreases s.len(),
{
    if s.len() > 0 && whitespace_char(s[0]) {
        let rest = s.subrange(1, s.len() as int);
        lemma_leading_ws(rest);
        assert forall|i: int| 0 <= i < leading_ws(s) implies whitespace_char(#[trigger] s[i]) by {
            if i > 0 {
                assert(s[i] == rest[i - 1]);
            }
        }
    }
}

proof fn lemma_trailing_ws(s: Seq<char>)
    ensures
        trailing_ws(s) <= s.len(),
        forall|i: int| s.len() - trailing_ws(s) <= i < s.len() ==> whitespace_char(#[trigger] s[i]),
        trailing_ws(s) < s.len() ==> !whitespace_char(s[s.len() - trailing_ws(s) - 1]),
    decreases s.len(),
{
    if s.len() > 0 && whitespace_char(s.last()) {
        let rest = s.drop_last();
        lemma_trailing_ws(rest);
        assert forall|i: int| s.len() - trailing_ws(s) <= i < s.len() implies whitespace_char(#[trigger] s[i]) by {
            if i < s.len() - 1 {
                assert(s[i] == rest[i]);
            }
        }
    }
}

/// `s` without whitespace at either end, as `str::trim` gives it: all of
/// it whitespace gives nothing.
pub open spec fn trim_spec(s: Seq<char>) -> Seq<char> {
    let start = leading_ws(s);
    if start == s.len() {
        Seq::empty()
    } else {
        s.subrange(start as int, s.len() - trailing_ws(s))
    }
}

/// `s` without whitespace at either end.
pub fn trim(s: &str) -> (t: String)
    ensures
        t@ == trim_spec(s@),
{
    let chars = chars_of(s);
    let n = chars.len();
    let mut start: usize = 0;
    assert(s@.subrange(0, n as int) =~= s@);
    while start < n && is_whitespace(chars[start])
        invariant
            n == s@.len(),
            chars@ == s@,
            start <= n,
            leading_ws(s@) == start + leading_ws(s@.subrange(start as int, n as int)),
        decreases n - start,
    {
        assert(s@.subrange(start as int, n as int).subrange(1, (n - start) as int) =~= s@.subrange(start + 1, n as int));
        start = start + 1;
    }
    assert(leading_ws(s@.subrange(start as int, n as int)) == 0) by {
        if start < n {
            assert(s@.subrange(start as int, n as int)[0] == s@[start as int]);
        }
    }
    if start == n {
        return String::new();
    }
    let mut end: usize = n;
    assert(s@.subrange(0, n as int) =~= s@);
    while end > start && is_whitespace(chars[end - 1])
        invariant
            n == s@.len(),
            chars@ == s@,
            start < n,
            start < end <= n,
            !whitespace_char(s@[start as int]),
            trailing_ws(s@) == (n - end) + trailing_ws(s@.subrange(0, end as int)),
        decreases end,
    {
        assert(s@.subrange(0, end as int).drop_last() =~= s@.subrange(0, end - 1));
        end = end - 1;
    }
    assert(s@.subrange(0, end as int).last() == s@[end - 1]);
    assert(trailing_ws(s@.subrange(0, end as int)) == 0);
    string_of_range(&chars, start, end)
}

/// Whether `s` starts with `prefix`.
pub open spec fn has_prefix_spec(s: Seq<char>, prefix: Seq<char>) -> bool {
    s.len() >= prefix.len() && s.subrange(0, prefix.len() as int) == prefix
}

/// Whether `s` starts with `prefix`.
pub fn has_prefix(s: &str, prefix: &str) -> (b: bool)
    ensures
        b == has_prefix_spec(s@, prefix@),
{
    let n = s.unicode_len();
    let m = prefix.unicode_len();
    n >= m && str_eq(s.substring_char(0, m), prefix)
}

/// Whether `q` occurs in `s`.
pub open spec fn contains_spec(s: Seq<char>, q: Seq<char>) -> bool {
    exists|i: int| 0 <= i && i + q.len() <= s.len() && #[trigger] s.subrange(i, i + q.len()) == q
}

/// Whether `q` occurs in `s`.
pub fn contains_str(s: &str, q: &str) -> (b: bool)
    ensures
        b == contains_spec(s@, q@),
{
    let n = s.unicode_len();
    let m = q.unicode_len();
    if m > n {
        return false;
    }
    if m == 0 {
        assert(s@.subrange(0, 0 + q@.len() as int) =~= q@);
        return true;
    }
    let last = n - m;
    let mut i: usize = 0;
    while i <= last
        invariant
            n == s@.len(),
            m == q@.len(),
            last == n - m,
            m >= 1,
            i <= last + 1,
            forall|j: int| 0 <= j < i ==> #[trigger] s@.subrange(j, j + m) != q@,
        decreases last + 1 - i,
    {
        if str_eq(s.substring_char(i, i + m), q) {
            return true;
        }
        i = i + 1;
    }
    false
}

} // verus!
