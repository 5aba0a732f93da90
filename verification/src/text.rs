//! Characters and strings: the few text operations that the rest of the
//! library is stated over, each with its meaning on sequences of characters.

use vstd::prelude::*;
use vstd::string::*;

verus! {

/// `String::push` appends one character at the end.
pub assume_specification[ String::push ](s: &mut String, c: char)
    ensures
        final(s)@ == old(s)@.push(c),
;

/// Whether `c` has the Unicode `White_Space` property.
pub open spec fn white_space(c: char) -> bool {
    let n = c as u32;
    ||| 9 <= n <= 13
    ||| n == 32
    ||| n == 0x85
    ||| n == 0xa0
    ||| n == 0x1680
    ||| 0x2000 <= n <= 0x200a
    ||| n == 0x2028
    ||| n == 0x2029
    ||| n == 0x202f
    ||| n == 0x205f
    ||| n == 0x3000
}

/// Whether `c` is a control character (general category `Cc`).
pub open spec fn control(c: char) -> bool {
    let n = c as u32;
    n <= 0x1f || 0x7f <= n <= 0x9f
}

pub open spec fn ascii_digit(c: char) -> bool {
    48 <= c as u32 <= 57
}

pub open spec fn ascii_upper(c: char) -> bool {
    65 <= c as u32 <= 90
}

pub open spec fn ascii_lower(c: char) -> bool {
    97 <= c as u32 <= 122
}

pub open spec fn ascii_alphanumeric(c: char) -> bool {
    ascii_digit(c) || ascii_upper(c) || ascii_lower(c)
}

/// A lower-case hexadecimal digit.
pub open spec fn lower_hex_digit(c: char) -> bool {
    ascii_digit(c) || 97 <= c as u32 <= 102
}

/// `c` with the ASCII upper-case letters mapped to lower case.
pub open spec fn lower_char(c: char) -> char {
    if ascii_upper(c) {
        ((c as u8 + 32) as u8) as char
    } else {
        c
    }
}

/// `c` with the ASCII lower-case letters mapped to upper case.
pub open spec fn upper_char(c: char) -> char {
    if ascii_lower(c) {
        ((c as u8 - 32) as u8) as char
    } else {
        c
    }
}

/// Every ASCII upper-case letter of `s` in lower case.
pub open spec fn lowercase(s: Seq<char>) -> Seq<char> {
    s.map_values(|c: char| lower_char(c))
}

/// Every ASCII lower-case letter of `s` in upper case.
pub open spec fn uppercase(s: Seq<char>) -> Seq<char> {
    s.map_values(|c: char| upper_char(c))
}

/// `s` without its longest prefix of white space.
pub open spec fn trim_start(s: Seq<char>) -> Seq<char>
    decreases s.len(),
{
    if s.len() > 0 && white_space(s[0]) {
        trim_start(s.drop_first())
    } else {
        s
    }
}

/// `s` without its longest suffix of white space.
pub open spec fn trim_end(s: Seq<char>) -> Seq<char>
    decreases s.len(),
{
    if s.len() > 0 && white_space(s.last()) {
        trim_end(s.drop_last())
    } else {
        s
    }
}

/// `s` without white space at either end.
pub open spec fn trimmed(s: Seq<char>) -> Seq<char> {
    trim_end(trim_start(s))
}

/// `s` without its longest prefix of characters equal to `c`.
pub open spec fn strip_start_char(s: Seq<char>, c: char) -> Seq<char>
    decreases s.len(),
{
    if s.len() > 0 && s[0] == c {
        strip_start_char(s.drop_first(), c)
    } else {
        s
    }
}

/// `s` without its longest suffix of characters equal to `c`.
pub open spec fn strip_end_char(s: Seq<char>, c: char) -> Seq<char>
    decreases s.len(),
{
    if s.len() > 0 && s.last() == c {
        strip_end_char(s.drop_last(), c)
    } else {
        s
    }
}

/// Whether `s` begins with `p`.
pub open spec fn has_prefix(s: Seq<char>, p: Seq<char>) -> bool {
    p.len() <= s.len() && s.subrange(0, p.len() as int) == p
}

/// Whether `s` ends with `p`.
pub open spec fn has_suffix(s: Seq<char>, p: Seq<char>) -> bool {
    p.len() <= s.len() && s.subrange(s.len() - p.len(), s.len() as int) == p
}

/// The pieces of `s` between the separators `c`: one more than there are
/// separators.
pub open spec fn split(s: Seq<char>, c: char) -> Seq<Seq<char>>
    decreases s.len(),
{
    if s.len() == 0 {
        seq![Seq::<char>::empty()]
    } else {
        let before = split(s.drop_last(), c);
        if s.last() == c {
            before.push(Seq::<char>::empty())
        } else {
            before.update(before.len() - 1, before.last().push(s.last()))
        }
    }
}

/// The piece of `s` before the first `c`, or all of it.
pub open spec fn before_first(s: Seq<char>, c: char) -> Seq<char>
    decreases s.len(),
{
    if s.len() == 0 || s[0] == c {
        Seq::<char>::empty()
    } else {
        seq![s[0]] + before_first(s.drop_first(), c)
    }
}

/// The piece of `s` after the last `c`, or all of it.
pub open spec fn after_last(s: Seq<char>, c: char) -> Seq<char>
    decreases s.len(),
{
    if s.len() == 0 || s.last() == c {
        Seq::<char>::empty()
    } else {
        after_last(s.drop_last(), c).push(s.last())
    }
}

/// The first position at which `p` occurs in `s`, at or after `from`.
pub open spec fn find_from(s: Seq<char>, p: Seq<char>, from: int) -> Option<int>
    decreases s.len() - from + 1,
{
    if from < 0 || from + p.len() > s.len() {
        None
    } else if s.subrange(from, from + p.len()) == p {
        Some(from)
    } else {
        find_from(s, p, from + 1)
    }
}

/// The character of the decimal or hexadecimal digit `d`.
pub open spec fn digit_char(d: nat) -> char {
    if d < 10 {
        ((48 + d) as u8) as char
    } else {
        ((87 + d) as u8) as char
    }
}

/// `n` in decimal.
pub open spec fn decimal(n: nat) -> Seq<char>
    decreases n,
{
    if n < 10 {
        seq![digit_char(n)]
    } else {
        decimal(n / 10).push(digit_char(n % 10))
    }
}

/// `n` in decimal, with a minus sign where it is negative.
pub open spec fn signed_decimal(n: int) -> Seq<char> {
    if n < 0 {
        seq!['-'] + decimal((-n) as nat)
    } else {
        decimal(n as nat)
    }
}

/// The number that the digits of `s` write.
pub open spec fn digits_value(s: Seq<char>) -> nat
    decreases s.len(),
{
    if s.len() == 0 {
        0
    } else {
        digits_value(s.drop_last()) * 10 + (s.last() as u32 - 48) as nat
    }
}

pub open spec fn all_digits(s: Seq<char>) -> bool {
    s.len() > 0 && forall|i: int| 0 <= i < s.len() ==> ascii_digit(#[trigger] s[i])
}

/// `s` without one leading plus sign.
pub open spec fn without_plus(s: Seq<char>) -> Seq<char> {
    if s.len() > 0 && s[0] == '+' {
        s.drop_first()
    } else {
        s
    }
}

/// The unsigned number not above `max` that `s` writes: decimal digits after
/// at most one plus sign.
pub open spec fn parse_unsigned(s: Seq<char>, max: nat) -> Option<nat> {
    let digits = without_plus(s);
    if all_digits(digits) && digits_value(digits) <= max {
        Some(digits_value(digits))
    } else {
        None
    }
}

/// The signed 64-bit number that `s` writes.
pub open spec fn parse_signed(s: Seq<char>) -> Option<int> {
    if s.len() > 0 && s[0] == '-' {
        let digits = s.drop_first();
        if all_digits(digits) && digits_value(digits) <= 0x8000_0000_0000_0000 {
            Some(-(digits_value(digits) as int))
        } else {
            None
        }
    } else {
        let digits = without_plus(s);
        if all_digits(digits) && digits_value(digits) <= 0x7fff_ffff_ffff_ffff {
            Some(digits_value(digits) as int)
        } else {
            None
        }
    }
}

/// What an optional string holds.
pub open spec fn opt_text(s: Option<String>) -> Option<Seq<char>> {
    match s {
        Some(v) => Some(v@),
        None => None,
    }
}

/// What an optional string slice holds.
pub open spec fn opt_str(s: Option<&str>) -> Option<Seq<char>> {
    match s {
        Some(v) => Some(v@),
        None => None,
    }
}

/// What a list of strings holds.
pub open spec fn texts(v: Seq<String>) -> Seq<Seq<char>> {
    v.map_values(|s: String| s@)
}

/// What an optional value holds.
pub open spec fn opt_view<T: View>(o: Option<T>) -> Option<T::V> {
    match o {
        Some(v) => Some(v@),
        None => None,
    }
}

/// What a result holds: a value, or the text of an error.
pub open spec fn outcome<T: View>(r: Result<T, String>) -> Result<T::V, Seq<char>> {
    match r {
        Ok(v) => Ok(v@),
        Err(e) => Err(e@),
    }
}

/// What the items of a list hold.
pub open spec fn views<T: View>(s: Seq<T>) -> Seq<T::V> {
    Seq::new(s.len(), |i: int| s[i]@)
}

/// Whether two strings hold the same characters.
pub fn same(a: &str, b: &str) -> (r: bool)
    ensures
        r == (a@ == b@),
{
    a.to_owned() == b.to_owned()
}

/// Whether two optional strings hold the same.
pub fn same_opt(a: Option<&str>, b: Option<&str>) -> (r: bool)
    ensures
        r == (opt_str(a) == opt_str(b)),
{
    match (a, b) {
        (Some(x), Some(y)) => same(x, y),
        (None, None) => true,
        _ => false,
    }
}

/// The string in an optional string.
pub fn opt_as_str(s: &Option<String>) -> (r: Option<&str>)
    ensures
        opt_str(r) == opt_text(*s),
{
    match s {
        Some(v) => Some(v.as_str()),
        None => None,
    }
}

/// A copy of an optional string.
pub fn opt_copy(s: &Option<String>) -> (r: Option<String>)
    ensures
        opt_text(r) == opt_text(*s),
        r is Some == s is Some,
{
    match s {
        Some(v) => Some(v.clone()),
        None => None,
    }
}

/// The characters of a string.
pub fn chars_of(s: &str) -> (r: Vec<char>)
    ensures
        r@ == s@,
{
    let mut out: Vec<char> = Vec::new();
    for c in it: s.chars()
        invariant
            it.seq() == s@,
            out@ == s@.take(it.index()),
    {
        proof {
            assert(s@.take(it.index() + 1) =~= s@.take(it.index()).push(c));
        }
        out.push(c);
    }
    proof {
        assert(s@.take(s@.len() as int) =~= s@);
    }
    out
}

/// The string of the characters from `from` up to `to`.
pub fn string_of(v: &Vec<char>, from: usize, to: usize) -> (r: String)
    requires
        from <= to <= v.len(),
    ensures
        r@ == v@.subrange(from as int, to as int),
{
    let mut out = String::new();
    let mut i: usize = from;
    proof {
        assert(v@.subrange(from as int, from as int) =~= Seq::<char>::empty());
    }
    while i < to
        invariant
            from <= i <= to <= v.len(),
            out@ == v@.subrange(from as int, i as int),
        decreases to - i,
    {
        out.push(v[i]);
        i = i + 1;
        proof {
            assert(v@.subrange(from as int, i as int) =~= v@.subrange(from as int, i - 1).push(
                v@[i - 1],
            ));
        }
    }
    out
}

pub fn is_white_space(c: char) -> (r: bool)
    ensures
        r == white_space(c),
{
    let n: u32 = c as u32;
    (9 <= n && n <= 13) || n == 32 || n == 0x85 || n == 0xa0 || n == 0x1680 || (0x2000 <= n && n
        <= 0x200a) || n == 0x2028 || n == 0x2029 || n == 0x202f || n == 0x205f || n == 0x3000
}

pub fn is_control(c: char) -> (r: bool)
    ensures
        r == control(c),
{
    let n: u32 = c as u32;
    n <= 0x1f || (0x7f <= n && n <= 0x9f)
}

pub fn is_ascii_digit(c: char) -> (r: bool)
    ensures
        r == ascii_digit(c),
{
    let n: u32 = c as u32;
    48 <= n && n <= 57
}

pub fn is_ascii_alphanumeric(c: char) -> (r: bool)
    ensures
        r == ascii_alphanumeric(c),
{
    let n: u32 = c as u32;
    (48 <= n && n <= 57) || (65 <= n && n <= 90) || (97 <= n && n <= 122)
}

pub fn is_lower_hex_digit(c: char) -> (r: bool)
    ensures
        r == lower_hex_digit(c),
{
    let n: u32 = c as u32;
    (48 <= n && n <= 57) || (97 <= n && n <= 102)
}

pub fn to_lower_char(c: char) -> (r: char)
    ensures
        r == lower_char(c),
{
    let n: u32 = c as u32;
    if 65 <= n && n <= 90 {
        let b: u8 = c as u8;
        (b + 32) as char
    } else {
        c
    }
}

pub fn to_upper_char(c: char) -> (r: char)
    ensures
        r == upper_char(c),
{
    let n: u32 = c as u32;
    if 97 <= n && n <= 122 {
        let b: u8 = c as u8;
        (b - 32) as char
    } else {
        c
    }
}

/// `s` in ASCII lower case.
pub fn to_lowercase(s: &str) -> (r: String)
    ensures
        r@ == lowercase(s@),
{
    let v = chars_of(s);
    let mut out = String::new();
    let mut i: usize = 0;
    while i < v.len()
        invariant
            v@ == s@,
            i <= v.len(),
            out@ == lowercase(s@.take(i as int)),
        decreases v.len() - i,
    {
        out.push(to_lower_char(v[i]));
        i = i + 1;
        proof {
            assert(lowercase(s@.take(i as int)) =~= lowercase(s@.take(i - 1)).push(
                lower_char(s@[i - 1]),
            ));
        }
    }
    proof {
        assert(s@.take(s@.len() as int) =~= s@);
    }
    out
}

/// `s` in ASCII upper case.
pub fn to_uppercase(s: &str) -> (r: String)
    ensures
        r@ == uppercase(s@),
{
    let v = chars_of(s);
    let mut out = String::new();
    let mut i: usize = 0;
    while i < v.len()
        invariant
            v@ == s@,
            i <= v.len(),
            out@ == uppercase(s@.take(i as int)),
        decreases v.len() - i,
    {
        out.push(to_upper_char(v[i]));
        i = i + 1;
        proof {
            assert(uppercase(s@.take(i as int)) =~= uppercase(s@.take(i - 1)).push(
                upper_char(s@[i - 1]),
            ));
        }
    }
    proof {
        assert(s@.take(s@.len() as int) =~= s@);
    }
    out
}

/// `s` without white space at either end.
pub fn trim(s: &str) -> (r: String)
    ensures
        r@ == trimmed(s@),
{
    let v = chars_of(s);
    let n: usize = v.len();
    let mut from: usize = 0;
    proof {
        assert(v@.subrange(0, n as int) =~= s@);
    }
    while from < n && is_white_space(v[from])
        invariant
            n == v.len(),
            v@ == s@,
            from <= n,
            trim_start(v@.subrange(from as int, n as int)) == trim_start(s@),
        decreases n - from,
    {
        proof {
            let rest = v@.subrange(from as int, n as int);
            assert(rest.drop_first() =~= v@.subrange(from + 1, n as int));
        }
        from = from + 1;
    }
    let mut to: usize = n;
    while to > from && is_white_space(v[to - 1])
        invariant
            n == v.len(),
            from <= to <= n,
            trim_end(v@.subrange(from as int, to as int)) == trim_end(
                v@.subrange(from as int, n as int),
            ),
        decreases to,
    {
        proof {
            let rest = v@.subrange(from as int, to as int);
            assert(rest.drop_last() =~= v@.subrange(from as int, to - 1));
        }
        to = to - 1;
    }
    string_of(&v, from, to)
}

/// `s` without characters `c` at its end.
pub fn trim_end_char(s: &str, c: char) -> (r: String)
    ensures
        r@ == strip_end_char(s@, c),
{
    let v = chars_of(s);
    let mut to: usize = v.len();
    proof {
        assert(v@.subrange(0, to as int) =~= s@);
    }
    while to > 0 && v[to - 1] == c
        invariant
            to <= v.len(),
            strip_end_char(v@.subrange(0, to as int), c) == strip_end_char(s@, c),
        decreases to,
    {
        proof {
            assert(v@.subrange(0, to as int).drop_last() =~= v@.subrange(0, to - 1));
        }
        to = to - 1;
    }
    string_of(&v, 0, to)
}

/// `s` without characters `c` at its start.
pub fn trim_start_char(s: &str, c: char) -> (r: String)
    ensures
        r@ == strip_start_char(s@, c),
{
    let v = chars_of(s);
    let n: usize = v.len();
    let mut from: usize = 0;
    proof {
        assert(v@.subrange(0, n as int) =~= s@);
    }
    while from < n && v[from] == c
        invariant
            n == v.len(),
            from <= n,
            strip_start_char(v@.subrange(from as int, n as int), c) == strip_start_char(s@, c),
        decreases n - from,
    {
        proof {
            assert(v@.subrange(from as int, n as int).drop_first() =~= v@.subrange(
                from + 1,
                n as int,
            ));
        }
        from = from + 1;
    }
    string_of(&v, from, n)
}

/// Whether the characters of `p` stand in `v` from position `at` on.
fn stands_at(v: &Vec<char>, at: usize, p: &Vec<char>) -> (r: bool)
    requires
        at + p.len() <= v.len(),
    ensures
        r == (v@.subrange(at as int, at + p.len()) == p@),
{
    let mut i: usize = 0;
    while i < p.len()
        invariant
            i <= p.len(),
            at + p.len() <= v.len(),
            forall|j: int| 0 <= j < i ==> v@[at + j] == #[trigger] p@[j],
        decreases p.len() - i,
    {
        if v[at + i] != p[i] {
            proof {
                assert(v@.subrange(at as int, at + p.len())[i as int] != p@[i as int]);
            }
            return false;
        }
        i = i + 1;
    }
    proof {
        assert(v@.subrange(at as int, at + p.len()) =~= p@);
    }
    true
}

/// Whether `s` begins with `p`.
pub fn starts_with(s: &str, p: &str) -> (r: bool)
    ensures
        r == has_prefix(s@, p@),
{
    let v = chars_of(s);
    let q = chars_of(p);
    q.len() <= v.len() && stands_at(&v, 0, &q)
}

/// Whether `s` ends with `p`.
pub fn ends_with(s: &str, p: &str) -> (r: bool)
    ensures
        r == has_suffix(s@, p@),
{
    let v = chars_of(s);
    let q = chars_of(p);
    q.len() <= v.len() && stands_at(&v, v.len() - q.len(), &q)
}

/// What follows the prefix `p` of `s`.
pub fn strip_prefix(s: &str, p: &str) -> (r: Option<String>)
    ensures
        r is Some == has_prefix(s@, p@),
        r is Some ==> r->0@ == s@.skip(p@.len() as int),
{
    let v = chars_of(s);
    let q = chars_of(p);
    if q.len() <= v.len() && stands_at(&v, 0, &q) {
        proof {
            assert(v@.subrange(q.len() as int, v.len() as int) =~= s@.skip(p@.len() as int));
        }
        Some(string_of(&v, q.len(), v.len()))
    } else {
        None
    }
}

/// The first position, in characters, at which `p` occurs in `v`.
fn find_in(v: &Vec<char>, p: &Vec<char>) -> (r: Option<usize>)
    ensures
        match r {
            Some(i) => find_from(v@, p@, 0) == Some(i as int) && i + p.len() <= v.len(),
            None => find_from(v@, p@, 0) is None,
        },
{
    let mut i: usize = 0;
    while p.len() <= v.len() && i <= v.len() - p.len()
        invariant
            i <= v.len() + 1,
            find_from(v@, p@, 0) == find_from(v@, p@, i as int),
            p.len() > v.len() ==> i == 0,
            p.len() <= v.len() ==> i <= v.len() - p.len() + 1,
        decreases v.len() + 1 - i,
    {
        if stands_at(v, i, p) {
            return Some(i);
        }
        if i == v.len() {
            proof {
                assert(v@.subrange(i as int, i + p.len()) =~= p@);
            }
            return None;
        }
        i = i + 1;
    }
    None
}

/// What stands in `s` after the first occurrence of `p`.
pub fn after_first_match(s: &str, p: &str) -> (r: Option<String>)
    ensures
        match find_from(s@, p@, 0) {
            Some(i) => r is Some && r->0@ == s@.skip(i + p@.len()),
            None => r is None,
        },
{
    let v = chars_of(s);
    let q = chars_of(p);
    match find_in(&v, &q) {
        Some(i) => {
            proof {
                assert(v@.subrange(i + q.len(), v.len() as int) =~= s@.skip(i + p@.len()));
            }
            Some(string_of(&v, i + q.len(), v.len()))
        },
        None => None,
    }
}

/// The piece of `s` before the first `c`, or all of it.
pub fn before_first_char(s: &str, c: char) -> (r: String)
    ensures
        r@ == before_first(s@, c),
{
    let v = chars_of(s);
    let mut i: usize = 0;
    proof {
        assert(v@.subrange(0, 0) + before_first(v@.skip(0), c) =~= before_first(v@, c)) by {
            assert(v@.skip(0) =~= v@);
        }
    }
    while i < v.len() && v[i] != c
        invariant
            i <= v.len(),
            before_first(v@, c) == v@.subrange(0, i as int) + before_first(v@.skip(i as int), c),
        decreases v.len() - i,
    {
        proof {
            let rest = v@.skip(i as int);
            assert(rest.drop_first() =~= v@.skip(i + 1));
            assert(v@.subrange(0, i as int) + (seq![rest[0]] + before_first(v@.skip(i + 1), c))
                =~= v@.subrange(0, i + 1) + before_first(v@.skip(i + 1), c));
        }
        i = i + 1;
    }
    proof {
        assert(v@.subrange(0, i as int) + Seq::<char>::empty() =~= v@.subrange(0, i as int));
    }
    string_of(&v, 0, i)
}

/// The piece of `s` after the last `c`, or all of it.
pub fn after_last_char(s: &str, c: char) -> (r: String)
    ensures
        r@ == after_last(s@, c),
{
    let v = chars_of(s);
    let mut i: usize = v.len();
    proof {
        assert(v@.subrange(0, i as int) =~= v@);
        assert(after_last(v@, c) + v@.skip(i as int) =~= after_last(v@, c));
    }
    while i > 0 && v[i - 1] != c
        invariant
            i <= v.len(),
            after_last(v@, c) == after_last(v@.subrange(0, i as int), c) + v@.skip(i as int),
        decreases i,
    {
        proof {
            let head = v@.subrange(0, i as int);
            assert(head.drop_last() =~= v@.subrange(0, i - 1));
            assert(after_last(v@.subrange(0, i - 1), c).push(head.last()) + v@.skip(i as int)
                =~= after_last(v@.subrange(0, i - 1), c) + v@.skip(i - 1));
        }
        i = i - 1;
    }
    proof {
        assert(Seq::<char>::empty() + v@.skip(i as int) =~= v@.subrange(i as int, v.len() as int));
    }
    string_of(&v, i, v.len())
}

/// The pieces of `s` between the separators `c`.
pub fn split_char(s: &str, c: char) -> (r: Vec<String>)
    ensures
        texts(r@) == split(s@, c),
{
    let v = chars_of(s);
    let mut done: Vec<String> = Vec::new();
    let mut piece = String::new();
    let mut i: usize = 0;
    proof {
        assert(texts(done@).push(piece@) =~= split(s@.take(0), c));
    }
    while i < v.len()
        invariant
            v@ == s@,
            i <= v.len(),
            texts(done@).push(piece@) == split(s@.take(i as int), c),
        decreases v.len() - i,
    {
        let ch = v[i];
        proof {
            assert(s@.take(i + 1).drop_last() =~= s@.take(i as int));
        }
        if ch == c {
            let ghost before = texts(done@);
            done.push(piece);
            proof {
                assert(texts(done@) =~= before.push(piece@));
            }
            piece = String::new();
        } else {
            let ghost before = split(s@.take(i as int), c);
            piece.push(ch);
            proof {
                assert(texts(done@).push(piece@) =~= before.update(
                    before.len() - 1,
                    before.last().push(ch),
                ));
            }
        }
        i = i + 1;
    }
    proof {
        assert(s@.take(s@.len() as int) =~= s@);
        assert(texts(done@.push(piece)) =~= texts(done@).push(piece@));
    }
    done.push(piece);
    done
}

fn digit(d: u64) -> (r: char)
    requires
        d < 16,
    ensures
        r == digit_char(d as nat),
{
    if d < 10 {
        (48 + d as u8) as char
    } else {
        (87 + d as u8) as char
    }
}

/// `n` in decimal.
pub fn decimal_of(n: u64) -> (r: String)
    ensures
        r@ == decimal(n as nat),
    decreases n,
{
    if n < 10 {
        let mut out = String::new();
        out.push(digit(n));
        proof {
            assert(out@ =~= decimal(n as nat));
        }
        out
    } else {
        let mut out = decimal_of(n / 10);
        out.push(digit(n % 10));
        out
    }
}

/// `n` in decimal, with its sign.
pub fn signed_decimal_of(n: i64) -> (r: String)
    ensures
        r@ == signed_decimal(n as int),
{
    if n >= 0 {
        decimal_of(n as u64)
    } else {
        let magnitude: u64 = if n == i64::MIN {
            0x8000_0000_0000_0000u64
        } else {
            (-n) as u64
        };
        let mut out = String::new();
        out.push('-');
        out.append(decimal_of(magnitude).as_str());
        proof {
            assert(out@ =~= signed_decimal(n as int));
        }
        out
    }
}

proof fn digits_value_grows(s: Seq<char>, k: int)
    requires
        0 <= k <= s.len(),
        forall|i: int| 0 <= i < s.len() ==> ascii_digit(#[trigger] s[i]),
    ensures
        digits_value(s.take(k)) <= digits_value(s),
    decreases s.len() - k,
{
    if k == s.len() {
        assert(s.take(k) =~= s);
    } else {
        digits_value_grows(s, k + 1);
        assert(s.take(k + 1).drop_last() =~= s.take(k));
        assert(ascii_digit(s[k]));
    }
}

/// The number that the characters of `v` from `from` on write in decimal,
/// where it is not above `max`.
fn number_from(v: &Vec<char>, from: usize, max: u64) -> (r: Option<u64>)
    requires
        from <= v.len(),
    ensures
        ({
            let digits = v@.skip(from as int);
            match r {
                Some(n) => all_digits(digits) && digits_value(digits) == n && n <= max,
                None => !(all_digits(digits) && digits_value(digits) <= max),
            }
        }),
{
    if from == v.len() {
        return None;
    }
    let ghost digits = v@.skip(from as int);
    let mut value: u64 = 0;
    let mut i: usize = from;
    proof {
        assert(digits.take(0) =~= Seq::<char>::empty());
    }
    while i < v.len()
        invariant
            from <= i <= v.len(),
            digits == v@.skip(from as int),
            forall|j: int| 0 <= j < i - from ==> ascii_digit(#[trigger] digits[j]),
            value == digits_value(digits.take(i - from)),
            value <= max,
        decreases v.len() - i,
    {
        let c = v[i];
        proof {
            assert(c == digits[i - from]);
        }
        if !is_ascii_digit(c) {
            return None;
        }
        let d: u64 = (c as u32 - 48) as u64;
        proof {
            assert(digits.take(i - from + 1).drop_last() =~= digits.take(i - from));
            assert(digits_value(digits.take(i - from + 1)) == value * 10 + d);
        }
        if value > (max - 0) / 10 || (value == max / 10 && d > max % 10) {
            proof {
                assert(value * 10 + d > max);
                if all_digits(digits) {
                    digits_value_grows(digits, i - from + 1);
                }
            }
            return None;
        }
        value = value * 10 + d;
        i = i + 1;
    }
    proof {
        assert(digits.take(digits.len() as int) =~= digits);
    }
    Some(value)
}

/// The unsigned number not above `max` that `s` writes.
pub fn parse_unsigned_of(s: &str, max: u64) -> (r: Option<u64>)
    ensures
        match r {
            Some(n) => parse_unsigned(s@, max as nat) == Some(n as nat),
            None => parse_unsigned(s@, max as nat) is None,
        },
{
    let v = chars_of(s);
    let from: usize = if v.len() > 0 && v[0] == '+' {
        1
    } else {
        0
    };
    proof {
        assert(v@.skip(from as int) =~= without_plus(s@));
    }
    number_from(&v, from, max)
}

/// The signed 64-bit number that `s` writes.
pub fn parse_signed_of(s: &str) -> (r: Option<i64>)
    ensures
        match r {
            Some(n) => parse_signed(s@) == Some(n as int),
            None => parse_signed(s@) is None,
        },
{
    let v = chars_of(s);
    if v.len() > 0 && v[0] == '-' {
        proof {
            assert(v@.skip(1) =~= s@.drop_first());
        }
        match number_from(&v, 1, 0x8000_0000_0000_0000) {
            Some(n) => if n == 0x8000_0000_0000_0000 {
                Some(i64::MIN)
            } else {
                Some(-(n as i64))
            },
            None => None,
        }
    } else {
        let from: usize = if v.len() > 0 && v[0] == '+' {
            1
        } else {
            0
        };
        proof {
            assert(v@.skip(from as int) =~= without_plus(s@));
        }
        match number_from(&v, from, 0x7fff_ffff_ffff_ffff) {
            Some(n) => Some(n as i64),
            None => None,
        }
    }
}

/// A number is what its decimal text writes.
pub proof fn decimal_reads_back(n: nat)
    ensures
        digits_value(decimal(n)) == n,
        decimal(n).len() > 0,
    decreases n,
{
    if n < 10 {
        let s = decimal(n);
        assert(s.drop_last() =~= Seq::<char>::empty());
        assert(digits_value(s.drop_last()) == 0);
        assert(s.last() == digit_char(n));
        assert(digits_value(s) == (digit_char(n) as u32 - 48) as nat);
    } else {
        decimal_reads_back(n / 10);
        let s = decimal(n);
        assert(s.drop_last() =~= decimal(n / 10));
        assert(s.last() == digit_char(n % 10));
        assert((digit_char(n % 10) as u32 - 48) as nat == n % 10);
    }
}

/// `s` with every occurrence of `p` replaced by `r`, from left to right.
pub open spec fn replaced(s: Seq<char>, p: Seq<char>, r: Seq<char>) -> Seq<char>
    decreases s.len(),
{
    match find_from(s, p, 0) {
        Some(i) => if p.len() > 0 && 0 <= i && i + p.len() <= s.len() {
            s.take(i) + r + replaced(s.skip(i + p.len()), p, r)
        } else {
            s
        },
        None => s,
    }
}

/// A position that is found is one at which `p` stands, and the first one.
pub proof fn found_is_first(s: Seq<char>, p: Seq<char>, from: int)
    requires
        0 <= from,
    ensures
        match find_from(s, p, from) {
            Some(i) => {
                &&& from <= i
                &&& i + p.len() <= s.len()
                &&& s.subrange(i, i + p.len()) == p
                &&& forall|k: int|
                    from <= k < i ==> #[trigger] s.subrange(k, k + p.len()) != p
            },
            None => forall|k: int|
                from <= k && k + p.len() <= s.len() ==> #[trigger] s.subrange(k, k + p.len())
                    != p,
        },
    decreases s.len() - from + 1,
{
    if from + p.len() <= s.len() && s.subrange(from, from + p.len()) != p {
        found_is_first(s, p, from + 1);
    }
}

/// `s` with every occurrence of `p` replaced by `r`.
pub fn replace_all(s: &str, p: &str, r: &str) -> (out: String)
    requires
        p@.len() > 0,
    ensures
        out@ == replaced(s@, p@, r@),
{
    let v = chars_of(s);
    let q = chars_of(p);
    let mut out = String::new();
    let mut start: usize = 0;
    proof {
        assert(v@.skip(0) =~= s@);
        assert(out@ + replaced(v@.skip(0), p@, r@) =~= replaced(s@, p@, r@));
    }
    loop
        invariant
            v@ == s@,
            q@ == p@,
            q.len() > 0,
            start <= v.len(),
            out@ + replaced(v@.skip(start as int), p@, r@) == replaced(s@, p@, r@),
        decreases v.len() - start,
    {
        let rest = slice_of(&v, start);
        proof {
            assert(rest@ =~= v@.skip(start as int));
            found_is_first(rest@, q@, 0);
        }
        match find_in(&rest, &q) {
            Some(i) => {
                let head = string_of(&rest, 0, i);
                let ghost before = out@;
                out.append(head.as_str());
                out.append(r);
                proof {
                    let tail = rest@.skip(i + q.len());
                    assert(head@ =~= rest@.take(i as int));
                    assert(tail =~= v@.skip(start + i + q.len()));
                    assert(before + (rest@.take(i as int) + r@ + replaced(tail, p@, r@)) =~= out@
                        + replaced(tail, p@, r@));
                }
                start = start + i + q.len();
            },
            None => {
                let tail = string_of(&rest, 0, rest.len());
                proof {
                    assert(tail@ =~= rest@);
                }
                out.append(tail.as_str());
                return out;
            },
        }
    }
}

/// The characters from `from` on.
fn slice_of(v: &Vec<char>, from: usize) -> (r: Vec<char>)
    requires
        from <= v.len(),
    ensures
        r@ == v@.skip(from as int),
{
    let mut out: Vec<char> = Vec::new();
    let mut i: usize = from;
    proof {
        assert(v@.subrange(from as int, from as int) =~= Seq::<char>::empty());
    }
    while i < v.len()
        invariant
            from <= i <= v.len(),
            out@ == v@.subrange(from as int, i as int),
        decreases v.len() - i,
    {
        out.push(v[i]);
        i = i + 1;
        proof {
            assert(v@.subrange(from as int, i as int) =~= v@.subrange(from as int, i - 1).push(
                v@[i - 1],
            ));
        }
    }
    proof {
        assert(v@.subrange(from as int, v.len() as int) =~= v@.skip(from as int));
    }
    out
}

/// The pieces of a split are never none.
pub proof fn split_is_never_empty(s: Seq<char>, c: char)
    ensures
        split(s, c).len() > 0,
    decreases s.len(),
{
    if s.len() > 0 {
        split_is_never_empty(s.drop_last(), c);
    }
}

/// A filtered sequence holds exactly the members that the predicate holds of.
pub proof fn filter_keeps_exactly<A>(s: Seq<A>, pred: spec_fn(A) -> bool, x: A)
    ensures
        s.filter(pred).contains(x) == (s.contains(x) && pred(x)),
    decreases s.len(),
{
    reveal(Seq::filter);
    if s.len() > 0 {
        let t = s.drop_last();
        filter_keeps_exactly(t, pred, x);
        let f = t.filter(pred);
        assert(s =~= t.push(s.last()));
        assert(s.contains(x) == (t.contains(x) || x == s.last())) by {
            if t.contains(x) {
                assert(s[t.index_of(x)] == x);
            }
            if s.contains(x) && x != s.last() {
                assert(t[s.index_of(x)] == x);
            }
            assert(s[s.len() - 1] == s.last());
        }
        if pred(s.last()) {
            let g = f.push(s.last());
            assert(g.contains(x) == (f.contains(x) || x == s.last())) by {
                if f.contains(x) {
                    assert(g[f.index_of(x)] == x);
                }
                if g.contains(x) && x != s.last() {
                    assert(f[g.index_of(x)] == x);
                }
                assert(g[g.len() - 1] == s.last());
            }
        }
    }
}

/// The decimal text of a number is digits, without a sign.
pub proof fn decimals_are_all_digits(n: nat)
    ensures
        all_digits(decimal(n)),
        without_plus(decimal(n)) == decimal(n),
    decreases n,
{
    let s = decimal(n);
    if n >= 10 {
        decimals_are_all_digits(n / 10);
    }
    assert forall|i: int| 0 <= i < s.len() implies ascii_digit(#[trigger] s[i]) by {
        if n < 10 {
            assert(s[i] == digit_char(n));
        } else if i < decimal(n / 10).len() {
            assert(s[i] == decimal(n / 10)[i]);
        } else {
            assert(s[i] == digit_char(n % 10));
        }
    }
    assert(s.len() > 0);
    assert(ascii_digit(s[0]));
}

proof fn trimmed_at_the_start(s: Seq<char>)
    ensures
        exists|i: int|
            0 <= i <= s.len() && trim_start(s) == #[trigger] s.skip(i) && forall|k: int|
                0 <= k < i ==> white_space(#[trigger] s[k]),
        trim_start(s).len() > 0 ==> !white_space(trim_start(s)[0]),
    decreases s.len(),
{
    if s.len() > 0 && white_space(s[0]) {
        let rest = s.drop_first();
        trimmed_at_the_start(rest);
        let i = choose|i: int|
            0 <= i <= rest.len() && trim_start(rest) == #[trigger] rest.skip(i) && forall|k: int|
                0 <= k < i ==> white_space(#[trigger] rest[k]);
        assert(rest.skip(i) =~= s.skip(i + 1));
        assert forall|k: int| 0 <= k < i + 1 implies white_space(#[trigger] s[k]) by {
            if k > 0 {
                assert(s[k] == rest[k - 1]);
            }
        }
    } else {
        assert(s.skip(0) =~= s);
    }
}

proof fn trimmed_at_the_end(s: Seq<char>)
    ensures
        exists|j: int|
            0 <= j <= s.len() && trim_end(s) == #[trigger] s.take(j) && forall|k: int|
                j <= k < s.len() ==> white_space(#[trigger] s[k]),
        trim_end(s).len() > 0 ==> !white_space(trim_end(s).last()),
    decreases s.len(),
{
    if s.len() > 0 && white_space(s.last()) {
        let rest = s.drop_last();
        trimmed_at_the_end(rest);
        let j = choose|j: int|
            0 <= j <= rest.len() && trim_end(rest) == #[trigger] rest.take(j) && forall|k: int|
                j <= k < rest.len() ==> white_space(#[trigger] rest[k]);
        assert(rest.take(j) =~= s.take(j));
        assert forall|k: int| j <= k < s.len() implies white_space(#[trigger] s[k]) by {
            if k < rest.len() {
                assert(s[k] == rest[k]);
            }
        }
    } else {
        assert(s.take(s.len() as int) =~= s);
    }
}

/// Trimming takes away white space only, at both ends, and all of it there.
pub proof fn only_white_space_is_trimmed(s: &str, r: String)
    requires
        call_ensures(trim, (s,), r),
    ensures
        exists|i: int, j: int|
            0 <= i <= j <= s@.len() && r@ == #[trigger] s@.subrange(i, j) && (forall|k: int|
                0 <= k < i || j <= k < s@.len() ==> white_space(#[trigger] s@[k])),
        r@.len() > 0 ==> !white_space(r@[0]) && !white_space(r@[r@.len() - 1]),
{
    let t = s@;
    let a = trim_start(t);
    trimmed_at_the_start(t);
    trimmed_at_the_end(a);
    let i = choose|i: int|
        0 <= i <= t.len() && a == #[trigger] t.skip(i) && forall|k: int|
            0 <= k < i ==> white_space(#[trigger] t[k]);
    let j = choose|j: int|
        0 <= j <= a.len() && trim_end(a) == #[trigger] a.take(j) && forall|k: int|
            j <= k < a.len() ==> white_space(#[trigger] a[k]);
    assert(t.subrange(i, i + j) =~= a.take(j));
    assert forall|k: int| 0 <= k < i || i + j <= k < t.len() implies white_space(
        #[trigger] t[k],
    ) by {
        if k >= i + j {
            assert(t[k] == a[k - i]);
        }
    }
    if r@.len() > 0 {
        assert(r@[0] == a[0]);
    }
}

/// Stripping takes away one character only, at that end, and all of it there.
pub proof fn only_the_character_is_stripped(s: Seq<char>, c: char)
    ensures
        exists|i: int|
            0 <= i <= s.len() && strip_start_char(s, c) == #[trigger] s.skip(i) && forall|k: int|
                0 <= k < i ==> #[trigger] s[k] == c,
        exists|j: int|
            0 <= j <= s.len() && strip_end_char(s, c) == #[trigger] s.take(j) && forall|k: int|
                j <= k < s.len() ==> #[trigger] s[k] == c,
        strip_start_char(s, c).len() > 0 ==> strip_start_char(s, c)[0] != c,
        strip_end_char(s, c).len() > 0 ==> strip_end_char(s, c).last() != c,
    decreases s.len(),
{
    if s.len() > 0 && s[0] == c {
        let rest = s.drop_first();
        only_the_character_is_stripped(rest, c);
        let i = choose|i: int|
            0 <= i <= rest.len() && strip_start_char(rest, c) == #[trigger] rest.skip(i)
                && forall|k: int| 0 <= k < i ==> #[trigger] rest[k] == c;
        assert(rest.skip(i) =~= s.skip(i + 1));
        assert forall|k: int| 0 <= k < i + 1 implies #[trigger] s[k] == c by {
            if k > 0 {
                assert(s[k] == rest[k - 1]);
            }
        }
    } else {
        assert(s.skip(0) =~= s);
    }
    if s.len() > 0 && s.last() == c {
        let rest = s.drop_last();
        only_the_character_is_stripped(rest, c);
        let j = choose|j: int|
            0 <= j <= rest.len() && strip_end_char(rest, c) == #[trigger] rest.take(j)
                && forall|k: int| j <= k < rest.len() ==> #[trigger] rest[k] == c;
        assert(rest.take(j) =~= s.take(j));
        assert forall|k: int| j <= k < s.len() implies #[trigger] s[k] == c by {
            if k < rest.len() {
                assert(s[k] == rest[k]);
            }
        }
    } else {
        assert(s.take(s.len() as int) =~= s);
    }
}

/// What stands before the first `c` is a beginning of the text without a `c`,
/// and the text is at its end there or goes on with a `c`.
pub proof fn what_stands_before_the_first(s: Seq<char>, c: char)
    ensures
        ({
            let r = before_first(s, c);
            &&& r.len() <= s.len()
            &&& r == s.take(r.len() as int)
            &&& forall|k: int| 0 <= k < r.len() ==> #[trigger] s[k] != c
            &&& r.len() < s.len() ==> s[r.len() as int] == c
        }),
    decreases s.len(),
{
    let r = before_first(s, c);
    if s.len() > 0 && s[0] != c {
        let rest = s.drop_first();
        what_stands_before_the_first(rest, c);
        let q = before_first(rest, c);
        assert(r =~= s.take(r.len() as int)) by {
            assert forall|k: int| 0 <= k < r.len() implies r[k] == s[k] by {
                if k > 0 {
                    assert(r[k] == q[k - 1]);
                    assert(q[k - 1] == rest[k - 1]);
                }
            }
        }
        assert forall|k: int| 0 <= k < r.len() implies #[trigger] s[k] != c by {
            if k > 0 {
                assert(s[k] == rest[k - 1]);
            }
        }
        if r.len() < s.len() {
            assert(s[r.len() as int] == rest[q.len() as int]);
        }
    } else {
        assert(r =~= s.take(0));
    }
}

/// What stands after the last `c` is an end of the text without a `c`, and the
/// text begins there or has a `c` just before.
pub proof fn what_stands_after_the_last(s: Seq<char>, c: char)
    ensures
        ({
            let r = after_last(s, c);
            &&& r.len() <= s.len()
            &&& r == s.skip(s.len() - r.len())
            &&& forall|k: int| s.len() - r.len() <= k < s.len() ==> #[trigger] s[k] != c
            &&& r.len() < s.len() ==> s[s.len() - r.len() - 1] == c
        }),
    decreases s.len(),
{
    let r = after_last(s, c);
    if s.len() > 0 && s.last() != c {
        let front = s.drop_last();
        what_stands_after_the_last(front, c);
        let q = after_last(front, c);
        assert(r =~= s.skip(s.len() - r.len())) by {
            assert forall|k: int| 0 <= k < r.len() implies r[k] == s[s.len() - r.len() + k] by {
                if k < q.len() {
                    assert(r[k] == q[k]);
                    assert(q[k] == front[front.len() - q.len() + k]);
                }
            }
        }
        assert forall|k: int| s.len() - r.len() <= k < s.len() implies #[trigger] s[k] != c by {
            if k < front.len() {
                assert(s[k] == front[k]);
            }
        }
        if r.len() < s.len() {
            assert(s[s.len() - r.len() - 1] == front[front.len() - q.len() - 1]);
        }
    } else {
        assert(r =~= s.skip(s.len() as int));
    }
}

/// The first `n` pieces, with a `c` between them.
pub open spec fn joined(pieces: Seq<Seq<char>>, c: char, n: int) -> Seq<char>
    decreases n,
{
    if n <= 0 {
        Seq::empty()
    } else if n == 1 {
        pieces[0]
    } else {
        joined(pieces, c, n - 1).push(c) + pieces[n - 1]
    }
}

proof fn joined_is_of_the_first(a: Seq<Seq<char>>, b: Seq<Seq<char>>, c: char, n: int)
    requires
        n <= a.len(),
        n <= b.len(),
        forall|i: int| 0 <= i < n ==> #[trigger] a[i] == b[i],
    ensures
        joined(a, c, n) == joined(b, c, n),
    decreases n,
{
    if n > 1 {
        joined_is_of_the_first(a, b, c, n - 1);
        assert(a[n - 1] == b[n - 1]);
    } else if n == 1 {
        assert(a[0] == b[0]);
    }
}

/// The pieces of a text have no `c`, and with a `c` between them they are the
/// text.
pub proof fn pieces_join_to_the_text(s: Seq<char>, c: char)
    ensures
        split(s, c).len() >= 1,
        forall|i: int, k: int|
            0 <= i < split(s, c).len() && 0 <= k < split(s, c)[i].len()
                ==> #[trigger] split(s, c)[i][k] != c,
        joined(split(s, c), c, split(s, c).len() as int) == s,
    decreases s.len(),
{
    let all = split(s, c);
    if s.len() > 0 {
        let before = split(s.drop_last(), c);
        pieces_join_to_the_text(s.drop_last(), c);
        let n = before.len() as int;
        if s.last() == c {
            joined_is_of_the_first(all, before, c, n);
            assert(joined(all, c, n + 1) =~= s);
        } else {
            let last = before.last().push(s.last());
            assert(all[n - 1] == last);
            if n > 1 {
                joined_is_of_the_first(all, before, c, n - 1);
            }
            assert(joined(all, c, n) =~= joined(before, c, n).push(s.last()));
            assert(s.drop_last().push(s.last()) =~= s);
        }
        assert forall|i: int, k: int|
            0 <= i < all.len() && 0 <= k < all[i].len() implies #[trigger] all[i][k] != c by {
            if i < n && all[i] == before[i] {
                assert(before[i][k] != c);
            } else if i == n - 1 && s.last() != c && k < before[i].len() {
                assert(all[i][k] == before[i][k]);
            }
        }
    }
}

/// A text in lower case is as long, and only its capital letters changed.
pub proof fn only_capitals_are_lowered(s: &str, r: String, i: int)
    requires
        call_ensures(to_lowercase, (s,), r),
        0 <= i < s@.len(),
    ensures
        r@.len() == s@.len(),
        65 <= s@[i] as u32 <= 90 ==> r@[i] as u32 == s@[i] as u32 + 32,
        !(65 <= s@[i] as u32 <= 90) ==> r@[i] == s@[i],
{
    assert(r@[i] == lower_char(s@[i]));
    only_a_capital_is_lowered(s@[i]);
}

proof fn only_a_capital_is_lowered(c: char)
    ensures
        65 <= c as u32 <= 90 ==> lower_char(c) as u32 == c as u32 + 32,
        !(65 <= c as u32 <= 90) ==> lower_char(c) == c,
{
}

/// A text in which `p` does not occur is not changed by replacing `p`, and one
/// in which it does is changed at the first place and goes on behind it.
pub proof fn each_occurrence_is_replaced(s: Seq<char>, p: Seq<char>, r: Seq<char>, at: int)
    requires
        p.len() > 0,
    ensures
        (forall|k: int|
            0 <= k && k + p.len() <= s.len() ==> #[trigger] s.subrange(k, k + p.len()) != p)
            ==> replaced(s, p, r) == s,
        0 <= at && at + p.len() <= s.len() && s.subrange(at, at + p.len()) == p && (forall|k: int|
            0 <= k < at ==> #[trigger] s.subrange(k, k + p.len()) != p) ==> replaced(s, p, r)
            == s.take(at) + r + replaced(s.skip(at + p.len()), p, r),
{
    found_is_first(s, p, 0);
}

/// A digit more is ten times as much and the digit, and a plus sign changes
/// nothing.
pub proof fn a_number_is_read_digit_by_digit(s: Seq<char>, d: nat, max: nat)
    requires
        s.len() > 0,
        forall|i: int| 0 <= i < s.len() ==> 48 <= (#[trigger] s[i]) as u32 <= 57,
        d < 10,
        10 * digits_value(s) + d <= max,
    ensures
        parse_unsigned(seq![digit_char(d)], max) == Some(d),
        parse_unsigned(s, max) is Some,
        parse_unsigned(s.push(digit_char(d)), max) == Some(10 * parse_unsigned(s, max)->0 + d),
        parse_unsigned(seq!['+'] + s, max) == parse_unsigned(s, max),
{
    let one = seq![digit_char(d)];
    let more = s.push(digit_char(d));
    assert(digit_char(d) as u32 == 48 + d);
    assert(more.drop_last() =~= s);
    assert(one.drop_last() =~= Seq::<char>::empty());
    assert(digits_value(Seq::<char>::empty()) == 0);
    assert(digits_value(one) == d);
    assert(s[0] != '+');
    assert(more[0] == s[0]);
    assert((seq!['+'] + s).drop_first() =~= s);
    assert forall|i: int| 0 <= i < more.len() implies ascii_digit(#[trigger] more[i]) by {
        if i < s.len() {
            assert(more[i] == s[i]);
        }
    }
    assert forall|i: int| 0 <= i < s.len() implies ascii_digit(#[trigger] s[i]) by {}
    assert(all_digits(s) && all_digits(more) && all_digits(one));
}

/// A number that is read is written with digits alone, after one plus sign at
/// most, and is no more than allowed.
pub proof fn only_digits_are_a_number(s: Seq<char>, max: nat)
    requires
        parse_unsigned(s, max) is Some,
    ensures
        parse_unsigned(s, max)->0 <= max,
        s.len() > 0,
        forall|i: int| 1 <= i < s.len() ==> 48 <= (#[trigger] s[i]) as u32 <= 57,
        s[0] == '+' || 48 <= s[0] as u32 <= 57,
{
    let digits = without_plus(s);
    assert(all_digits(digits));
    assert forall|i: int| 1 <= i < s.len() implies 48 <= (#[trigger] s[i]) as u32 <= 57 by {
        if s[0] == '+' {
            assert(s[i] == digits[i - 1]);
        } else {
            assert(s[i] == digits[i]);
        }
    }
    assert(digits.len() > 0);
    if s[0] != '+' {
        assert(ascii_digit(digits[0]));
    }
}

/// A signed number is the unsigned one, or that with a minus sign.
pub proof fn a_minus_sign_turns_a_number(s: Seq<char>)
    ensures
        parse_signed(s) is Some ==> i64::MIN <= parse_signed(s)->0 <= i64::MAX,
        s.len() > 0 && s[0] != '-' ==> parse_signed(s) == match parse_unsigned(
            s,
            i64::MAX as nat,
        ) {
            Some(n) => Some(n as int),
            None => None,
        },
        s.len() > 0 && s[0] != '+' && parse_unsigned(s, i64::MAX as nat) is Some ==> parse_signed(
            seq!['-'] + s,
        ) == Some(-(parse_unsigned(s, i64::MAX as nat)->0 as int)),
{
    assert((seq!['-'] + s).drop_first() =~= s);
}

/// A filter keeps what it is for and nothing else, drops something where there is
/// something to drop, and otherwise changes nothing.
pub broadcast proof fn filtering<A>(s: Seq<A>, pred: spec_fn(A) -> bool)
    ensures
        #![trigger s.filter(pred)]
        s.filter(pred).len() <= s.len(),
        forall|i: int|
            0 <= i < s.filter(pred).len() ==> s.contains(#[trigger] s.filter(pred)[i]) && pred(
                s.filter(pred)[i],
            ),
        forall|x: A| #[trigger] s.contains(x) && pred(x) ==> s.filter(pred).contains(x),
        forall|y: A| #[trigger] (seq![y] + s.filter(pred)).skip(1) == s.filter(pred),
        (forall|i: int| 0 <= i < s.len() ==> pred(#[trigger] s[i])) ==> s.filter(pred) == s,
        (exists|i: int| 0 <= i < s.len() && !pred(#[trigger] s[i])) ==> s.filter(pred).len()
            < s.len(),
    decreases s.len(),
{
    reveal(Seq::filter);
    if s.len() > 0 {
        let front = s.drop_last();
        filtering(front, pred);
        if forall|i: int| 0 <= i < s.len() ==> pred(#[trigger] s[i]) {
            assert forall|i: int| 0 <= i < front.len() implies pred(#[trigger] front[i]) by {
                assert(front[i] == s[i]);
            }
            assert(pred(s[s.len() - 1]));
            assert(s.filter(pred) =~= s);
        } else {
            let i = choose|i: int| 0 <= i < s.len() && !pred(#[trigger] s[i]);
            if i < front.len() {
                assert(!pred(front[i]));
            }
        }
    } else {
        assert(s.filter(pred) =~= s);
    }
    assert forall|i: int| 0 <= i < s.filter(pred).len() implies s.contains(
        #[trigger] s.filter(pred)[i],
    ) && pred(s.filter(pred)[i]) by {
        assert(s.filter(pred).contains(s.filter(pred)[i]));
        filter_keeps_exactly(s, pred, s.filter(pred)[i]);
    }
    assert forall|y: A| #[trigger] (seq![y] + s.filter(pred)).skip(1) == s.filter(pred) by {
        assert((seq![y] + s.filter(pred)).skip(1) =~= s.filter(pred));
    }
    assert forall|x: A| #[trigger] s.contains(x) && pred(x) implies s.filter(pred).contains(x) by {
        filter_keeps_exactly(s, pred, x);
    }
}

} // verus!
