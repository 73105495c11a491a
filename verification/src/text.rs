//! Strings as sequences of characters: the few operations on text that the
//! rest of the crate is built from, each stated on `Seq<char>`.

use vstd::prelude::*;
use vstd::string::*;
use vstd::utf8::*;

verus! {

/// `String::push` of std: appends one character at the end.
pub assume_specification[ String::push ](s: &mut String, c: char)
    ensures
        final(s)@ == old(s)@.push(c),
;

/// `p` stands in `s` with its first character at position `i`.
pub open spec fn occurs_at(s: Seq<char>, p: Seq<char>, i: int) -> bool {
    0 <= i && i + p.len() <= s.len() && s.subrange(i, i + p.len()) == p
}

/// `s` begins with `p`.
pub open spec fn starts_with(s: Seq<char>, p: Seq<char>) -> bool {
    occurs_at(s, p, 0)
}

/// `p` stands somewhere in `s`.
pub open spec fn contains(s: Seq<char>, p: Seq<char>) -> bool {
    exists|i: int| #[trigger] occurs_at(s, p, i)
}

/// `s` without a leading `p`; `s` itself where it does not begin with `p`.
pub open spec fn without_prefix(s: Seq<char>, p: Seq<char>) -> Seq<char> {
    if starts_with(s, p) {
        s.skip(p.len() as int)
    } else {
        s
    }
}

/// `s` with every occurrence of `from` replaced by `to`, found from left to
/// right without overlap.
pub open spec fn replace_all(s: Seq<char>, from: Seq<char>, to: Seq<char>) -> Seq<char>
    decreases s.len(),
{
    if s.len() == 0 || from.len() == 0 {
        s
    } else if starts_with(s, from) {
        to + replace_all(s.skip(from.len() as int), from, to)
    } else {
        seq![s[0]] + replace_all(s.skip(1), from, to)
    }
}

/// The characters with the Unicode property White_Space.
pub open spec fn is_space(c: char) -> bool {
    ||| '\u{9}' <= c <= '\u{d}'
    ||| c == ' '
    ||| c == '\u{85}'
    ||| c == '\u{a0}'
    ||| c == '\u{1680}'
    ||| '\u{2000}' <= c <= '\u{200a}'
    ||| c == '\u{2028}'
    ||| c == '\u{2029}'
    ||| c == '\u{202f}'
    ||| c == '\u{205f}'
    ||| c == '\u{3000}'
}

/// `s` without its leading white space.
pub open spec fn trim_start(s: Seq<char>) -> Seq<char>
    decreases s.len(),
{
    if s.len() > 0 && is_space(s[0]) {
        trim_start(s.skip(1))
    } else {
        s
    }
}

/// `s` without its trailing white space.
pub open spec fn trim_end(s: Seq<char>) -> Seq<char>
    decreases s.len(),
{
    if s.len() > 0 && is_space(s.last()) {
        trim_end(s.drop_last())
    } else {
        s
    }
}

/// `s` without white space at either end.
pub open spec fn trimmed(s: Seq<char>) -> Seq<char> {
    trim_end(trim_start(s))
}

/// `c` in lower case where it is an ASCII capital, else `c`.
pub open spec fn ascii_lower_char(c: char) -> char {
    if 'A' <= c <= 'Z' {
        ((c as u8) + 32) as char
    } else {
        c
    }
}

/// `s` with its ASCII capitals in lower case.
pub open spec fn ascii_lower(s: Seq<char>) -> Seq<char> {
    s.map_values(|c: char| ascii_lower_char(c))
}

/// The part of `s` before its first `sep`, or all of it.
pub open spec fn before(s: Seq<char>, sep: char) -> Seq<char>
    decreases s.len(),
{
    if s.len() == 0 || s[0] == sep {
        Seq::empty()
    } else {
        seq![s[0]] + before(s.skip(1), sep)
    }
}

/// The part before a separator is the beginning of the text, and does not hold
/// the separator.
pub proof fn before_is_a_prefix(s: Seq<char>, sep: char)
    ensures
        before(s, sep).len() <= s.len(),
        forall|i: int|
            0 <= i < before(s, sep).len() ==> (#[trigger] before(s, sep)[i]) == s[i] && s[i] != sep,
    decreases s.len(),
{
    if s.len() > 0 && s[0] != sep {
        let rest = s.skip(1);
        before_is_a_prefix(rest, sep);
        assert forall|i: int| 0 <= i < before(s, sep).len() implies (#[trigger] before(s, sep)[i])
            == s[i] && s[i] != sep by {
            if i > 0 {
                assert(before(s, sep)[i] == before(rest, sep)[i - 1]);
                assert(rest[i - 1] == s[i]);
            }
        }
    }
}

/// A text without the separator is all before it.
pub proof fn all_is_before(s: Seq<char>, sep: char)
    requires
        forall|i: int| 0 <= i < s.len() ==> s[i] != sep,
    ensures
        before(s, sep) == s,
    decreases s.len(),
{
    if s.len() > 0 {
        let rest = s.skip(1);
        assert forall|i: int| 0 <= i < rest.len() implies rest[i] != sep by {
            assert(rest[i] == s[i + 1]);
        }
        all_is_before(rest, sep);
        assert(before(s, sep) =~= s);
    }
}

/// No character in lower case is an ASCII capital.
pub proof fn lower_is_no_capital(c: char)
    ensures
        !('A' <= ascii_lower_char(c) <= 'Z'),
{
}

/// The digit characters of a number below ten.
pub open spec fn digit(n: nat) -> char {
    ((n % 10) + 48) as u8 as char
}

/// `n` in decimal, without leading zeros.
pub open spec fn decimal(n: nat) -> Seq<char>
    decreases n,
{
    if n < 10 {
        seq![digit(n)]
    } else {
        decimal(n / 10).push(digit(n % 10))
    }
}

/// `n` in decimal, with a minus sign where it is negative.
pub open spec fn signed_decimal(n: int) -> Seq<char> {
    if n < 0 {
        seq!['-'] + decimal((-n) as nat)
    } else {
        decimal(n as nat)
    }
}

/// The lower-case hexadecimal digit of a number below sixteen.
pub open spec fn hex_digit(n: int) -> char {
    if n < 10 {
        (n + 48) as u8 as char
    } else {
        (n + 87) as u8 as char
    }
}

/// Bytes in lower-case hexadecimal, two digits each.
pub open spec fn hex(bytes: Seq<u8>) -> Seq<char> {
    Seq::new(
        2 * bytes.len(),
        |i: int|
            if i % 2 == 0 {
                hex_digit(bytes[i / 2] as int / 16)
            } else {
                hex_digit(bytes[i / 2] as int % 16)
            },
    )
}

/// The texts of a list one after another, with `sep` between two of them.
pub open spec fn joined(list: Seq<Seq<char>>, sep: Seq<char>) -> Seq<char>
    decreases list.len(),
{
    if list.len() == 0 {
        Seq::empty()
    } else if list.len() == 1 {
        list[0]
    } else {
        joined(list.drop_last(), sep) + sep + list.last()
    }
}

/// The texts of a list of strings.
pub open spec fn texts(v: Seq<String>) -> Seq<Seq<char>> {
    v.map_values(|s: String| s@)
}

/// The texts of a list of pairs of strings.
pub open spec fn pair_texts(v: Seq<(String, String)>) -> Seq<(Seq<char>, Seq<char>)> {
    v.map_values(|p: (String, String)| (p.0@, p.1@))
}

/// The text of an optional string.
pub open spec fn opt_text(o: Option<String>) -> Option<Seq<char>> {
    match o {
        Some(s) => Some(s@),
        None => None,
    }
}

/// The characters of a string.
pub fn chars_of(s: &str) -> (v: Vec<char>)
    ensures
        v@ == s@,
{
    let mut v: Vec<char> = Vec::new();
    for c in it: s.chars()
        invariant
            v@ == it.seq().take(it.index() as int),
            it.seq() == s@,
    {
        v.push(c);
    }
    v
}

/// The string of the characters at `from..to`.
pub fn string_of(v: &Vec<char>, from: usize, to: usize) -> (s: String)
    requires
        from <= to <= v@.len(),
    ensures
        s@ == v@.subrange(from as int, to as int),
{
    let mut s: String = String::new();
    let mut i: usize = from;
    while i < to
        invariant
            from <= i <= to <= v@.len(),
            s@ == v@.subrange(from as int, i as int),
        decreases to - i,
    {
        s.push(v[i]);
        i = i + 1;
    }
    s
}

/// Whether two strings hold the same characters.
pub fn str_eq(a: &str, b: &str) -> (r: bool)
    ensures
        r == (a@ == b@),
{
    let x = a.as_bytes();
    let y = b.as_bytes();
    proof {
        encode_utf8_decode_utf8(a@);
        encode_utf8_decode_utf8(b@);
    }
    if x.len() != y.len() {
        return false;
    }
    let n: usize = x.len();
    let mut i: usize = 0;
    while i < n
        invariant
            n == x@.len(),
            n == y@.len(),
            i <= n,
            x@ == encode_utf8(a@),
            y@ == encode_utf8(b@),
            forall|j: int| 0 <= j < i ==> x@[j] == y@[j],
        decreases n - i,
    {
        if x[i] != y[i] {
            return false;
        }
        i = i + 1;
    }
    assert(x@ =~= y@);
    true
}

/// Whether `p` stands in `v` at position `i`.
pub fn chars_occur_at(v: &Vec<char>, p: &Vec<char>, i: usize) -> (r: bool)
    requires
        i <= v@.len(),
    ensures
        r == occurs_at(v@, p@, i as int),
{
    let n: usize = v.len();
    if p.len() > n - i {
        return false;
    }
    let mut j: usize = 0;
    while j < p.len()
        invariant
            n == v@.len(),
            i <= n,
            p@.len() <= n - i,
            j <= p@.len(),
            forall|k: int| 0 <= k < j ==> v@[i + k] == #[trigger] p@[k],
        decreases p@.len() - j,
    {
        if v[i + j] != p[j] {
            assert(v@.subrange(i as int, i + p@.len())[j as int] != p@[j as int]);
            return false;
        }
        j = j + 1;
    }
    assert(v@.subrange(i as int, i + p@.len()) =~= p@);
    true
}

/// Whether `p` stands somewhere in `v`.
pub fn chars_contain(v: &Vec<char>, p: &Vec<char>) -> (r: bool)
    ensures
        r == contains(v@, p@),
{
    let n: usize = v.len();
    let mut i: usize = 0;
    while i < n
        invariant
            n == v@.len(),
            i <= n,
            forall|k: int| 0 <= k < i ==> !#[trigger] occurs_at(v@, p@, k),
        decreases n - i,
    {
        if chars_occur_at(v, p, i) {
            return true;
        }
        i = i + 1;
    }
    chars_occur_at(v, p, n)
}

/// Whether `p` stands somewhere in `s`.
pub fn str_contains(s: &str, p: &str) -> (r: bool)
    ensures
        r == contains(s@, p@),
{
    let v = chars_of(s);
    let q = chars_of(p);
    chars_contain(&v, &q)
}

/// Whether `s` begins with `p`.
pub fn str_starts_with(s: &str, p: &str) -> (r: bool)
    ensures
        r == starts_with(s@, p@),
{
    let v = chars_of(s);
    let q = chars_of(p);
    chars_occur_at(&v, &q, 0)
}

/// `s` without a leading `p`, or nothing where it does not begin with `p`.
pub fn strip_prefix(s: &str, p: &str) -> (r: Option<String>)
    ensures
        match r {
            Some(rest) => starts_with(s@, p@) && rest@ == s@.skip(p@.len() as int),
            None => !starts_with(s@, p@),
        },
{
    let v = chars_of(s);
    let q = chars_of(p);
    if chars_occur_at(&v, &q, 0) {
        Some(string_of(&v, q.len(), v.len()))
    } else {
        None
    }
}

/// `s` with every occurrence of `from` replaced by `to`.
pub fn replace(s: &str, from: &str, to: &str) -> (r: String)
    requires
        from@.len() > 0,
    ensures
        r@ == replace_all(s@, from@, to@),
{
    let v = chars_of(s);
    let q = chars_of(from);
    let n: usize = v.len();
    let mut r: String = String::new();
    let mut i: usize = 0;
    assert(v@.skip(0) =~= v@);
    while i < n
        invariant
            v@ == s@,
            q@ == from@,
            q@.len() > 0,
            n == v@.len(),
            i <= n,
            r@ + replace_all(v@.skip(i as int), from@, to@) == replace_all(s@, from@, to@),
        decreases n - i,
    {
        let ghost rest = v@.skip(i as int);
        if chars_occur_at(&v, &q, i) {
            assert(rest.subrange(0, q@.len() as int) =~= v@.subrange(i as int, i + q@.len()));
            assert(rest.skip(q@.len() as int) =~= v@.skip(i + q@.len()));
            assert((r@ + to@) + replace_all(v@.skip(i + q@.len()), from@, to@) =~= r@ + (to@
                + replace_all(v@.skip(i + q@.len()), from@, to@)));
            r.append(to);
            i = i + q.len();
        } else {
            assert(i + q@.len() <= v@.len() ==> rest.subrange(0, q@.len() as int)
                =~= v@.subrange(i as int, i + q@.len()));
            assert(rest.skip(1) =~= v@.skip(i + 1));
            assert(r@.push(v@[i as int]) + replace_all(v@.skip(i + 1), from@, to@) =~= r@ + (
            seq![v@[i as int]] + replace_all(v@.skip(i + 1), from@, to@)));
            r.push(v[i]);
            i = i + 1;
        }
    }
    assert(v@.skip(n as int) =~= Seq::<char>::empty());
    assert(r@ + Seq::<char>::empty() =~= r@);
    r
}

/// Whether `c` is white space.
pub fn char_is_space(c: char) -> (r: bool)
    ensures
        r == is_space(c),
{
    ('\u{9}' <= c && c <= '\u{d}') || c == ' ' || c == '\u{85}' || c == '\u{a0}' || c == '\u{1680}'
        || ('\u{2000}' <= c && c <= '\u{200a}') || c == '\u{2028}' || c == '\u{2029}' || c
        == '\u{202f}' || c == '\u{205f}' || c == '\u{3000}'
}

/// The characters of `v` at `from..to` without white space at either end.
pub fn trim_chars(v: &Vec<char>, from: usize, to: usize) -> (s: String)
    requires
        from <= to <= v@.len(),
    ensures
        s@ == trimmed(v@.subrange(from as int, to as int)),
{
    let mut i: usize = from;
    let mut j: usize = to;
    while i < j && char_is_space(v[i])
        invariant
            from <= i <= j,
            j == to,
            to <= v@.len(),
            trim_start(v@.subrange(i as int, j as int)) == trim_start(
                v@.subrange(from as int, to as int),
            ),
        decreases j - i,
    {
        assert(v@.subrange(i as int, j as int).skip(1) =~= v@.subrange(i + 1, j as int));
        i = i + 1;
    }
    let ghost start = v@.subrange(i as int, j as int);
    assert(trim_start(start) == start);
    while i < j && char_is_space(v[j - 1])
        invariant
            i <= j <= to,
            to <= v@.len(),
            trim_end(v@.subrange(i as int, j as int)) == trim_end(start),
        decreases j - i,
    {
        assert(v@.subrange(i as int, j as int).drop_last() =~= v@.subrange(i as int, j - 1));
        j = j - 1;
    }
    assert(trim_end(v@.subrange(i as int, j as int)) == v@.subrange(i as int, j as int));
    string_of(v, i, j)
}

/// `s` without white space at either end.
pub fn trim(s: &str) -> (r: String)
    ensures
        r@ == trimmed(s@),
{
    let v = chars_of(s);
    assert(v@.subrange(0, v@.len() as int) =~= v@);
    trim_chars(&v, 0, v.len())
}

/// `s` with its ASCII capitals in lower case.
pub fn to_ascii_lowercase(s: &str) -> (r: String)
    ensures
        r@ == ascii_lower(s@),
{
    let v = chars_of(s);
    let mut r: String = String::new();
    let mut i: usize = 0;
    while i < v.len()
        invariant
            v@ == s@,
            i <= v@.len(),
            r@ == ascii_lower(s@.take(i as int)),
        decreases v@.len() - i,
    {
        let c = v[i];
        let d = if 'A' <= c && c <= 'Z' {
            ((c as u8) + 32) as char
        } else {
            c
        };
        assert(ascii_lower(s@.take(i + 1)) =~= ascii_lower(s@.take(i as int)).push(
            ascii_lower_char(c),
        ));
        r.push(d);
        i = i + 1;
    }
    assert(s@.take(s@.len() as int) =~= s@);
    r
}

/// The part of `s` before its first `sep`, or all of it.
pub fn take_before(s: &str, sep: char) -> (r: String)
    ensures
        r@ == before(s@, sep),
{
    let v = chars_of(s);
    let mut r: String = String::new();
    let mut i: usize = 0;
    assert(v@.skip(0) =~= v@);
    while i < v.len() && v[i] != sep
        invariant
            v@ == s@,
            i <= v@.len(),
            r@ + before(v@.skip(i as int), sep) == before(s@, sep),
        decreases v@.len() - i,
    {
        assert(v@.skip(i as int).skip(1) =~= v@.skip(i + 1));
        assert(r@.push(v@[i as int]) + before(v@.skip(i + 1), sep) =~= r@ + (seq![v@[i as int]]
            + before(v@.skip(i + 1), sep)));
        r.push(v[i]);
        i = i + 1;
    }
    assert(before(v@.skip(i as int), sep) =~= Seq::<char>::empty());
    assert(r@ + Seq::<char>::empty() =~= r@);
    r
}

/// `n` in decimal.
pub fn decimal_u64(n: u64) -> (r: String)
    ensures
        r@ == decimal(n as nat),
    decreases n,
{
    let d: u8 = (n % 10) as u8;
    let c: char = (d + 48) as char;
    if n < 10 {
        let mut r: String = String::new();
        r.push(c);
        assert(r@ =~= seq![digit(n as nat)]);
        r
    } else {
        let mut r = decimal_u64(n / 10);
        r.push(c);
        r
    }
}

/// `n` in decimal, with a minus sign where it is negative.
pub fn decimal_i64(n: i64) -> (r: String)
    ensures
        r@ == signed_decimal(n as int),
{
    if n < 0 {
        let mut r: String = String::new();
        r.push('-');
        let m: u64 = if n == i64::MIN {
            9223372036854775808u64
        } else {
            (-n) as u64
        };
        let t = decimal_u64(m);
        r.append(t.as_str());
        assert(r@ =~= seq!['-'] + decimal((-n) as nat));
        r
    } else {
        decimal_u64(n as u64)
    }
}

/// Bytes in lower-case hexadecimal, two digits each.
pub fn encode_hex(bytes: &[u8]) -> (r: String)
    ensures
        r@ == hex(bytes@),
{
    let mut r: String = String::new();
    let n: usize = bytes.len();
    let mut i: usize = 0;
    while i < n
        invariant
            n == bytes@.len(),
            i <= n,
            r@ == hex(bytes@.take(i as int)),
        decreases n - i,
    {
        let b = bytes[i];
        let hi = b / 16;
        let lo = b % 16;
        r.push(
            if hi < 10 {
                (hi + 48) as char
            } else {
                (hi + 87) as char
            },
        );
        r.push(
            if lo < 10 {
                (lo + 48) as char
            } else {
                (lo + 87) as char
            },
        );
        assert(r@ =~= hex(bytes@.take(i + 1)));
        i = i + 1;
    }
    assert(bytes@.take(n as int) =~= bytes@);
    r
}

/// The texts of `list` one after another, with `sep` between two of them.
pub fn join(list: &Vec<String>, sep: &str) -> (r: String)
    ensures
        r@ == joined(texts(list@), sep@),
{
    let mut r: String = String::new();
    let ghost all = texts(list@);
    let mut i: usize = 0;
    assert(r@ =~= joined(all.take(0), sep@));
    while i < list.len()
        invariant
            i <= list@.len(),
            all == texts(list@),
            r@ == joined(all.take(i as int), sep@),
        decreases list@.len() - i,
    {
        if i > 0 {
            r.append(sep);
        }
        r.append(list[i].as_str());
        proof {
            let next = all.take(i + 1);
            assert(next.drop_last() =~= all.take(i as int));
            if i == 0 {
                assert(r@ =~= next[0]);
            }
        }
        i = i + 1;
    }
    assert(all.take(all.len() as int) =~= all);
    r
}

/// A text stands at a place in another just where each of its characters does.
pub proof fn occurrences_are_by_character(s: Seq<char>, p: Seq<char>, i: int)
    ensures
        occurs_at(s, p, i) <==> 0 <= i && i + p.len() <= s.len() && forall|k: int|
            0 <= k < p.len() ==> s[i + k] == #[trigger] p[k],
{
    if occurs_at(s, p, i) {
        assert forall|k: int| 0 <= k < p.len() implies s[i + k] == #[trigger] p[k] by {
            assert(s.subrange(i, i + p.len())[k] == s[i + k]);
        }
    }
    if 0 <= i && i + p.len() <= s.len() && forall|k: int|
        0 <= k < p.len() ==> s[i + k] == #[trigger] p[k] {
        assert(s.subrange(i, i + p.len()) =~= p);
    }
}

/// A text holds another just where it is that text with something before and
/// something after it.
pub proof fn holding_is_by_parts(s: Seq<char>, p: Seq<char>)
    ensures
        contains(s, p) <==> exists|a: Seq<char>, b: Seq<char>| s == #[trigger] (a + p + b),
        starts_with(s, p) <==> exists|b: Seq<char>| s == #[trigger] (p + b),
{
    if contains(s, p) {
        let i = choose|i: int| occurs_at(s, p, i);
        let a = s.take(i);
        let b = s.skip(i + p.len());
        assert(s.subrange(i, i + p.len()) == p);
        assert(s =~= a + p + b);
    }
    if exists|a: Seq<char>, b: Seq<char>| s == #[trigger] (a + p + b) {
        let (a, b) = choose|a: Seq<char>, b: Seq<char>| s == #[trigger] (a + p + b);
        assert(s.subrange(a.len() as int, (a.len() + p.len()) as int) =~= p);
        assert(occurs_at(s, p, a.len() as int));
    }
    if starts_with(s, p) {
        let b = s.skip(p.len() as int);
        assert(s.subrange(0, p.len() as int) == p);
        assert(s =~= p + b);
    }
    if exists|b: Seq<char>| s == #[trigger] (p + b) {
        let b = choose|b: Seq<char>| s == #[trigger] (p + b);
        assert(s.subrange(0, p.len() as int) =~= p);
    }
}

/// Which characters are white space, by their numbers.
pub proof fn white_space_is_by_number(c: char)
    ensures
        is_space(c) <==> {
            let n = c as int;
            9 <= n <= 13 || n == 32 || n == 133 || n == 160 || n == 5760 || 8192 <= n <= 8202 || n
                == 8232 || n == 8233 || n == 8239 || n == 8287 || n == 12288
        },
{
}

proof fn trimming_the_start(s: Seq<char>)
    ensures
        trim_start(s).len() <= s.len(),
        s.skip(s.len() - trim_start(s).len()) == trim_start(s),
        forall|i: int| 0 <= i < s.len() - trim_start(s).len() ==> is_space(#[trigger] s[i]),
        trim_start(s).len() > 0 ==> !is_space(trim_start(s)[0]),
    decreases s.len(),
{
    if s.len() > 0 && is_space(s[0]) {
        let rest = s.skip(1);
        trimming_the_start(rest);
        let n = s.len() - trim_start(s).len();
        assert(s.skip(n) =~= rest.skip(n - 1));
        assert forall|i: int| 0 <= i < n implies is_space(#[trigger] s[i]) by {
            if i > 0 {
                assert(rest[i - 1] == s[i]);
            }
        }
    } else {
        assert(s.skip(0) =~= s);
    }
}

proof fn trimming_the_end(s: Seq<char>)
    ensures
        trim_end(s).len() <= s.len(),
        s.take(trim_end(s).len() as int) == trim_end(s),
        forall|i: int| trim_end(s).len() <= i < s.len() ==> is_space(#[trigger] s[i]),
        trim_end(s).len() > 0 ==> !is_space(trim_end(s).last()),
    decreases s.len(),
{
    if s.len() > 0 && is_space(s.last()) {
        let rest = s.drop_last();
        trimming_the_end(rest);
        let n = trim_end(s).len() as int;
        assert(s.take(n) =~= rest.take(n));
        assert forall|i: int| n <= i < s.len() implies is_space(#[trigger] s[i]) by {
            if i < rest.len() {
                assert(rest[i] == s[i]);
            }
        }
    } else {
        assert(s.take(s.len() as int) =~= s);
    }
}

/// A trimmed text is the text without white space before and after it, and has
/// itself none at either end: nothing else is taken away.
pub proof fn trimming_takes_white_space_at_the_ends(s: Seq<char>)
    ensures
        exists|a: Seq<char>, b: Seq<char>|
            s == #[trigger] (a + trimmed(s) + b) && (forall|i: int|
                0 <= i < a.len() ==> is_space(#[trigger] a[i])) && (forall|i: int|
                0 <= i < b.len() ==> is_space(#[trigger] b[i])),
        trimmed(s).len() > 0 ==> !is_space(trimmed(s)[0]) && !is_space(trimmed(s).last()),
        trimmed(trimmed(s)) == trimmed(s),
{
    let m = trim_start(s);
    let t = trimmed(s);
    trimming_the_start(s);
    trimming_the_end(m);
    let a = s.take(s.len() - m.len());
    let b = m.skip(t.len() as int);
    assert(s =~= a + m);
    assert(m =~= t + b);
    assert(s =~= a + t + b);
    assert forall|i: int| 0 <= i < a.len() implies is_space(#[trigger] a[i]) by {
        assert(a[i] == s[i]);
    }
    assert forall|i: int| 0 <= i < b.len() implies is_space(#[trigger] b[i]) by {
        assert(b[i] == m[t.len() + i]);
    }
    if t.len() > 0 {
        assert(t[0] == m[0]);
        assert(trim_start(t) == t);
        assert(trim_end(t) == t);
    }
}

/// In lower case a text keeps its length, its capitals A to Z become a to z, and
/// every other character stays.
pub proof fn only_ascii_capitals_are_lowered(s: Seq<char>)
    ensures
        ascii_lower(s).len() == s.len(),
        forall|i: int|
            0 <= i < s.len() ==> (#[trigger] ascii_lower(s)[i]) as int == s[i] as int + if 65
                <= s[i] as int && s[i] as int <= 90 {
                32int
            } else {
                0
            },
{
}

proof fn a_text_without_it_stays(a: Seq<char>, from: Seq<char>, to: Seq<char>)
    requires
        from.len() > 0,
        !contains(a, from),
    ensures
        replace_all(a, from, to) == a,
    decreases a.len(),
{
    if a.len() > 0 {
        let rest = a.skip(1);
        assert(!occurs_at(a, from, 0));
        assert(!contains(rest, from)) by {
            if contains(rest, from) {
                let i = choose|i: int| occurs_at(rest, from, i);
                assert(a.subrange(i + 1, i + 1 + from.len()) =~= rest.subrange(i, i + from.len()));
                assert(occurs_at(a, from, i + 1));
            }
        }
        a_text_without_it_stays(rest, from, to);
        assert(replace_all(a, from, to) =~= a);
    }
}

proof fn the_first_place_is_replaced(a: Seq<char>, b: Seq<char>, from: Seq<char>, to: Seq<char>)
    requires
        from.len() > 0,
        forall|i: int| 0 <= i < a.len() ==> !#[trigger] occurs_at(a + from + b, from, i),
    ensures
        replace_all(a + from + b, from, to) == a + to + replace_all(b, from, to),
    decreases a.len(),
{
    let s = a + from + b;
    if a.len() == 0 {
        assert(s.subrange(0, from.len() as int) =~= from);
        assert(s.skip(from.len() as int) =~= b);
        assert(replace_all(s, from, to) =~= a + to + replace_all(b, from, to));
    } else {
        let rest = a.skip(1);
        let tail = rest + from + b;
        assert(s.skip(1) =~= tail);
        assert forall|i: int| 0 <= i < rest.len() implies !#[trigger] occurs_at(tail, from, i) by {
            if occurs_at(tail, from, i) {
                assert(s.subrange(i + 1, i + 1 + from.len()) =~= tail.subrange(i, i + from.len()));
                assert(occurs_at(s, from, i + 1));
            }
        }
        the_first_place_is_replaced(rest, b, from, to);
        assert(!occurs_at(s, from, 0));
        assert(s[0] == a[0]);
        assert(replace_all(s, from, to) =~= a + to + replace_all(b, from, to));
    }
}

/// A text that is replaced: where it first stands, the replacement stands, what
/// is before it stays, and what is after it is dealt with the same way. A text
/// that does not hold it stays as it is.
pub proof fn replacing_goes_from_left_to_right(
    a: Seq<char>,
    b: Seq<char>,
    from: Seq<char>,
    to: Seq<char>,
)
    requires
        from.len() > 0,
    ensures
        !contains(a, from) ==> replace_all(a, from, to) == a,
        (forall|i: int| 0 <= i < a.len() ==> !#[trigger] occurs_at(a + from + b, from, i))
            ==> replace_all(a + from + b, from, to) == a + to + replace_all(b, from, to),
{
    if !contains(a, from) {
        a_text_without_it_stays(a, from, to);
    }
    if forall|i: int| 0 <= i < a.len() ==> !#[trigger] occurs_at(a + from + b, from, i) {
        the_first_place_is_replaced(a, b, from, to);
    }
}

/// What stands before a separator, the separator, and what comes after it give
/// the text again; the part before is the whole text where there is none.
pub proof fn parts_at_a_separator(a: Seq<char>, sep: char, b: Seq<char>)
    requires
        forall|i: int| 0 <= i < a.len() ==> a[i] != sep,
    ensures
        before(a + seq![sep] + b, sep) == a,
        before(a, sep) == a,
    decreases a.len(),
{
    let s = a + seq![sep] + b;
    all_is_before(a, sep);
    if a.len() > 0 {
        let rest = a.skip(1);
        assert forall|i: int| 0 <= i < rest.len() implies rest[i] != sep by {
            assert(rest[i] == a[i + 1]);
        }
        parts_at_a_separator(rest, sep, b);
        assert(s.skip(1) =~= rest + seq![sep] + b);
        assert(s[0] == a[0]);
        assert(before(s, sep) =~= a);
    } else {
        assert(s[0] == sep);
    }
}

/// The number that a text of digits is read as.
pub open spec fn number_of(s: Seq<char>) -> int
    decreases s.len(),
{
    if s.len() == 0 {
        0
    } else {
        10 * number_of(s.drop_last()) + (s.last() as int - 48)
    }
}

/// A number in decimal is digits only, has no leading zero, and is read as the
/// number again.
pub proof fn decimals_are_read_back(n: nat)
    ensures
        number_of(decimal(n)) == n,
        decimal(n).len() > 0,
        forall|i: int| 0 <= i < decimal(n).len() ==> 48 <= (#[trigger] decimal(n)[i]) as int <= 57,
        n > 0 ==> decimal(n)[0] as int != 48,
        signed_decimal(n as int) == decimal(n),
        n > 0 ==> signed_decimal(-(n as int)) == seq!['-'] + decimal(n),
    decreases n,
{
    if n >= 10 {
        decimals_are_read_back(n / 10);
        let rest = decimal(n / 10);
        let s = decimal(n);
        assert(s.drop_last() =~= rest);
        assert((n % 10) % 10 == n % 10);
        assert(s.last() as int == n % 10 + 48);
        assert forall|i: int| 0 <= i < s.len() implies 48 <= (#[trigger] s[i]) as int <= 57 by {
            if i < rest.len() {
                assert(s[i] == rest[i]);
            }
        }
        assert(s[0] == rest[0]);
    } else {
        let s = decimal(n);
        assert(s =~= seq![digit(n)]);
        assert(s.drop_last() =~= Seq::<char>::empty());
        assert(s.last() as int == n % 10 + 48);
        assert(number_of(s.drop_last()) == 0);
    }
}

/// The number that a lower-case hexadecimal digit stands for.
pub open spec fn hex_value(c: char) -> int {
    if 48 <= c as int && c as int <= 57 {
        c as int - 48
    } else if 97 <= c as int && c as int <= 102 {
        c as int - 87
    } else {
        -1
    }
}

/// Bytes in hexadecimal are two lower-case digits each, which are read as the
/// byte again.
pub proof fn hexadecimals_are_read_back(bytes: Seq<u8>)
    ensures
        hex(bytes).len() == 2 * bytes.len(),
        forall|i: int|
            0 <= i < bytes.len() ==> {
                let hi = hex_value(hex(bytes)[2 * i]);
                let lo = hex_value(hex(bytes)[2 * i + 1]);
                0 <= hi < 16 && 0 <= lo < 16 && 16 * hi + lo == (#[trigger] bytes[i]) as int
            },
{
    assert forall|i: int| 0 <= i < bytes.len() implies {
        let hi = hex_value(hex(bytes)[2 * i]);
        let lo = hex_value(hex(bytes)[2 * i + 1]);
        0 <= hi < 16 && 0 <= lo < 16 && 16 * hi + lo == (#[trigger] bytes[i]) as int
    } by {
        let b = bytes[i] as int;
        assert((2 * i) % 2 == 0 && (2 * i) / 2 == i);
        assert((2 * i + 1) % 2 == 1 && (2 * i + 1) / 2 == i);
        let h = b / 16;
        let l = b % 16;
        assert(0 <= h < 16 && 0 <= l < 16);
        assert(hex(bytes)[2 * i] == hex_digit(h));
        assert(hex(bytes)[2 * i + 1] == hex_digit(l));
        assert(hex_value(hex_digit(h)) == h);
        assert(hex_value(hex_digit(l)) == l);
    }
}

/// Lists of texts are joined with the separator between any two of them, and
/// nowhere else.
pub proof fn joining_puts_the_separator_between(
    a: Seq<Seq<char>>,
    b: Seq<Seq<char>>,
    s: Seq<char>,
    sep: Seq<char>,
)
    ensures
        joined(Seq::empty(), sep) == Seq::<char>::empty(),
        joined(seq![s], sep) == s,
        a.len() > 0 && b.len() > 0 ==> joined(a + b, sep) == joined(a, sep) + sep + joined(b, sep),
    decreases b.len(),
{
    if a.len() > 0 && b.len() > 0 {
        assert((a + b).drop_last() =~= a + b.drop_last());
        assert((a + b).last() == b.last());
        if b.len() == 1 {
            assert(a + b.drop_last() =~= a);
            assert(joined(a + b, sep) =~= joined(a, sep) + sep + joined(b, sep));
        } else {
            joining_puts_the_separator_between(a, b.drop_last(), s, sep);
            assert(joined(a + b, sep) =~= joined(a, sep) + sep + joined(b, sep));
        }
    }
}

/// Whether `v` is the text `s` with just the white space at its two ends taken
/// away, and is not empty.
pub open spec fn is_core_of(v: Seq<char>, s: Seq<char>) -> bool {
    &&& v.len() > 0
    &&& !is_space(v[0])
    &&& !is_space(v.last())
    &&& exists|a: Seq<char>, b: Seq<char>|
        s == #[trigger] (a + v + b) && (forall|i: int| 0 <= i < a.len() ==> is_space(#[trigger] a[i]))
            && (forall|i: int| 0 <= i < b.len() ==> is_space(#[trigger] b[i]))
}

/// A text that is more than white space has one core, which trimming finds; one
/// that is not has none.
pub proof fn trimming_finds_the_core(s: Seq<char>, v: Seq<char>)
    ensures
        trimmed(s).len() > 0 ==> is_core_of(trimmed(s), s),
        is_core_of(v, s) ==> v == trimmed(s),
        trimmed(s).len() == 0 <==> forall|i: int| 0 <= i < s.len() ==> is_space(#[trigger] s[i]),
{
    trimming_takes_white_space_at_the_ends(s);
    let t = trimmed(s);
    let (a, b) = choose|a: Seq<char>, b: Seq<char>|
        s == #[trigger] (a + t + b) && (forall|i: int| 0 <= i < a.len() ==> is_space(#[trigger] a[i]))
            && (forall|i: int| 0 <= i < b.len() ==> is_space(#[trigger] b[i]));
    if t.len() > 0 {
        assert(s[a.len() as int] == t[0]);
        assert(is_core_of(t, s));
    } else {
        assert forall|i: int| 0 <= i < s.len() implies is_space(#[trigger] s[i]) by {
            if i < a.len() {
                assert(s[i] == a[i]);
            } else {
                assert(s[i] == b[i - a.len()]);
            }
        }
    }
    if is_core_of(v, s) {
        let (x, y) = choose|x: Seq<char>, y: Seq<char>|
            s == #[trigger] (x + v + y) && (forall|i: int|
                0 <= i < x.len() ==> is_space(#[trigger] x[i])) && (forall|i: int|
                0 <= i < y.len() ==> is_space(#[trigger] y[i]));
        assert(s[x.len() as int] == v[0]);
        assert(s[x.len() + v.len() - 1] == v.last());
        assert(t.len() > 0);
        assert(s[a.len() as int] == t[0]);
        assert(s[a.len() + t.len() - 1] == t.last());
        assert(x.len() == a.len()) by {
            if x.len() < a.len() {
                assert(is_space(a[x.len() as int]));
            }
            if a.len() < x.len() {
                assert(is_space(x[a.len() as int]));
            }
        }
        assert(y.len() == b.len()) by {
            if y.len() < b.len() {
                assert(s[x.len() + v.len() - 1] == b[x.len() + v.len() - 1 - a.len() - t.len()]);
            }
            if b.len() < y.len() {
                assert(s[a.len() + t.len() - 1] == y[a.len() + t.len() - 1 - x.len() - v.len()]);
            }
        }
        assert(v =~= s.subrange(x.len() as int, (x.len() + v.len()) as int));
        assert(t =~= s.subrange(a.len() as int, (a.len() + t.len()) as int));
    }
}

/// A prefix that a text begins with is taken away, and nothing else is.
pub proof fn a_prefix_is_taken_away(p: Seq<char>, b: Seq<char>)
    ensures
        without_prefix(p + b, p) == b,
        !starts_with(b, p) ==> without_prefix(b, p) == b,
{
    assert((p + b).subrange(0, p.len() as int) =~= p);
    assert((p + b).skip(p.len() as int) =~= b);
}

} // verus!
