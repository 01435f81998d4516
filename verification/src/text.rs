//! Helpers on strings, specified over their character view.

use vstd::prelude::*;
use vstd::string::StringSliceAdditionalSpecFns;

verus! {

/// `String::push` of std appends one character to the end of the string.
pub assume_specification[ String::push ](s: &mut String, c: char)
    ensures
        final(s)@ == old(s)@.push(c),
;

/// Whether two string slices hold the same characters.
pub fn str_eq(a: &str, b: &str) -> (same: bool)
    ensures
        same == (a@ == b@),
{
    let x = a.as_bytes();
    let y = b.as_bytes();
    if x.len() != y.len() {
        return false;
    }
    let mut i: usize = 0;
    while i < x.len()
        invariant
            i <= x.len(),
            x.len() == y.len(),
            x@ == a.spec_bytes(),
            y@ == b.spec_bytes(),
            forall|j: int| 0 <= j < i ==> x@[j] == y@[j],
        decreases x.len() - i,
    {
        if x[i] != y[i] {
            return false;
        }
        i += 1;
    }
    proof {
        assert(x@ =~= y@);
        vstd::utf8::encode_utf8_decode_utf8(a@);
        vstd::utf8::encode_utf8_decode_utf8(b@);
    }
    true
}

/// The characters of a string, in order.
pub fn to_chars(s: &str) -> (v: Vec<char>)
    ensures
        v@ == s@,
{
    let mut v: Vec<char> = Vec::new();
    let it = s.chars();
    for c in walk: it
        invariant
            v@ == walk.seq().take(walk.index@),
    {
        v.push(c);
    }
    v
}

/// The string made of `v[from..to]`.
pub fn string_of(v: &Vec<char>, from: usize, to: usize) -> (s: String)
    requires
        from <= to <= v.len(),
    ensures
        s@ == v@.subrange(from as int, to as int),
{
    let mut s: String = String::new();
    let mut i: usize = from;
    while i < to
        invariant
            from <= i <= to <= v.len(),
            s@ == v@.subrange(from as int, i as int),
        decreases to - i,
    {
        s.push(v[i]);
        assert(v@.subrange(from as int, i as int).push(v@[i as int]) =~= v@.subrange(
            from as int,
            i + 1,
        ));
        i += 1;
    }
    s
}

/// The decimal digit for `d`, which is below ten.
pub open spec fn digit_char(d: nat) -> char {
    if d == 0 {
        '0'
    } else if d == 1 {
        '1'
    } else if d == 2 {
        '2'
    } else if d == 3 {
        '3'
    } else if d == 4 {
        '4'
    } else if d == 5 {
        '5'
    } else if d == 6 {
        '6'
    } else if d == 7 {
        '7'
    } else if d == 8 {
        '8'
    } else {
        '9'
    }
}

/// A natural number written in base ten, without leading zeros.
pub open spec fn decimal_nat(n: nat) -> Seq<char>
    decreases n,
{
    if n < 10 {
        seq![digit_char(n)]
    } else {
        decimal_nat(n / 10).push(digit_char(n % 10))
    }
}

/// An integer written in base ten, with a minus sign when it is negative.
pub open spec fn decimal(n: int) -> Seq<char> {
    if n < 0 {
        seq!['-'] + decimal_nat((-n) as nat)
    } else {
        decimal_nat(n as nat)
    }
}

fn digit_of(d: u128) -> (c: char)
    requires
        d < 10,
    ensures
        c == digit_char(d as nat),
{
    if d == 0 {
        '0'
    } else if d == 1 {
        '1'
    } else if d == 2 {
        '2'
    } else if d == 3 {
        '3'
    } else if d == 4 {
        '4'
    } else if d == 5 {
        '5'
    } else if d == 6 {
        '6'
    } else if d == 7 {
        '7'
    } else if d == 8 {
        '8'
    } else {
        '9'
    }
}

/// Appends `n` in base ten to `s`.
pub fn push_nat(s: &mut String, n: u128)
    ensures
        final(s)@ == old(s)@ + decimal_nat(n as nat),
    decreases n,
{
    if n < 10 {
        s.push(digit_of(n));
        assert(old(s)@.push(digit_char(n as nat)) =~= old(s)@ + decimal_nat(n as nat));
    } else {
        push_nat(s, n / 10);
        s.push(digit_of(n % 10));
        assert((old(s)@ + decimal_nat((n / 10) as nat)).push(digit_char((n % 10) as nat)) =~= old(
            s,
        )@ + decimal_nat(n as nat));
    }
}

/// Appends `n` in base ten to `s`, with a minus sign when it is negative.
pub fn push_int(s: &mut String, n: i64)
    ensures
        final(s)@ == old(s)@ + decimal(n as int),
{
    if n < 0 {
        s.push('-');
        let m: u128 = (-(n as i128)) as u128;
        push_nat(s, m);
        assert(old(s)@.push('-') + decimal_nat(m as nat) =~= old(s)@ + decimal(n as int));
    } else {
        push_nat(s, n as u128);
    }
}

/// Appends the characters of `t` to `s`.
pub fn push_str(s: &mut String, t: &str)
    ensures
        final(s)@ == old(s)@ + t@,
{
    let it = t.chars();
    for c in walk: it
        invariant
            s@ == old(s)@ + walk.seq().take(walk.index@),
            walk.seq() == t@,
    {
        s.push(c);
        assert((old(s)@ + t@.take(walk.index@)).push(t@[walk.index@]) =~= old(s)@ + t@.take(
            walk.index@ + 1,
        ));
    }
    assert(t@.take(t@.len() as int) =~= t@);
}

/// `count` zeros.
pub open spec fn zeros(count: nat) -> Seq<char> {
    Seq::new(count, |i: int| '0')
}

/// An integer in base ten, filled up with zeros between the sign and the
/// digits until it is `width` characters long.
pub open spec fn padded(n: int, width: nat) -> Seq<char> {
    let sign = if n < 0 { seq!['-'] } else { Seq::<char>::empty() };
    let digits = decimal_nat((if n < 0 { -n } else { n }) as nat);
    let fill = if sign.len() + digits.len() < width {
        (width - sign.len() - digits.len()) as nat
    } else {
        0nat
    };
    sign + zeros(fill) + digits
}

/// The digits of `n`, most significant first.
fn digits_of(n: u128) -> (v: Vec<char>)
    ensures
        v@ == decimal_nat(n as nat),
    decreases n,
{
    if n < 10 {
        let mut v: Vec<char> = Vec::new();
        v.push(digit_of(n));
        assert(v@ =~= decimal_nat(n as nat));
        v
    } else {
        let mut v = digits_of(n / 10);
        v.push(digit_of(n % 10));
        v
    }
}

/// Appends `n` to `s`, filled up with zeros to `width` characters.
pub fn push_padded(s: &mut String, n: i64, width: usize)
    ensures
        final(s)@ == old(s)@ + padded(n as int, width as nat),
{
    let m: u128 = if n < 0 { (-(n as i128)) as u128 } else { n as u128 };
    let digits = digits_of(m);
    let sign_len: usize = if n < 0 { 1 } else { 0 };
    if n < 0 {
        s.push('-');
    }
    let ghost signed = s@;
    let fill: usize = if width > sign_len && width - sign_len > digits.len() {
        width - sign_len - digits.len()
    } else {
        0
    };
    let mut i: usize = 0;
    while i < fill
        invariant
            i <= fill,
            s@ == signed + zeros(i as nat),
        decreases fill - i,
    {
        s.push('0');
        assert((signed + zeros(i as nat)).push('0') =~= signed + zeros((i + 1) as nat));
        i += 1;
    }
    let ghost filled = s@;
    let mut j: usize = 0;
    while j < digits.len()
        invariant
            j <= digits.len(),
            s@ == filled + digits@.take(j as int),
        decreases digits.len() - j,
    {
        s.push(digits[j]);
        assert((filled + digits@.take(j as int)).push(digits@[j as int]) =~= filled + digits@.take(
            j + 1,
        ));
        j += 1;
    }
    assert(digits@.take(digits.len() as int) =~= digits@);
    assert(s@ =~= old(s)@ + padded(n as int, width as nat));
}

/// Whether `v[at..]` starts with the characters of `prefix`.
pub fn starts_with_at(v: &Vec<char>, at: usize, prefix: &str) -> (r: bool)
    requires
        at <= v.len(),
    ensures
        r == prefix@.is_prefix_of(v@.skip(at as int)),
{
    let p = to_chars(prefix);
    if p.len() > v.len() - at {
        return false;
    }
    let mut i: usize = 0;
    while i < p.len()
        invariant
            i <= p.len(),
            at + p.len() <= v.len(),
            p@ == prefix@,
            forall|j: int| 0 <= j < i ==> p@[j] == v@[at + j],
        decreases p.len() - i,
    {
        if p[i] != v[at + i] {
            assert(v@.skip(at as int).subrange(0, p@.len() as int)[i as int] != p@[i as int]);
            return false;
        }
        i += 1;
    }
    assert(p@ =~= v@.skip(at as int).subrange(0, p@.len() as int));
    true
}

/// The index of the first `c` in `s` at or after `from`; the length of `s`
/// if there is none.
pub open spec fn first_at(s: Seq<char>, from: int, c: char) -> int
    decreases s.len() - from,
{
    if from >= s.len() {
        s.len() as int
    } else if s[from] == c {
        from
    } else {
        first_at(s, from + 1, c)
    }
}

/// `first_at` returns an index between `from` and the length, at which `c`
/// stands unless it is the length, and before which `c` does not occur.
pub proof fn lemma_first_at(s: Seq<char>, from: int, c: char)
    requires
        0 <= from <= s.len(),
    ensures
        from <= first_at(s, from, c) <= s.len(),
        first_at(s, from, c) < s.len() ==> s[first_at(s, from, c)] == c,
        forall|j: int| from <= j < first_at(s, from, c) ==> s[j] != c,
    decreases s.len() - from,
{
    if from < s.len() && s[from] != c {
        lemma_first_at(s, from + 1, c);
    }
}

/// The index of the first `c` in `v` at or after `from`; the length if there is none.
pub fn find_char(v: &Vec<char>, from: usize, c: char) -> (at: usize)
    requires
        from <= v.len(),
    ensures
        at == first_at(v@, from as int, c),
        from <= at <= v.len(),
{
    let mut i: usize = from;
    while i < v.len() && v[i] != c
        invariant
            from <= i <= v.len(),
            first_at(v@, from as int, c) == first_at(v@, i as int, c),
        decreases v.len() - i,
    {
        i += 1;
    }
    i
}

/// Whether `c` is white space as Unicode defines it (the property White_Space).
pub open spec fn is_space(c: char) -> bool {
    let u = c as u32;
    ||| 0x09 <= u <= 0x0d
    ||| u == 0x20
    ||| u == 0x85
    ||| u == 0xa0
    ||| u == 0x1680
    ||| 0x2000 <= u <= 0x200a
    ||| u == 0x2028
    ||| u == 0x2029
    ||| u == 0x202f
    ||| u == 0x205f
    ||| u == 0x3000
}

/// Whether `c` is white space.
pub fn is_space_char(c: char) -> (r: bool)
    ensures
        r == is_space(c),
{
    let u: u32 = c as u32;
    (0x09 <= u && u <= 0x0d) || u == 0x20 || u == 0x85 || u == 0xa0 || u == 0x1680 || (0x2000 <= u
        && u <= 0x200a) || u == 0x2028 || u == 0x2029 || u == 0x202f || u == 0x205f || u == 0x3000
}

/// `s` without the white space at its start.
pub open spec fn trim_front(s: Seq<char>) -> Seq<char>
    decreases s.len(),
{
    if s.len() > 0 && is_space(s[0]) {
        trim_front(s.drop_first())
    } else {
        s
    }
}

/// `s` without the white space at its end.
pub open spec fn trim_back(s: Seq<char>) -> Seq<char>
    decreases s.len(),
{
    if s.len() > 0 && is_space(s.last()) {
        trim_back(s.drop_last())
    } else {
        s
    }
}

/// `s` without the white space at its start and at its end.
pub open spec fn trimmed(s: Seq<char>) -> Seq<char> {
    trim_back(trim_front(s))
}

/// The bounds of `v` without the white space at its start and at its end.
pub fn trim_bounds(v: &Vec<char>) -> (b: (usize, usize))
    ensures
        b.0 <= b.1 <= v.len(),
        v@.subrange(b.0 as int, b.1 as int) == trimmed(v@),
{
    let mut a: usize = 0;
    assert(v@.skip(0) =~= v@);
    while a < v.len() && is_space_char(v[a])
        invariant
            a <= v.len(),
            trim_front(v@) == trim_front(v@.skip(a as int)),
        decreases v.len() - a,
    {
        proof {
            assert(v@.skip(a as int).drop_first() =~= v@.skip(a + 1));
        }
        a += 1;
    }
    assert(trim_front(v@) == v@.skip(a as int));
    assert(v@.skip(a as int) =~= v@.subrange(a as int, v.len() as int));
    let mut z: usize = v.len();
    while z > a && is_space_char(v[z - 1])
        invariant
            a <= z <= v.len(),
            trim_back(v@.skip(a as int)) == trim_back(v@.subrange(a as int, z as int)),
        decreases z,
    {
        proof {
            assert(v@.subrange(a as int, z as int).drop_last() =~= v@.subrange(a as int, z - 1));
        }
        z -= 1;
    }
    (a, z)
}

/// Whether `s` holds nothing but white space.
pub fn is_blank(s: &str) -> (r: bool)
    ensures
        r == (trimmed(s@).len() == 0),
{
    let v = to_chars(s);
    let (a, z) = trim_bounds(&v);
    a == z
}

/// `s` without the white space at its start and at its end, as a string of its own.
pub fn trim_text(s: &str) -> (t: String)
    ensures
        t@ == trimmed(s@),
{
    let v = to_chars(s);
    let (a, z) = trim_bounds(&v);
    string_of(&v, a, z)
}

/// The text that `String::from_utf8_lossy` of std makes of `bytes`: the
/// decoded characters, with U+FFFD in place of each ill-formed sequence.
pub uninterp spec fn lossy_text(bytes: Seq<u8>) -> Seq<char>;

/// The upper case of `s` by `str::to_uppercase` of std, which follows the
/// Unicode case mappings and may change the number of characters.
pub uninterp spec fn uppercase(s: Seq<char>) -> Seq<char>;

/// The lower case of `s` by `str::to_lowercase` of std, which follows the
/// Unicode case mappings and may change the number of characters.
pub uninterp spec fn lowercase(s: Seq<char>) -> Seq<char>;

/// Decodes `bytes` with `String::from_utf8_lossy`. The contract only names the result.
#[verifier::external_body]
pub(crate) fn utf8_lossy(bytes: &[u8]) -> (text: String)
    ensures
        text@ == lossy_text(bytes@),
{
    String::from_utf8_lossy(bytes).into_owned()
}

/// Upper case by `str::to_uppercase`. The contract only names the result.
#[verifier::external_body]
pub(crate) fn to_upper(s: &str) -> (text: String)
    ensures
        text@ == uppercase(s@),
{
    s.to_uppercase()
}

/// Lower case by `str::to_lowercase`. The contract only names the result.
#[verifier::external_body]
pub(crate) fn to_lower(s: &str) -> (text: String)
    ensures
        text@ == lowercase(s@),
{
    s.to_lowercase()
}

/// Whether `needle` occurs in `hay`.
pub open spec fn occurs_in(needle: Seq<char>, hay: Seq<char>) -> bool {
    exists|i: int| 0 <= i <= hay.len() && needle.is_prefix_of(#[trigger] hay.skip(i))
}

/// Whether `needle` occurs in `hay`.
pub fn contains_text(hay: &str, needle: &str) -> (found: bool)
    ensures
        found == occurs_in(needle@, hay@),
{
    let v = to_chars(hay);
    let mut i: usize = 0;
    while i < v.len()
        invariant
            i <= v.len(),
            v@ == hay@,
            forall|j: int| 0 <= j < i ==> !needle@.is_prefix_of(#[trigger] v@.skip(j)),
        decreases v.len() - i,
    {
        if starts_with_at(&v, i, needle) {
            return true;
        }
        i += 1;
    }
    starts_with_at(&v, i, needle)
}

/// `c` in lower case where it is an ASCII capital, `c` itself otherwise.
pub open spec fn ascii_lower(c: char) -> char {
    if 'A' <= c <= 'Z' {
        ((c as u8) + 32) as char
    } else {
        c
    }
}

/// Whether `a` and `b` are the same but for the case of ASCII letters.
pub open spec fn same_ignoring_ascii_case(a: Seq<char>, b: Seq<char>) -> bool {
    a.len() == b.len() && forall|i: int| 0 <= i < a.len() ==> ascii_lower(a[i]) == ascii_lower(b[i])
}

fn lower_char(c: char) -> (l: char)
    ensures
        l == ascii_lower(c),
{
    if 'A' <= c && c <= 'Z' {
        ((c as u8) + 32) as char
    } else {
        c
    }
}

/// Whether `a` and `b` are the same but for the case of ASCII letters.
pub fn eq_ignoring_ascii_case(a: &str, b: &str) -> (same: bool)
    ensures
        same == same_ignoring_ascii_case(a@, b@),
{
    let x = to_chars(a);
    let y = to_chars(b);
    if x.len() != y.len() {
        return false;
    }
    let mut i: usize = 0;
    while i < x.len()
        invariant
            i <= x.len() == y.len(),
            x@ == a@,
            y@ == b@,
            forall|j: int| 0 <= j < i ==> ascii_lower(x@[j]) == ascii_lower(y@[j]),
        decreases x.len() - i,
    {
        if lower_char(x[i]) != lower_char(y[i]) {
            return false;
        }
        i += 1;
    }
    true
}

/// The value of the decimal digit `c`, if it is one.
pub open spec fn digit_value(c: char) -> Option<nat> {
    if '0' <= c <= '9' {
        Some((c as u32 - '0' as u32) as nat)
    } else {
        None
    }
}

/// The number that the digits `s` write in base ten; `None` if `s` is empty
/// or holds anything but digits.
pub open spec fn digits_value(s: Seq<char>) -> Option<nat>
    decreases s.len(),
{
    if s.len() == 0 {
        None
    } else if s.len() == 1 {
        digit_value(s[0])
    } else {
        match (digits_value(s.drop_last()), digit_value(s.last())) {
            (Some(high), Some(low)) => Some(high * 10 + low),
            _ => None,
        }
    }
}

/// The number that `s` writes as std reads an unsigned integer: digits,
/// after one `+` at most; `None` for anything else.
pub open spec fn unsigned_value(s: Seq<char>) -> Option<nat> {
    if s.len() > 0 && s[0] == '+' {
        digits_value(s.drop_first())
    } else {
        digits_value(s)
    }
}

/// Reads `v[from..to]` as an unsigned integer that is at most `limit`.
pub fn parse_unsigned(v: &Vec<char>, from: usize, to: usize, limit: u64) -> (n: Option<u64>)
    requires
        from <= to <= v.len(),
    ensures
        n == match unsigned_value(v@.subrange(from as int, to as int)) {
            Some(value) => if value <= limit {
                Some(value as u64)
            } else {
                None
            },
            None => None,
        },
{
    let ghost text = v@.subrange(from as int, to as int);
    let start: usize = if from < to && v[from] == '+' { from + 1 } else { from };
    let ghost digits = v@.subrange(start as int, to as int);
    proof {
        if from < to && v@[from as int] == '+' {
            assert(text[0] == '+');
            assert(text.drop_first() =~= digits);
        } else {
            assert(text =~= digits);
            if text.len() > 0 {
                assert(text[0] == v@[from as int]);
            }
        }
        assert(unsigned_value(text) == digits_value(digits));
    }
    if start == to {
        return None;
    }
    let mut value: u64 = 0;
    let mut over: bool = false;
    let mut i: usize = start;
    while i < to
        invariant
            start <= i <= to <= v.len(),
            start < to,
            digits == v@.subrange(start as int, to as int),
            text == v@.subrange(from as int, to as int),
            unsigned_value(text) == digits_value(digits),
            i > start ==> match digits_value(v@.subrange(start as int, i as int)) {
                Some(d) => if over {
                    d > limit
                } else {
                    d == value && d <= limit
                },
                None => false,
            },
            i == start ==> value == 0 && !over,
        decreases to - i,
    {
        let c = v[i];
        let ghost head = v@.subrange(start as int, i as int);
        let ghost next = v@.subrange(start as int, i + 1);
        proof {
            assert(next.drop_last() =~= head);
            assert(next.last() == c);
        }
        if !('0' <= c && c <= '9') {
            proof {
                assert(digits_value(next) is None);
                lemma_digits_prefix(digits, (i + 1 - start) as int);
                assert(digits.take((i + 1 - start) as int) =~= next);
            }
            return None;
        }
        let d: u64 = (c as u32 - '0' as u32) as u64;
        if !over {
            if limit < d || value > (limit - d) / 10 {
                over = true;
            } else {
                value = value * 10 + d;
            }
        }
        proof {
            if i > start {
                let h = digits_value(head)->0;
                assert(digits_value(next) == Some(h * 10 + d as nat));
            } else {
                assert(next.len() == 1);
                assert(digits_value(next) == Some(d as nat));
            }
        }
        i += 1;
    }
    assert(v@.subrange(start as int, to as int) =~= digits);
    if over {
        None
    } else {
        Some(value)
    }
}

/// Digits that write a number do so in every prefix that is not empty.
proof fn lemma_digits_prefix(s: Seq<char>, n: int)
    requires
        0 < n <= s.len(),
        digits_value(s.take(n)) is None,
    ensures
        digits_value(s) is None,
    decreases s.len(),
{
    if n < s.len() {
        assert(s.drop_last().take(n) =~= s.take(n));
        lemma_digits_prefix(s.drop_last(), n);
    } else {
        assert(s.take(n) =~= s);
    }
}

/// The text that the `Debug` form of `str` in std makes of `s`: `s` between
/// double quotes, with what cannot be shown as it is written as an escape.
pub uninterp spec fn debug_quoted(s: Seq<char>) -> Seq<char>;

/// The `Debug` form of a string. The contract only names the result.
#[verifier::external_body]
pub(crate) fn debug_text(s: &str) -> (text: String)
    ensures
        text@ == debug_quoted(s@),
{
    format!("{:?}", s)
}

/// A copy of `v[from..to]`.
pub fn slice_of(v: &Vec<char>, from: usize, to: usize) -> (part: Vec<char>)
    requires
        from <= to <= v.len(),
    ensures
        part@ == v@.subrange(from as int, to as int),
{
    let mut part: Vec<char> = Vec::new();
    let mut i: usize = from;
    while i < to
        invariant
            from <= i <= to <= v.len(),
            part@ == v@.subrange(from as int, i as int),
        decreases to - i,
    {
        part.push(v[i]);
        assert(v@.subrange(from as int, i as int).push(v@[i as int]) =~= v@.subrange(
            from as int,
            i + 1,
        ));
        i += 1;
    }
    part
}

} // verus!
