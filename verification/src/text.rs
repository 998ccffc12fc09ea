use vstd::prelude::*;

use crate::editor::digits_value;

verus! {

/// `String::push` appends one character to the end of the string.
pub assume_specification[ String::push ](s: &mut String, ch: char)
    ensures
        final(s)@ == old(s)@.push(ch),
;

/// The characters of `s`, in order.
pub fn chars_of(s: &str) -> (v: Vec<char>)
    ensures
        v@ == s@,
{
    let mut v: Vec<char> = Vec::new();
    for c in it: s.chars()
        invariant
            v@ == it.seq().take(it.index() as int),
            it.seq() == s@,
    {
        v.push(c);
    }
    v
}

/// A `String` holding exactly the characters of `v`.
pub fn string_from_chars(v: &Vec<char>) -> (s: String)
    ensures
        s@ == v@,
{
    let mut s = String::new();
    let mut i: usize = 0;
    while i < v.len()
        invariant
            i <= v.len(),
            s@ == v@.take(i as int),
        decreases v.len() - i,
    {
        s.push(v[i]);
        i = i + 1;
    }
    s
}

} // verus!

verus! {

/// Three-way result of comparing two values.
#[derive(Debug, Clone, Copy, PartialEq, Eq, Structural)]
pub enum Order {
    Less,
    Equal,
    Greater,
}

/// Strict lexicographic order on character sequences, characters compared by
/// code point. This is the order of `String`'s `Ord`: UTF-8 encoding keeps
/// code-point order, so comparing the encoded bytes compares the characters.
pub open spec fn seq_lt(a: Seq<char>, b: Seq<char>) -> bool
    decreases a.len(),
{
    if a.len() == 0 {
        b.len() > 0
    } else if b.len() == 0 {
        false
    } else if a[0] != b[0] {
        (a[0] as int) < (b[0] as int)
    } else {
        seq_lt(a.drop_first(), b.drop_first())
    }
}

/// Three-way comparison in the order of `seq_lt`.
pub open spec fn seq_order(a: Seq<char>, b: Seq<char>) -> Order {
    if seq_lt(a, b) {
        Order::Less
    } else if a == b {
        Order::Equal
    } else {
        Order::Greater
    }
}

pub proof fn lemma_seq_lt_irreflexive(a: Seq<char>)
    ensures
        !seq_lt(a, a),
    decreases a.len(),
{
    if a.len() > 0 {
        lemma_seq_lt_irreflexive(a.drop_first());
    }
}

pub proof fn lemma_seq_lt_asymmetric(a: Seq<char>, b: Seq<char>)
    ensures
        !(seq_lt(a, b) && seq_lt(b, a)),
    decreases a.len(),
{
    if a.len() > 0 && b.len() > 0 && a[0] == b[0] {
        lemma_seq_lt_asymmetric(a.drop_first(), b.drop_first());
    }
}

pub proof fn lemma_seq_lt_transitive(a: Seq<char>, b: Seq<char>, c: Seq<char>)
    requires
        seq_lt(a, b),
        seq_lt(b, c),
    ensures
        seq_lt(a, c),
    decreases a.len(),
{
    if a.len() > 0 && b.len() > 0 && c.len() > 0 && a[0] == b[0] && b[0] == c[0] {
        lemma_seq_lt_transitive(a.drop_first(), b.drop_first(), c.drop_first());
    }
}

pub proof fn lemma_seq_lt_total(a: Seq<char>, b: Seq<char>)
    ensures
        seq_lt(a, b) || a == b || seq_lt(b, a),
    decreases a.len(),
{
    if a.len() == 0 && b.len() == 0 {
        assert(a =~= b);
    } else if a.len() > 0 && b.len() > 0 {
        if a[0] == b[0] {
            lemma_seq_lt_total(a.drop_first(), b.drop_first());
            if a.drop_first() == b.drop_first() {
                assert(a =~= seq![a[0]] + a.drop_first());
                assert(b =~= seq![b[0]] + b.drop_first());
            }
        } else {
        }
    }
}

proof fn lemma_seq_lt_skip(a: Seq<char>, b: Seq<char>, i: int)
    requires
        0 <= i <= a.len(),
        i <= b.len(),
        a.take(i) == b.take(i),
    ensures
        seq_lt(a, b) == seq_lt(a.skip(i), b.skip(i)),
    decreases i,
{
    if i > 0 {
        assert(a[0] == a.take(i)[0]);
        assert(b[0] == b.take(i)[0]);
        assert(a.drop_first().take(i - 1) =~= a.take(i).drop_first());
        assert(b.drop_first().take(i - 1) =~= b.take(i).drop_first());
        lemma_seq_lt_skip(a.drop_first(), b.drop_first(), i - 1);
        assert(a.drop_first().skip(i - 1) =~= a.skip(i));
        assert(b.drop_first().skip(i - 1) =~= b.skip(i));
    } else {
        assert(a.skip(0) =~= a);
        assert(b.skip(0) =~= b);
    }
}

/// Compares two character sequences in the order of `seq_lt`.
pub fn compare_chars(a: &Vec<char>, b: &Vec<char>) -> (o: Order)
    ensures
        o == seq_order(a@, b@),
        (o == Order::Equal) == (a@ == b@),
        (o == Order::Less) == seq_lt(a@, b@),
        (o == Order::Greater) == seq_lt(b@, a@),
{
    let mut i: usize = 0;
    while i < a.len() && i < b.len() && a[i] == b[i]
        invariant
            i <= a.len(),
            i <= b.len(),
            a@.take(i as int) == b@.take(i as int),
        decreases a.len() - i,
    {
        assert(a@.take(i + 1) =~= a@.take(i as int).push(a@[i as int]));
        assert(b@.take(i + 1) =~= b@.take(i as int).push(b@[i as int]));
        i = i + 1;
    }
    proof {
        lemma_seq_lt_skip(a@, b@, i as int);
        lemma_seq_lt_asymmetric(a@, b@);
        lemma_seq_lt_total(a@, b@);
        lemma_seq_lt_irreflexive(a@);
    }
    if i == a.len() && i == b.len() {
        assert(a@ =~= a@.take(i as int));
        assert(b@ =~= b@.take(i as int));
        Order::Equal
    } else if i == a.len() {
        assert(a@.skip(i as int).len() == 0);
        proof { if a@ == b@ { assert(false); } }
        Order::Less
    } else if i == b.len() {
        assert(b@.skip(i as int).len() == 0);
        proof { if a@ == b@ { assert(false); } }
        Order::Greater
    } else {
        assert(a@.skip(i as int)[0] == a@[i as int]);
        assert(b@.skip(i as int)[0] == b@[i as int]);
        proof { if a@ == b@ { assert(a@[i as int] == b@[i as int]); } }
        if a[i] < b[i] {
            Order::Less
        } else {
            Order::Greater
        }
    }
}

} // verus!

verus! {

/// Whether `c` has the Unicode White_Space property, the set `char::is_whitespace`
/// and `str::trim` use.
pub open spec fn is_white_space(c: char) -> bool {
    let u = c as int;
    ||| 0x09 <= u <= 0x0d
    ||| u == 0x20
    ||| u == 0x85
    ||| u == 0xa0
    ||| u == 0x1680
    ||| 0x2000 <= u <= 0x200a
    ||| u == 0x2028
    ||| u == 0x2029
    ||| u == 0x202f
    ||| u == 0x205f
    ||| u == 0x3000
}

/// Calls `char::is_whitespace`, which the standard library documents as
/// testing the White_Space property.
#[verifier::external_body]
pub(crate) fn char_is_whitespace(c: char) -> (b: bool)
    ensures
        b == is_white_space(c),
{
    c.is_whitespace()
}

/// The number of white-space characters at the start of `s`.
pub open spec fn leading_space(s: Seq<char>) -> nat
    decreases s.len(),
{
    if s.len() > 0 && is_white_space(s[0]) {
        1 + leading_space(s.drop_first())
    } else {
        0
    }
}

/// The number of white-space characters at the end of `s`.
pub open spec fn trailing_space(s: Seq<char>) -> nat
    decreases s.len(),
{
    if s.len() > 0 && is_white_space(s.last()) {
        1 + trailing_space(s.drop_last())
    } else {
        0
    }
}

/// `s` without its leading and trailing white space.
pub open spec fn trimmed(s: Seq<char>) -> Seq<char> {
    let a = leading_space(s);
    if a == s.len() {
        Seq::empty()
    } else {
        s.subrange(a as int, s.len() - trailing_space(s))
    }
}

/// Calls `str::trim`, which the standard library documents as removing the
/// leading and trailing White_Space characters.
#[verifier::external_body]
pub(crate) fn trim_str(s: &str) -> (t: &str)
    ensures
        t@ == trimmed(s@),
{
    s.trim()
}

/// The digit character for `d`.
pub open spec fn digit_char(d: nat) -> char {
    if d == 0 { '0' }
    else if d == 1 { '1' }
    else if d == 2 { '2' }
    else if d == 3 { '3' }
    else if d == 4 { '4' }
    else if d == 5 { '5' }
    else if d == 6 { '6' }
    else if d == 7 { '7' }
    else if d == 8 { '8' }
    else { '9' }
}

/// The decimal notation of `n`, without leading zeros.
pub open spec fn decimal(n: nat) -> Seq<char>
    decreases n,
{
    if n < 10 {
        seq![digit_char(n)]
    } else {
        decimal(n / 10).push(digit_char(n % 10))
    }
}

/// The decimal notation of `n` padded with a zero to at least two digits.
pub open spec fn two_digits(n: nat) -> Seq<char> {
    if n < 10 {
        seq!['0', digit_char(n)]
    } else {
        decimal(n)
    }
}

fn digit(d: u64) -> (c: char)
    requires
        d < 10,
    ensures
        c == digit_char(d as nat),
{
    match d {
        0 => '0',
        1 => '1',
        2 => '2',
        3 => '3',
        4 => '4',
        5 => '5',
        6 => '6',
        7 => '7',
        8 => '8',
        _ => '9',
    }
}

/// Appends the decimal notation of `n` to `s`.
pub fn push_decimal(s: &mut String, n: u64)
    ensures
        final(s)@ == old(s)@ + decimal(n as nat),
    decreases n,
{
    if n >= 10 {
        push_decimal(s, n / 10);
    }
    s.push(digit(n % 10));
    proof {
        if n < 10 {
            assert(decimal(n as nat) == seq![digit_char(n as nat)]);
        }
    }
}

/// Appends `n` in decimal, padded with a zero to at least two digits.
pub fn push_two_digits(s: &mut String, n: u64)
    ensures
        final(s)@ == old(s)@ + two_digits(n as nat),
{
    if n < 10 {
        s.push('0');
    }
    push_decimal(s, n);
    proof {
        if n < 10 {
            assert(decimal(n as nat) == seq![digit_char(n as nat)]);
        }
    }
}

/// `h:mm:ss` when the span reaches an hour, else `m:ss`, for `secs` seconds.
pub open spec fn clock_text(secs: nat) -> Seq<char> {
    let hours = secs / 3600;
    let minutes = (secs % 3600) / 60;
    let seconds = secs % 60;
    if hours > 0 {
        decimal(hours) + seq![':'] + two_digits(minutes) + seq![':'] + two_digits(seconds)
    } else {
        decimal(minutes) + seq![':'] + two_digits(seconds)
    }
}

/// The span as a clock reading: `h:mm:ss` when it reaches an hour, else
/// `m:ss` (whole seconds).
pub fn format_duration(d: crate::time::Duration) -> (text: String)
    ensures
        text@ == clock_text(d@ / 1_000_000_000),
{
    let total_secs = d.as_secs();
    let hours = total_secs / 3600;
    let minutes = (total_secs % 3600) / 60;
    let seconds = total_secs % 60;
    let mut s = String::new();
    if hours > 0 {
        push_decimal(&mut s, hours);
        s.push(':');
        push_two_digits(&mut s, minutes);
        s.push(':');
        push_two_digits(&mut s, seconds);
    } else {
        push_decimal(&mut s, minutes);
        s.push(':');
        push_two_digits(&mut s, seconds);
    }
    proof {
        assert(s@ =~= clock_text(total_secs as nat));
    }
    s
}

/// `c` with an ASCII capital letter made small.
pub open spec fn ascii_lower(c: char) -> char {
    if 'A' <= c && c <= 'Z' {
        ((c as int) + 32) as char
    } else {
        c
    }
}

/// Calls `char::to_ascii_lowercase`, which maps `A`..=`Z` to `a`..=`z` and
/// leaves every other character as it is.
#[verifier::external_body]
pub(crate) fn char_to_ascii_lower(c: char) -> (l: char)
    ensures
        l == ascii_lower(c),
{
    c.to_ascii_lowercase()
}

/// `s` is one or more decimal digits.
pub open spec fn is_digit_text(s: Seq<char>) -> bool {
    s.len() > 0 && forall|i: int| 0 <= i < s.len() ==> '0' <= #[trigger] s[i] && s[i] <= '9'
}

proof fn lemma_digit_char(d: nat)
    requires
        d < 10,
    ensures
        '0' <= digit_char(d) <= '9',
        (digit_char(d) as int) - ('0' as int) == d,
{
}

/// The decimal notation of `n` is digits without a leading zero, whose value
/// is `n`.
proof fn lemma_decimal(n: nat)
    ensures
        is_digit_text(decimal(n)),
        digits_value(decimal(n)) == n,
        n > 0 ==> decimal(n)[0] != '0',
        n < 10 ==> decimal(n).len() == 1,
        n >= 10 ==> decimal(n).len() >= 2,
    decreases n,
{
    if n < 10 {
        lemma_digit_char(n);
        let s = decimal(n);
        assert(s.drop_last() =~= Seq::<char>::empty());
        assert(digits_value(Seq::<char>::empty()) == 0);
    } else {
        lemma_decimal(n / 10);
        lemma_digit_char(n % 10);
        let p = decimal(n / 10);
        let s = decimal(n);
        assert(s == p.push(digit_char(n % 10)));
        assert(s.drop_last() =~= p);
        assert(s[0] == p[0]);
        assert forall|i: int| 0 <= i < s.len() implies '0' <= #[trigger] s[i] && s[i] <= '9' by {
            if i < p.len() {
                assert(s[i] == p[i]);
            }
        }
        assert(n == (n / 10) * 10 + n % 10);
    }
}

/// Two-digit notation of `n` below 100: two digits whose value is `n`.
proof fn lemma_two_digits(n: nat)
    requires
        n < 100,
    ensures
        is_digit_text(two_digits(n)),
        two_digits(n).len() == 2,
        digits_value(two_digits(n)) == n,
{
    if n < 10 {
        lemma_digit_char(n);
        let s = two_digits(n);
        assert(s.drop_last() =~= seq!['0']);
        assert(seq!['0'].drop_last() =~= Seq::<char>::empty());
        assert(digits_value(Seq::<char>::empty()) == 0);
        assert(seq!['0'].last() == '0');
        assert(digits_value(seq!['0']) == 0);
    } else {
        lemma_decimal(n);
        lemma_decimal(n / 10);
        assert(decimal(n) == decimal(n / 10).push(digit_char(n % 10)));
    }
}

/// The shape of a clock reading of `secs` seconds: below an hour it is
/// `m:ss`, two parts; from an hour on it is `h:mm:ss`, three parts. The first
/// part is digits without a leading zero (unless it is `0`), every later part
/// is exactly two digits below 60, no part holds a `:`, and hours × 3600 +
/// minutes × 60 + seconds is `secs`.
pub proof fn law_clock_text_shape(secs: nat)
    ensures
        ({
            let h = secs / 3600;
            let m = (secs % 3600) / 60;
            let x = secs % 60;
            &&& h * 3600 + m * 60 + x == secs
            &&& m < 60
            &&& x < 60
            &&& is_digit_text(two_digits(m)) && two_digits(m).len() == 2 && digits_value(two_digits(m)) == m
            &&& is_digit_text(two_digits(x)) && two_digits(x).len() == 2 && digits_value(two_digits(x)) == x
            &&& h == 0 ==> {
                &&& clock_text(secs) == decimal(m) + seq![':'] + two_digits(x)
                &&& is_digit_text(decimal(m)) && digits_value(decimal(m)) == m
                &&& (m > 0 ==> decimal(m)[0] != '0')
            }
            &&& h > 0 ==> {
                &&& clock_text(secs) == decimal(h) + seq![':'] + two_digits(m) + seq![':'] + two_digits(x)
                &&& is_digit_text(decimal(h)) && digits_value(decimal(h)) == h
                &&& decimal(h)[0] != '0'
            }
        }),
{
    let h = secs / 3600;
    let m = (secs % 3600) / 60;
    let x = secs % 60;
    assert(secs == h * 3600 + secs % 3600);
    assert(secs % 3600 == m * 60 + (secs % 3600) % 60);
    assert((secs % 3600) % 60 == secs % 60) by {
        vstd::arithmetic::div_mod::lemma_mod_mod(secs as int, 60, 60);
        assert(3600int == 60 * 60);
    }
    lemma_two_digits(m);
    lemma_two_digits(x);
    lemma_decimal(m);
    lemma_decimal(h);
}

/// `parts` joined with `:` between them.
pub open spec fn joined_by_colons(parts: Seq<Seq<char>>) -> Seq<char>
    decreases parts.len(),
{
    if parts.len() == 0 {
        Seq::empty()
    } else if parts.len() == 1 {
        parts[0]
    } else {
        joined_by_colons(parts.drop_last()) + seq![':'] + parts.last()
    }
}

/// The text of `format_duration(d)` split at its colons, with `s` the whole
/// seconds of `d` (the rest is ignored): `[m, ss]` below an hour, else
/// `[h, mm, ss]`. No part holds a colon; every part is decimal digits; the
/// first part has no leading zero (unless it is `0`) and a first part of
/// hours is at least 1; every later part is exactly two digits below 60; and
/// the values satisfy h × 3600 + m × 60 + ss = s, with h = 0 in the
/// two-part case.
pub proof fn law_format_duration_splits(d: crate::time::Duration)
    ensures
        ({
            let s = d@ / 1_000_000_000;
            let parts = clock_parts(s);
            &&& clock_text(s) == joined_by_colons(parts)
            &&& parts.len() == if s < 3600 { 2nat } else { 3nat }
            &&& forall|i: int| 0 <= i < parts.len() ==> is_digit_text(#[trigger] parts[i]) && !parts[i].contains(':')
            &&& (parts[0].len() > 1 ==> parts[0][0] != '0')
            &&& forall|i: int| 1 <= i < parts.len() ==> (#[trigger] parts[i]).len() == 2 && digits_value(parts[i]) < 60
            &&& if s < 3600 {
                digits_value(parts[0]) < 60 && digits_value(parts[0]) * 60 + digits_value(parts[1]) == s
            } else {
                digits_value(parts[0]) >= 1
                    && digits_value(parts[0]) * 3600 + digits_value(parts[1]) * 60 + digits_value(parts[2]) == s
            }
        }),
{
    let s = d@ / 1_000_000_000;
    law_clock_text_shape(s);
    let parts = clock_parts(s);
    let h = s / 3600;
    let m = (s % 3600) / 60;
    let x = s % 60;
    assert(h == 0 <==> s < 3600);
    assert forall|i: int| 0 <= i < parts.len() implies is_digit_text(#[trigger] parts[i]) && !parts[i].contains(':') by {
        if parts[i].contains(':') {
            let j = choose|j: int| 0 <= j < parts[i].len() && parts[i][j] == ':';
            assert('0' <= parts[i][j] && parts[i][j] <= '9');
        }
    }
    if h == 0 {
        assert(parts.drop_last() =~= seq![decimal(m)]);
        assert(joined_by_colons(parts.drop_last()) == decimal(m));
        if decimal(m).len() > 1 {
            assert(m >= 10) by {
                if m < 10 { lemma_decimal(m); }
            }
        }
    } else {
        assert(parts.drop_last() =~= seq![decimal(h), two_digits(m)]);
        assert(parts.drop_last().drop_last() =~= seq![decimal(h)]);
        assert(joined_by_colons(parts.drop_last().drop_last()) == decimal(h));
        assert(joined_by_colons(parts.drop_last()) == decimal(h) + seq![':'] + two_digits(m));
    }
}

/// The parts of the clock reading of `secs` seconds, see `clock_text`.
pub open spec fn clock_parts(secs: nat) -> Seq<Seq<char>> {
    let hours = secs / 3600;
    let minutes = (secs % 3600) / 60;
    let seconds = secs % 60;
    if hours > 0 {
        seq![decimal(hours), two_digits(minutes), two_digits(seconds)]
    } else {
        seq![decimal(minutes), two_digits(seconds)]
    }
}

} // verus!
