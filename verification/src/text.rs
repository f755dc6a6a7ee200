//! Decimal encoding and decoding of unsigned integers, and the small string
//! operations (prefix test, equality, field splitting) that the protocol
//! logic is written with.

use vstd::prelude::*;

verus! {

/// The character of a decimal digit.
pub open spec fn digit_char(d: nat) -> char {
    if d == 0 { '0' }
    else if d == 1 { '1' }
    else if d == 2 { '2' }
    else if d == 3 { '3' }
    else if d == 4 { '4' }
    else if d == 5 { '5' }
    else if d == 6 { '6' }
    else if d == 7 { '7' }
    else if d == 8 { '8' }
    else { '9' }
}

/// Whether a character is an ASCII decimal digit.
pub open spec fn is_digit(c: char) -> bool {
    '0' <= c && c <= '9'
}

/// The value of a decimal digit character.
pub open spec fn digit_value(c: char) -> nat {
    ((c as int) - ('0' as int)) as nat
}

/// The shortest decimal representation of `n`, without sign or leading zeros.
pub open spec fn decimal(n: nat) -> Seq<char>
    decreases n,
{
    if n < 10 {
        seq![digit_char(n)]
    } else {
        decimal(n / 10).push(digit_char(n % 10))
    }
}

pub proof fn lemma_digit_roundtrip(d: nat)
    requires
        d < 10,
    ensures
        is_digit(digit_char(d)),
        digit_value(digit_char(d)) == d,
{
}

fn digit_str(d: u64) -> (s: &'static str)
    requires
        d < 10,
    ensures
        s@ == seq![digit_char(d as nat)],
{
    if d == 0 {
        proof { reveal_strlit("0"); }
        "0"
    } else if d == 1 {
        proof { reveal_strlit("1"); }
        "1"
    } else if d == 2 {
        proof { reveal_strlit("2"); }
        "2"
    } else if d == 3 {
        proof { reveal_strlit("3"); }
        "3"
    } else if d == 4 {
        proof { reveal_strlit("4"); }
        "4"
    } else if d == 5 {
        proof { reveal_strlit("5"); }
        "5"
    } else if d == 6 {
        proof { reveal_strlit("6"); }
        "6"
    } else if d == 7 {
        proof { reveal_strlit("7"); }
        "7"
    } else if d == 8 {
        proof { reveal_strlit("8"); }
        "8"
    } else {
        proof { reveal_strlit("9"); }
        "9"
    }
}

/// Writes `n` in decimal, as `format!("{}", n)` does.
pub fn decimal_string(n: u64) -> (s: String)
    ensures
        s@ == decimal(n as nat),
    decreases n,
{
    if n < 10 {
        String::from_str(digit_str(n))
    } else {
        let mut s = decimal_string(n / 10);
        s.append(digit_str(n % 10));
        s
    }
}


/// Whether every character of `s` is a decimal digit.
pub open spec fn all_digits(s: Seq<char>) -> bool {
    forall|i: int| 0 <= i < s.len() ==> is_digit(#[trigger] s[i])
}

/// The number that a string of decimal digits denotes (leading zeros allowed).
pub open spec fn digits_value(s: Seq<char>) -> nat
    decreases s.len(),
{
    if s.len() == 0 {
        0
    } else {
        digits_value(s.drop_last()) * 10 + digit_value(s.last())
    }
}

/// The digits of an unsigned number in text: an optional leading `+` is dropped.
pub open spec fn unsigned_body(s: Seq<char>) -> Seq<char> {
    if s.len() > 0 && s[0] == '+' {
        s.drop_first()
    } else {
        s
    }
}

/// How std's `FromStr` for an unsigned integer type whose largest value is
/// `max` reads `s`: an optional `+`, then one or more decimal digits, and a
/// value no larger than `max`; anything else is an error (`None`).
pub open spec fn parse_unsigned(s: Seq<char>, max: nat) -> Option<nat> {
    let body = unsigned_body(s);
    if body.len() > 0 && all_digits(body) && digits_value(body) <= max {
        Some(digits_value(body))
    } else {
        None
    }
}

/// Reads an unsigned decimal number no larger than `max` from `s`, with the
/// rules of std's `str::parse` for unsigned integers.
pub fn parse_decimal(s: &str, max: u64) -> (r: Option<u64>)
    ensures
        match r {
            Some(v) => parse_unsigned(s@, max as nat) == Some(v as nat),
            None => parse_unsigned(s@, max as nat) is None,
        },
{
    let n = s.unicode_len();
    let mut start: usize = 0;
    if n > 0 && s.get_char(0) == '+' {
        start = 1;
    }
    let ghost body = unsigned_body(s@);
    assert(body =~= s@.subrange(start as int, n as int));
    if start == n {
        return None;
    }
    let mut i: usize = start;
    let mut acc: u64 = 0;
    let mut over: bool = false;
    while i < n
        invariant
            n == s@.len(),
            start <= i <= n,
            start < n,
            body == unsigned_body(s@),
            body == s@.subrange(start as int, n as int),
            all_digits(s@.subrange(start as int, i as int)),
            !over ==> acc as nat == digits_value(s@.subrange(start as int, i as int)) && acc <= max,
            over ==> digits_value(s@.subrange(start as int, i as int)) > max,
        decreases n - i,
    {
        let c = s.get_char(i);
        if !('0' <= c && c <= '9') {
            assert(body[i - start] == c);
            assert(!is_digit(body[i - start]));
            return None;
        }
        let d: u64 = (c as u32 - '0' as u32) as u64;
        let ghost prev = s@.subrange(start as int, i as int);
        let ghost next = s@.subrange(start as int, i + 1);
        assert(next.drop_last() =~= prev);
        assert(next.last() == c);
        assert(digit_value(c) == d);
        if !over {
            match acc.checked_mul(10) {
                Some(m) => match m.checked_add(d) {
                    Some(v) => {
                        if v <= max {
                            acc = v;
                        } else {
                            over = true;
                        }
                    },
                    None => {
                        over = true;
                    },
                },
                None => {
                    over = true;
                },
            }
        }
        assert(all_digits(next));
        i = i + 1;
    }
    assert(s@.subrange(start as int, n as int) == body);
    if over {
        None
    } else {
        Some(acc)
    }
}


/// `prefix` begins `s`.
pub open spec fn has_prefix(s: Seq<char>, prefix: Seq<char>) -> bool {
    prefix.len() <= s.len() && s.subrange(0, prefix.len() as int) == prefix
}

/// Whether `s` begins with `prefix`, as `str::starts_with` with a string pattern.
pub fn starts_with(s: &str, prefix: &str) -> (r: bool)
    ensures
        r == has_prefix(s@, prefix@),
{
    let n = s.unicode_len();
    let p = prefix.unicode_len();
    if p > n {
        return false;
    }
    let mut i: usize = 0;
    while i < p
        invariant
            n == s@.len(),
            p == prefix@.len(),
            p <= n,
            i <= p,
            forall|k: int| 0 <= k < i ==> s@[k] == prefix@[k],
        decreases p - i,
    {
        if s.get_char(i) != prefix.get_char(i) {
            assert(s@.subrange(0, p as int)[i as int] != prefix@[i as int]);
            return false;
        }
        i = i + 1;
    }
    assert(s@.subrange(0, p as int) =~= prefix@);
    true
}

/// Whether two strings hold the same characters.
pub fn same_text(a: &str, b: &str) -> (r: bool)
    ensures
        r == (a@ == b@),
{
    let n = a.unicode_len();
    if n != b.unicode_len() {
        return false;
    }
    let mut i: usize = 0;
    while i < n
        invariant
            n == a@.len(),
            n == b@.len(),
            i <= n,
            forall|k: int| 0 <= k < i ==> a@[k] == b@[k],
        decreases n - i,
    {
        if a.get_char(i) != b.get_char(i) {
            return false;
        }
        i = i + 1;
    }
    assert(a@ =~= b@);
    true
}

/// The index of the first `sep` in `s` at or after `from`, or the length of
/// `s` where there is none: where the field that starts at `from` ends when
/// `s` is split on `sep`.
pub open spec fn segment_end(s: Seq<char>, sep: char, from: int) -> int
    decreases s.len() - from,
{
    if from >= s.len() {
        s.len() as int
    } else if s[from] == sep {
        from
    } else {
        segment_end(s, sep, from + 1)
    }
}

pub proof fn lemma_segment_end(s: Seq<char>, sep: char, from: int)
    requires
        0 <= from <= s.len(),
    ensures
        from <= segment_end(s, sep, from) <= s.len(),
        segment_end(s, sep, from) < s.len() ==> s[segment_end(s, sep, from)] == sep,
        forall|k: int| from <= k < segment_end(s, sep, from) ==> s[k] != sep,
    decreases s.len() - from,
{
    if from < s.len() && s[from] != sep {
        lemma_segment_end(s, sep, from + 1);
    }
}

/// The field of `s` that starts at `from` and runs to the next `sep`.
pub open spec fn field_at(s: Seq<char>, sep: char, from: int) -> Seq<char> {
    s.subrange(from, segment_end(s, sep, from))
}

/// Finds where the field of `s` that starts at `from` ends.
pub fn find_separator(s: &str, sep: char, from: usize) -> (e: usize)
    requires
        from <= s@.len(),
    ensures
        e == segment_end(s@, sep, from as int),
{
    let n = s.unicode_len();
    let mut i: usize = from;
    while i < n
        invariant
            n == s@.len(),
            from <= i <= n,
            segment_end(s@, sep, from as int) == segment_end(s@, sep, i as int),
        decreases n - i,
    {
        if s.get_char(i) == sep {
            return i;
        }
        i = i + 1;
    }
    i
}


/// A decimal representation is a nonempty string of digits that denotes `n`.
pub proof fn lemma_decimal(n: nat)
    ensures
        decimal(n).len() >= 1,
        all_digits(decimal(n)),
        digits_value(decimal(n)) == n,
    decreases n,
{
    let s = decimal(n);
    if n < 10 {
        lemma_digit_roundtrip(n);
        assert(s.drop_last() =~= Seq::<char>::empty());
        assert(digits_value(s) == digits_value(s.drop_last()) * 10 + digit_value(s.last()));
    } else {
        lemma_decimal(n / 10);
        lemma_digit_roundtrip(n % 10);
        assert(s.drop_last() =~= decimal(n / 10));
        assert(s.last() == digit_char(n % 10));
        assert((n / 10) * 10 + n % 10 == n) by (nonlinear_arith);
        assert(digits_value(s) == digits_value(decimal(n / 10)) * 10 + digit_value(digit_char(n % 10)));
        assert forall|i: int| 0 <= i < s.len() implies is_digit(#[trigger] s[i]) by {
            if i < s.len() - 1 {
                assert(s[i] == decimal(n / 10)[i]);
            }
        }
    }
}

/// Reading back the decimal form of `n` gives `n`.
pub proof fn lemma_parse_decimal(n: nat, max: nat)
    requires
        n <= max,
    ensures
        parse_unsigned(decimal(n), max) == Some(n),
{
    lemma_decimal(n);
    assert(is_digit(decimal(n)[0]));
    assert(unsigned_body(decimal(n)) == decimal(n));
}

/// Two numbers with the same decimal form are equal.
pub proof fn lemma_decimal_injective(n: nat, m: nat)
    requires
        decimal(n) == decimal(m),
    ensures
        n == m,
{
    lemma_decimal(n);
    lemma_decimal(m);
}


/// The field that starts at `from` ends at `e` when no separator lies in
/// between and `e` is a separator or the end.
pub proof fn lemma_segment_end_exact(s: Seq<char>, sep: char, from: int, e: int)
    requires
        0 <= from <= e <= s.len(),
        forall|k: int| from <= k < e ==> s[k] != sep,
        e < s.len() ==> s[e] == sep,
    ensures
        segment_end(s, sep, from) == e,
    decreases e - from,
{
    if from < e {
        lemma_segment_end_exact(s, sep, from + 1, e);
    }
}

/// A decimal form holds no character other than digits.
pub proof fn lemma_decimal_avoids(n: nat, c: char)
    requires
        !is_digit(c),
    ensures
        forall|k: int| 0 <= k < decimal(n).len() ==> decimal(n)[k] != c,
{
    lemma_decimal(n);
    assert forall|k: int| 0 <= k < decimal(n).len() implies decimal(n)[k] != c by {
        assert(is_digit(decimal(n)[k]));
    }
}

/// A decimal form holds no dot.
pub proof fn lemma_decimal_no_dot(n: nat)
    ensures
        forall|k: int| 0 <= k < decimal(n).len() ==> decimal(n)[k] != '.',
{
    lemma_decimal(n);
    assert forall|k: int| 0 <= k < decimal(n).len() implies decimal(n)[k] != '.' by {
        assert(is_digit(decimal(n)[k]));
    }
}

/// A text that starts with the decimal form of `a` and a dot begins with
/// the decimal form of `b` and a dot exactly when `a == b`.
pub proof fn lemma_number_prefix(a: nat, rest: Seq<char>, b: nat)
    ensures
        has_prefix(decimal(a) + seq!['.'] + rest, decimal(b) + seq!['.']) <==> a == b,
{
    let da = decimal(a);
    let db = decimal(b);
    let q = da + seq!['.'] + rest;
    let p = db + seq!['.'];
    lemma_decimal(a);
    lemma_decimal(b);
    if a == b {
        assert(q.subrange(0, p.len() as int) =~= p);
    } else if has_prefix(q, p) {
        let la = da.len() as int;
        let lb = db.len() as int;
        assert(q.subrange(0, p.len() as int) == p);
        if lb < la {
            assert(q.subrange(0, p.len() as int)[lb] == q[lb]);
            assert(is_digit(da[lb]));
        } else if lb > la {
            assert(q.subrange(0, p.len() as int)[la] == q[la]);
            assert(is_digit(db[la]));
        } else {
            assert forall|k: int| 0 <= k < la implies da[k] == db[k] by {
                assert(q.subrange(0, p.len() as int)[k] == q[k]);
            }
            assert(da =~= db);
            lemma_decimal_injective(a, b);
        }
    }
}

/// The same for two leading numbers: a text that starts with `a.b.`
/// begins with `x.y.` exactly when `a == x` and `b == y`.
pub proof fn lemma_two_number_prefix(a: nat, b: nat, rest: Seq<char>, x: nat, y: nat)
    ensures
        has_prefix(
            decimal(a) + seq!['.'] + decimal(b) + seq!['.'] + rest,
            decimal(x) + seq!['.'] + decimal(y) + seq!['.'],
        ) <==> (a == x && b == y),
{
    let q = decimal(a) + seq!['.'] + decimal(b) + seq!['.'] + rest;
    let p = decimal(x) + seq!['.'] + decimal(y) + seq!['.'];
    let tail = decimal(b) + seq!['.'] + rest;
    let p1 = decimal(x) + seq!['.'];
    let p2 = decimal(y) + seq!['.'];
    assert(q =~= decimal(a) + seq!['.'] + tail);
    assert(p =~= p1 + p2);
    lemma_number_prefix(a, tail, x);
    lemma_number_prefix(b, rest, y);
    if has_prefix(q, p) {
        assert(q.subrange(0, p1.len() as int) =~= p.subrange(0, p1.len() as int));
        assert(p.subrange(0, p1.len() as int) =~= p1);
        assert(a == x);
        let la: int = decimal(a).len() as int + 1;
        assert(tail.subrange(0, p2.len() as int) =~= q.subrange(la, la + p2.len()));
        assert(q.subrange(la, la + p2.len()) =~= p.subrange(la, la + p2.len()));
        assert(p.subrange(la, la + p2.len()) =~= p2);
    }
    if a == x && b == y {
        assert(q.subrange(0, p.len() as int) =~= p);
    }
}

/// The decimal form of a two-digit number.
pub proof fn lemma_decimal_two_digits(n: nat)
    requires
        10 <= n < 100,
    ensures
        decimal(n) == seq![digit_char(n / 10), digit_char(n % 10)],
{
    assert(n / 10 < 10);
    assert(decimal(n / 10) == seq![digit_char(n / 10)]);
    assert(decimal(n) == decimal(n / 10).push(digit_char(n % 10)));
    assert(decimal(n) =~= seq![digit_char(n / 10), digit_char(n % 10)]);
}

/// The decimal form of a three-digit number.
pub proof fn lemma_decimal_three_digits(n: nat)
    requires
        100 <= n < 1000,
    ensures
        decimal(n) == seq![digit_char(n / 100), digit_char((n / 10) % 10), digit_char(n % 10)],
{
    assert((n / 10) / 10 == n / 100);
    lemma_decimal_two_digits(n / 10);
    assert(decimal(n) == decimal(n / 10).push(digit_char(n % 10)));
    assert(decimal(n) =~= seq![digit_char(n / 100), digit_char((n / 10) % 10), digit_char(n % 10)]);
}

} // verus!
