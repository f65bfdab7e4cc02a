//! Text framing used by the envelope codec: length-prefixed named fields.
//!
//! A field is written as `<len(name)>:<name><len(value)>:<value>` with the
//! lengths in decimal, so any character may appear in a value and no escaping
//! is ever needed. The parsers here are total and are proved to invert the
//! writers exactly.
use vstd::prelude::*;
use vstd::string::*;

verus! {

// ---------------------------------------------------------------------------
// Decimal digits
// ---------------------------------------------------------------------------

pub open spec fn digit_char(d: int) -> char {
    if d == 0 {
        '0'
    } else if d == 1 {
        '1'
    } else if d == 2 {
        '2'
    } else if d == 3 {
        '3'
    } else if d == 4 {
        '4'
    } else if d == 5 {
        '5'
    } else if d == 6 {
        '6'
    } else if d == 7 {
        '7'
    } else if d == 8 {
        '8'
    } else {
        '9'
    }
}

pub open spec fn digit_val(c: char) -> int {
    if c == '0' {
        0
    } else if c == '1' {
        1
    } else if c == '2' {
        2
    } else if c == '3' {
        3
    } else if c == '4' {
        4
    } else if c == '5' {
        5
    } else if c == '6' {
        6
    } else if c == '7' {
        7
    } else if c == '8' {
        8
    } else if c == '9' {
        9
    } else {
        -1
    }
}

pub open spec fn is_digit(c: char) -> bool {
    digit_val(c) >= 0
}

/// Decimal representation of a natural number, most significant digit first.
pub open spec fn dec_rep(n: nat) -> Seq<char>
    decreases n,
{
    if n < 10 {
        seq![digit_char(n as int)]
    } else {
        dec_rep((n / 10) as nat).push(digit_char((n % 10) as int))
    }
}

/// Decimal representation of an integer: a `-` sign before the magnitude.
pub open spec fn int_rep(v: int) -> Seq<char> {
    if v < 0 {
        seq!['-'] + dec_rep((-v) as nat)
    } else {
        dec_rep(v as nat)
    }
}

pub open spec fn all_digits(s: Seq<char>) -> bool {
    forall|i: int| 0 <= i < s.len() ==> is_digit(#[trigger] s[i])
}

/// Value of a sequence of decimal digits.
pub open spec fn digits_val(s: Seq<char>) -> int
    decreases s.len(),
{
    if s.len() == 0 {
        0
    } else {
        digits_val(s.drop_last()) * 10 + digit_val(s.last())
    }
}

pub proof fn lemma_dec_rep_digits(n: nat)
    ensures
        all_digits(dec_rep(n)),
        dec_rep(n).len() >= 1,
    decreases n,
{
    if n >= 10 {
        lemma_dec_rep_digits((n / 10) as nat);
    }
}

pub proof fn lemma_digits_val_dec_rep(n: nat)
    ensures
        digits_val(dec_rep(n)) == n,
    decreases n,
{
    if n < 10 {
        assert(dec_rep(n).drop_last() =~= Seq::<char>::empty());
        assert(digit_val(digit_char(n as int)) == n);
        assert(digits_val(dec_rep(n)) == digits_val(Seq::<char>::empty()) * 10 + digit_val(
            digit_char(n as int),
        ));
    } else {
        lemma_digits_val_dec_rep((n / 10) as nat);
        let s = dec_rep(n);
        assert(s == dec_rep((n / 10) as nat).push(digit_char((n % 10) as int)));
        assert(s.last() == digit_char((n % 10) as int));
        assert(s.drop_last() =~= dec_rep((n / 10) as nat));
        assert(digits_val(s) == digits_val(dec_rep((n / 10) as nat)) * 10 + digit_val(
            digit_char((n % 10) as int),
        ));
        assert(digit_val(digit_char((n % 10) as int)) == n % 10);
        vstd::arithmetic::div_mod::lemma_fundamental_div_mod(n as int, 10);
        assert(n == 10 * ((n as int) / 10) + (n as int) % 10);
    }
}

pub proof fn lemma_digits_val_nonneg(s: Seq<char>)
    requires
        all_digits(s),
    ensures
        digits_val(s) >= 0,
    decreases s.len(),
{
    if s.len() > 0 {
        assert(all_digits(s.drop_last()));
        lemma_digits_val_nonneg(s.drop_last());
    }
}

/// A digit sequence is worth at least any of its prefixes.
pub proof fn lemma_digits_val_prefix(s: Seq<char>, p: int)
    requires
        all_digits(s),
        0 <= p <= s.len(),
    ensures
        digits_val(s) >= digits_val(s.subrange(0, p)),
    decreases s.len() - p,
{
    if p == s.len() {
        assert(s.subrange(0, p) =~= s);
    } else {
        lemma_digits_val_prefix(s, p + 1);
        let t = s.subrange(0, p + 1);
        assert(t.drop_last() =~= s.subrange(0, p));
        assert(all_digits(s.subrange(0, p)));
        lemma_digits_val_nonneg(s.subrange(0, p));
    }
}

// ---------------------------------------------------------------------------
// Digit runs: the maximal stretch of digits from a position
// ---------------------------------------------------------------------------

pub open spec fn digit_run(s: Seq<char>, i: int) -> int
    decreases s.len() - i when 0 <= i <= s.len()
{
    if i < s.len() && is_digit(s[i]) {
        1 + digit_run(s, i + 1)
    } else {
        0
    }
}

/// When positions `i..i+p` hold digits and the run then stops, it has length `p`.
pub proof fn lemma_digit_run_exact(s: Seq<char>, i: int, p: int)
    requires
        0 <= i,
        0 <= p,
        i + p <= s.len(),
        forall|m: int| i <= m < i + p ==> is_digit(#[trigger] s[m]),
        i + p == s.len() || !is_digit(s[i + p]),
    ensures
        digit_run(s, i) == p,
    decreases p,
{
    if p > 0 {
        lemma_digit_run_exact(s, i + 1, p - 1);
    }
}

// ---------------------------------------------------------------------------
// Executable digit helpers
// ---------------------------------------------------------------------------

pub fn is_digit_exec(c: char) -> (r: bool)
    ensures
        r == is_digit(c),
{
    c == '0' || c == '1' || c == '2' || c == '3' || c == '4' || c == '5' || c == '6' || c == '7'
        || c == '8' || c == '9'
}

pub fn digit_val_exec(c: char) -> (d: u8)
    requires
        is_digit(c),
    ensures
        d as int == digit_val(c),
{
    if c == '0' {
        0
    } else if c == '1' {
        1
    } else if c == '2' {
        2
    } else if c == '3' {
        3
    } else if c == '4' {
        4
    } else if c == '5' {
        5
    } else if c == '6' {
        6
    } else if c == '7' {
        7
    } else if c == '8' {
        8
    } else {
        9
    }
}

fn digit_str(d: u8) -> (s: &'static str)
    requires
        d < 10,
    ensures
        s@ =~= seq![digit_char(d as int)],
{
    proof {
        reveal_strlit("0");
        reveal_strlit("1");
        reveal_strlit("2");
        reveal_strlit("3");
        reveal_strlit("4");
        reveal_strlit("5");
        reveal_strlit("6");
        reveal_strlit("7");
        reveal_strlit("8");
        reveal_strlit("9");
    }
    if d == 0 {
        "0"
    } else if d == 1 {
        "1"
    } else if d == 2 {
        "2"
    } else if d == 3 {
        "3"
    } else if d == 4 {
        "4"
    } else if d == 5 {
        "5"
    } else if d == 6 {
        "6"
    } else if d == 7 {
        "7"
    } else if d == 8 {
        "8"
    } else {
        "9"
    }
}

/// Writes a natural number in decimal.
pub fn u128_to_dec(n: u128) -> (s: String)
    ensures
        s@ == dec_rep(n as nat),
    decreases n,
{
    if n < 10 {
        String::from_str(digit_str(n as u8))
    } else {
        let mut s = u128_to_dec(n / 10);
        s.append(digit_str((n % 10) as u8));
        proof {
            assert(s@ =~= dec_rep((n / 10) as nat).push(digit_char((n % 10) as int)));
        }
        s
    }
}

/// Writes a signed number in decimal, with a leading `-` when negative.
pub fn i64_to_dec(v: i64) -> (s: String)
    ensures
        s@ == int_rep(v as int),
{
    if v >= 0 {
        u128_to_dec(v as u128)
    } else {
        let mag: u128 = (-(v as i128)) as u128;
        let mut s = String::from_str("-");
        s.append(u128_to_dec(mag).as_str());
        proof {
            reveal_strlit("-");
            assert(s@ =~= seq!['-'] + dec_rep((-(v as int)) as nat));
        }
        s
    }
}

// ---------------------------------------------------------------------------
// Parsing numbers
// ---------------------------------------------------------------------------

/// Reads the digit run at `i` as a number: its value and the position after it.
pub open spec fn parse_num_spec(s: Seq<char>, i: int) -> Option<(int, int)> {
    let k = digit_run(s, i);
    if k == 0 {
        None
    } else {
        Some((digits_val(s.subrange(i, i + k)), i + k))
    }
}

/// Parses the digit run starting at `i`; rejects an empty run and a value
/// beyond `u128::MAX`.
pub fn parse_num(s: &str, i: usize) -> (r: Option<(u128, usize)>)
    requires
        i <= s@.len() <= usize::MAX,
    ensures
        match parse_num_spec(s@, i as int) {
            None => r is None,
            Some((v, j)) => {
                if v <= u128::MAX {
                    r == Some((v as u128, j as usize))
                } else {
                    r is None
                }
            },
        },
{
    let ghost k = digit_run(s@, i as int);
    let len: usize = s.unicode_len();
    let mut j: usize = i;
    let mut acc: u128 = 0;
    loop
        invariant
            i <= j <= len,
            len == s@.len() <= usize::MAX,
            digit_run(s@, i as int) == (j - i) + digit_run(s@, j as int),
            all_digits(s@.subrange(i as int, j as int)),
            acc as int == digits_val(s@.subrange(i as int, j as int)),
        ensures
            i <= j <= len,
            digit_run(s@, i as int) == j - i,
            acc as int == digits_val(s@.subrange(i as int, j as int)),
        decreases len - j,
    {
        if j == len || !is_digit_exec(s.get_char(j)) {
            proof {
                if j < len && !is_digit(s@[j as int]) {
                    assert(digit_run(s@, j as int) == 0);
                }
            }
            break;
        }
        let d = digit_val_exec(s.get_char(j));
        proof {
            assert(digit_run(s@, j as int) == 1 + digit_run(s@, j + 1));
            assert(s@.subrange(i as int, j + 1).drop_last() =~= s@.subrange(i as int, j as int));
            assert(all_digits(s@.subrange(i as int, j + 1)));
        }
        let next = match acc.checked_mul(10) {
            Some(m) => m.checked_add(d as u128),
            None => None,
        };
        match next {
            Some(a) => {
                acc = a;
            },
            None => {
                // The run's full value can only be larger than this prefix.
                proof {
                    lemma_digit_run_digits(s@, i as int);
                    lemma_digit_run_digits(s@, j + 1);
                    let run = digit_run(s@, i as int);
                    assert(j + 1 - i <= run);
                    let t = s@.subrange(i as int, i + run);
                    assert(t.subrange(0, j + 1 - i) =~= s@.subrange(i as int, j + 1));
                    lemma_digits_val_prefix(t, j + 1 - i);
                    assert(digits_val(t) > u128::MAX);
                }
                return None;
            },
        }
        j = j + 1;
    }
    proof {
        assert(s@.subrange(i as int, i + k) =~= s@.subrange(i as int, j as int));
    }
    if j == i {
        None
    } else {
        Some((acc, j))
    }
}

/// Every position inside a digit run holds a digit.
pub proof fn lemma_digit_run_digits(s: Seq<char>, i: int)
    requires
        0 <= i <= s.len(),
    ensures
        0 <= digit_run(s, i),
        i + digit_run(s, i) <= s.len(),
        all_digits(s.subrange(i, i + digit_run(s, i))),
    decreases s.len() - i,
{
    if i < s.len() && is_digit(s[i]) {
        lemma_digit_run_digits(s, i + 1);
        let k = digit_run(s, i);
        assert(k == 1 + digit_run(s, i + 1));
        let t = s.subrange(i, i + k);
        let t1 = s.subrange(i + 1, i + 1 + digit_run(s, i + 1));
        assert forall|m: int| 0 <= m < t.len() implies is_digit(#[trigger] t[m]) by {
            if m == 0 {
                assert(t[m] == s[i]);
            } else {
                assert(is_digit(t1[m - 1]));
                assert(t1[m - 1] == s[i + m]);
                assert(t[m] == s[i + m]);
            }
        }
    }
}

// ---------------------------------------------------------------------------
// Length-prefixed values and named fields
// ---------------------------------------------------------------------------

/// Text of one length-prefixed value: `<len>:<value>`.
pub open spec fn lenval_text(v: Seq<char>) -> Seq<char> {
    dec_rep(v.len()) + seq![':'] + v
}

/// Text of one named field: the name, then the value, both length-prefixed.
pub open spec fn field_text(name: Seq<char>, value: Seq<char>) -> Seq<char> {
    lenval_text(name) + lenval_text(value)
}

/// Reads `<len>:<value>` at `i`: the value and the position after it.
pub open spec fn parse_lenval_spec(s: Seq<char>, i: int) -> Option<(Seq<char>, int)> {
    match parse_num_spec(s, i) {
        None => None,
        Some((n, j)) => {
            if n <= usize::MAX && j < s.len() && s[j] == ':' && j + 1 + n <= s.len() {
                Some((s.subrange(j + 1, j + 1 + n), j + 1 + n))
            } else {
                None
            }
        },
    }
}

pub fn parse_lenval(s: &str, i: usize) -> (r: Option<(String, usize)>)
    requires
        i <= s@.len() <= usize::MAX,
    ensures
        match parse_lenval_spec(s@, i as int) {
            None => r is None,
            Some((v, j)) => r matches Some((rv, rj)) && rv@ == v && rj == j && i < rj <= s@.len(),
        },
{
    let len: usize = s.unicode_len();
    match parse_num(s, i) {
        None => None,
        Some((n, j)) => {
            proof {
                lemma_digit_run_digits(s@, i as int);
                lemma_digits_val_nonneg(s@.subrange(i as int, i + digit_run(s@, i as int)));
            }
            if j >= len {
                return None;
            }
            if s.get_char(j) != ':' {
                return None;
            }
            if n > (len - (j + 1)) as u128 {
                return None;
            }
            let n_small: usize = n as usize;
            let value = s.substring_char(j + 1, j + 1 + n_small).to_owned();
            Some((value, j + 1 + n_small))
        },
    }
}

/// Reads one named field at `i`, insisting on the expected name.
pub open spec fn parse_named_spec(s: Seq<char>, i: int, name: Seq<char>) -> Option<(Seq<char>, int)> {
    match parse_lenval_spec(s, i) {
        None => None,
        Some((nm, j)) => {
            if nm == name {
                parse_lenval_spec(s, j)
            } else {
                None
            }
        },
    }
}

pub fn parse_named(s: &str, i: usize, name: &str) -> (r: Option<(String, usize)>)
    requires
        i <= s@.len() <= usize::MAX,
    ensures
        match parse_named_spec(s@, i as int, name@) {
            None => r is None,
            Some((v, j)) => r matches Some((rv, rj)) && rv@ == v && rj == j && i < rj <= s@.len(),
        },
{
    match parse_lenval(s, i) {
        None => None,
        Some((nm, j)) => {
            if nm == String::from_str(name) {
                parse_lenval(s, j)
            } else {
                None
            }
        },
    }
}

/// Appends one named field to the output.
pub fn append_field(out: &mut String, name: &str, value: &str)
    ensures
        final(out)@ == old(out)@ + field_text(name@, value@),
{
    let name_len = name.unicode_len();
    let value_len = value.unicode_len();
    out.append(u128_to_dec(name_len as u128).as_str());
    out.append(":");
    out.append(name);
    out.append(u128_to_dec(value_len as u128).as_str());
    out.append(":");
    out.append(value);
    proof {
        reveal_strlit(":");
        assert(final(out)@ =~= old(out)@ + field_text(name@, value@));
    }
}

// ---------------------------------------------------------------------------
// Reading a whole text as one number
// ---------------------------------------------------------------------------

/// The value of a text that consists of digits only.
pub open spec fn dec_val_of(s: Seq<char>) -> Option<int> {
    if s.len() > 0 && digit_run(s, 0) == s.len() {
        Some(digits_val(s))
    } else {
        None
    }
}

/// The value of a text that is digits only, or a `-` sign followed by digits.
pub open spec fn int_val_of(s: Seq<char>) -> Option<int> {
    if s.len() > 0 && s[0] == '-' {
        if s.len() > 1 && digit_run(s, 1) == s.len() - 1 {
            Some(-digits_val(s.subrange(1, s.len() as int)))
        } else {
            None
        }
    } else {
        dec_val_of(s)
    }
}

pub fn dec_to_u128(s: &str) -> (r: Option<u128>)
    ensures
        match dec_val_of(s@) {
            None => r is None,
            Some(v) => {
                if v <= u128::MAX {
                    r == Some(v as u128)
                } else {
                    r is None
                }
            },
        },
{
    let len: usize = s.unicode_len();
    proof {
        lemma_digit_run_digits(s@, 0);
        if digit_run(s@, 0) == s@.len() {
            assert(s@.subrange(0, digit_run(s@, 0)) =~= s@);
        }
    }
    match parse_num(s, 0) {
        None => None,
        Some((v, j)) => {
            if j == len {
                Some(v)
            } else {
                None
            }
        },
    }
}

pub fn dec_to_i64(s: &str) -> (r: Option<i64>)
    ensures
        match int_val_of(s@) {
            None => r is None,
            Some(v) => {
                if i64::MIN <= v <= i64::MAX {
                    r == Some(v as i64)
                } else {
                    r is None
                }
            },
        },
{
    let len: usize = s.unicode_len();
    if len > 0 && s.get_char(0) == '-' {
        proof {
            lemma_digit_run_digits(s@, 1);
            lemma_digits_val_nonneg(s@.subrange(1, 1 + digit_run(s@, 1)));
            if digit_run(s@, 1) == s@.len() - 1 {
                assert(s@.subrange(1, 1 + digit_run(s@, 1)) =~= s@.subrange(1, s@.len() as int));
            }
        }
        match parse_num(s, 1) {
            None => None,
            Some((v, j)) => {
                if j != len {
                    None
                } else if v > 9223372036854775808u128 {
                    // magnitude beyond -(i64::MIN)
                    None
                } else {
                    Some((-(v as i128)) as i64)
                }
            },
        }
    } else {
        proof {
            lemma_digit_run_digits(s@, 0);
            lemma_digits_val_nonneg(s@.subrange(0, digit_run(s@, 0)));
            if digit_run(s@, 0) == s@.len() {
                assert(s@.subrange(0, digit_run(s@, 0)) =~= s@);
            }
        }
        match parse_num(s, 0) {
            None => None,
            Some((v, j)) => {
                if j == len && v <= i64::MAX as u128 {
                    Some(v as i64)
                } else {
                    None
                }
            },
        }
    }
}

// ---------------------------------------------------------------------------
// The parsers invert the writers
// ---------------------------------------------------------------------------

/// Reading back the decimal text of a natural number yields the number.
pub proof fn lemma_dec_val_of_rep(n: nat)
    ensures
        dec_val_of(dec_rep(n)) == Some(n as int),
{
    lemma_dec_rep_digits(n);
    lemma_digits_val_dec_rep(n);
    lemma_digit_run_exact(dec_rep(n), 0, dec_rep(n).len() as int);
}

/// Reading back the decimal text of an integer yields the integer.
pub proof fn lemma_int_val_of_rep(v: int)
    ensures
        int_val_of(int_rep(v)) == Some(v),
{
    if v < 0 {
        let s = int_rep(v);
        let d = dec_rep((-v) as nat);
        lemma_dec_rep_digits((-v) as nat);
        lemma_digits_val_dec_rep((-v) as nat);
        assert(s[0] == '-');
        assert forall|m: int| 1 <= m < s.len() implies is_digit(#[trigger] s[m]) by {
            assert(s[m] == d[m - 1]);
        }
        lemma_digit_run_exact(s, 1, s.len() - 1);
        assert(s.subrange(1, s.len() as int) =~= d);
    } else {
        lemma_dec_val_of_rep(v as nat);
        lemma_dec_rep_digits(v as nat);
        assert(is_digit(int_rep(v)[0]));
        assert(int_rep(v)[0] != '-');
    }
}

/// Parsing right after `a` in `a + <len>:<v> + rest` yields `v` exactly.
pub proof fn lemma_parse_lenval(a: Seq<char>, v: Seq<char>, rest: Seq<char>)
    requires
        v.len() <= usize::MAX,
        a.len() + lenval_text(v).len() + rest.len() <= usize::MAX,
    ensures
        parse_lenval_spec(a + lenval_text(v) + rest, a.len() as int) == Some(
            (v, a.len() + lenval_text(v).len() as int),
        ),
{
    reveal_strlit(":");
    let s = a + lenval_text(v) + rest;
    let d = dec_rep(v.len());
    let i = a.len() as int;
    lemma_dec_rep_digits(v.len());
    lemma_digits_val_dec_rep(v.len());
    assert forall|m: int| i <= m < i + d.len() implies is_digit(#[trigger] s[m]) by {
        assert(s[m] == d[m - i]);
    }
    assert(s[i + d.len()] == ':');
    assert(!is_digit(':'));
    lemma_digit_run_exact(s, i, d.len() as int);
    assert(s.subrange(i, i + d.len()) =~= d);
    let j = i + d.len();
    assert(s.subrange(j + 1, j + 1 + v.len()) =~= v);
}

/// Parsing right after `a` in `a + field(name, v) + rest` yields `v` exactly.
pub proof fn lemma_parse_named(a: Seq<char>, name: Seq<char>, v: Seq<char>, rest: Seq<char>)
    requires
        name.len() <= usize::MAX,
        v.len() <= usize::MAX,
        a.len() + field_text(name, v).len() + rest.len() <= usize::MAX,
    ensures
        parse_named_spec(a + field_text(name, v) + rest, a.len() as int, name) == Some(
            (v, a.len() + field_text(name, v).len() as int),
        ),
{
    let s = a + field_text(name, v) + rest;
    assert(s =~= a + lenval_text(name) + (lenval_text(v) + rest));
    lemma_parse_lenval(a, name, lenval_text(v) + rest);
    let a2 = a + lenval_text(name);
    assert(s =~= a2 + lenval_text(v) + rest);
    lemma_parse_lenval(a2, v, rest);
    assert(parse_lenval_spec(s, a.len() as int) == Some((name, a2.len() as int)));
}

} // verus!
