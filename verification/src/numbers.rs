//! Decimal text of whole numbers: reading a counter kept as text, and writing
//! it back.
use vstd::prelude::*;

verus! {

/// Whether a character is an ASCII decimal digit.
pub open spec fn is_digit(c: char) -> bool {
    '0' <= c && c <= '9'
}

/// The value of a digit character.
pub open spec fn digit_value(c: char) -> int {
    (c as int) - ('0' as int)
}

/// Whether a text is one or more decimal digits.
pub open spec fn all_digits(s: Seq<char>) -> bool {
    s.len() > 0 && forall|i: int| 0 <= i < s.len() ==> is_digit(#[trigger] s[i])
}

/// The value of a run of decimal digits, most significant first.
pub open spec fn digits_value(s: Seq<char>) -> int
    decreases s.len(),
{
    if s.len() == 0 {
        0
    } else {
        digits_value(s.drop_last()) * 10 + digit_value(s.last())
    }
}

/// What reading a text as a `u32` gives: an optional `+`, then digits whose
/// value fits.
pub open spec fn u32_of_text(s: Seq<char>) -> Option<u32> {
    let d = if s.len() > 0 && s[0] == '+' {
        s.drop_first()
    } else {
        s
    };
    if all_digits(d) && digits_value(d) <= u32::MAX {
        Some(digits_value(d) as u32)
    } else {
        None
    }
}

/// What reading a text as an `i32` gives: an optional `+` or `-`, then
/// digits whose signed value fits.
pub open spec fn i32_of_text(s: Seq<char>) -> Option<i32> {
    if s.len() > 0 && s[0] == '-' {
        let d = s.drop_first();
        if all_digits(d) && digits_value(d) <= 0x8000_0000 {
            Some((-digits_value(d)) as i32)
        } else {
            None
        }
    } else {
        let d = if s.len() > 0 && s[0] == '+' {
            s.drop_first()
        } else {
            s
        };
        if all_digits(d) && digits_value(d) <= i32::MAX {
            Some(digits_value(d) as i32)
        } else {
            None
        }
    }
}

/// The character of a digit value.
pub open spec fn digit_char(d: nat) -> char {
    ((d + ('0' as nat)) as u32) as char
}

/// The shortest decimal text of a natural number.
pub open spec fn nat_text(n: nat) -> Seq<char>
    decreases n,
{
    if n < 10 {
        seq![digit_char(n)]
    } else {
        nat_text(n / 10).push(digit_char(n % 10))
    }
}

/// The decimal text of an integer, with `-` before a negative one.
pub open spec fn int_text(n: int) -> Seq<char> {
    if n < 0 {
        seq!['-'] + nat_text((-n) as nat)
    } else {
        nat_text(n as nat)
    }
}

/// The value of the digits `s[..k]` grows by one digit at a time.
proof fn lemma_digits_prefix(s: Seq<char>, k: int)
    requires
        0 <= k < s.len(),
    ensures
        digits_value(s.take(k + 1)) == digits_value(s.take(k)) * 10 + digit_value(s[k]),
{
    assert(s.take(k + 1).drop_last() =~= s.take(k));
}

/// A longer prefix of digits has a value at least as large.
proof fn lemma_digits_mono(s: Seq<char>, i: int, j: int)
    requires
        forall|k: int| 0 <= k < s.len() ==> is_digit(#[trigger] s[k]),
        0 <= i <= j <= s.len(),
    ensures
        digits_value(s.take(i)) <= digits_value(s.take(j)),
    decreases j - i,
{
    if i < j {
        lemma_digits_mono(s, i, j - 1);
        lemma_digits_prefix(s, j - 1);
        lemma_digits_nonneg(s.take(j - 1));
        assert(is_digit(s[j - 1]));
    }
}

/// Digits have a value at least zero.
proof fn lemma_digits_nonneg(s: Seq<char>)
    requires
        forall|i: int| 0 <= i < s.len() ==> is_digit(#[trigger] s[i]),
    ensures
        digits_value(s) >= 0,
    decreases s.len(),
{
    if s.len() > 0 {
        lemma_digits_nonneg(s.drop_last());
        assert(is_digit(s[s.len() - 1]));
    }
}

/// Reads the digits of `s` from `start` on, as long as the value stays at most
/// `limit`; `None` when a character is no digit, when there is none, or when
/// the value passes the limit.
fn digits_up_to(s: &str, start: usize, limit: u64) -> (r: Option<u64>)
    requires
        start <= s@.len(),
        limit <= 0x1_0000_0000,
    ensures
        match r {
            Some(v) => all_digits(s@.skip(start as int)) && v == digits_value(s@.skip(start as int))
                && v <= limit,
            None => !(all_digits(s@.skip(start as int)) && digits_value(s@.skip(start as int))
                <= limit),
        },
{
    let n = s.unicode_len();
    let ghost d = s@.skip(start as int);
    if start == n {
        return None;
    }
    let mut v: u64 = 0;
    let mut k: usize = start;
    while k < n
        invariant
            n == s@.len(),
            start < n,
            start <= k <= n,
            d == s@.skip(start as int),
            limit <= 0x1_0000_0000,
            forall|i: int| 0 <= i < k - start ==> is_digit(#[trigger] d[i]),
            v == digits_value(d.take(k - start)),
            v <= limit,
        decreases n - k,
    {
        let c = s.get_char(k);
        assert(c == d[k - start]);
        if !('0' <= c && c <= '9') {
            assert(!is_digit(d[k - start]));
            return None;
        }
        proof {
            lemma_digits_prefix(d, k - start);
        }
        let dv: u64 = (c as u64) - ('0' as u64);
        let w: u64 = v * 10 + dv;
        if w > limit {
            proof {
                if all_digits(d) {
                    lemma_digits_mono(d, k + 1 - start, d.len() as int);
                    assert(d.take(d.len() as int) =~= d);
                }
            }
            return None;
        }
        v = w;
        k = k + 1;
    }
    assert(d.take(n - start) =~= d);
    Some(v)
}

/// Reads a text as a `u32`, as `str::parse::<u32>` does.
pub fn parse_u32(s: &str) -> (r: Option<u32>)
    ensures
        r == u32_of_text(s@),
{
    let n = s.unicode_len();
    let mut start: usize = 0;
    if n > 0 && s.get_char(0) == '+' {
        start = 1;
        assert(s@.skip(1) =~= s@.drop_first());
    } else {
        assert(s@.skip(0) =~= s@);
    }
    match digits_up_to(s, start, 0xFFFF_FFFF) {
        Some(v) => Some(v as u32),
        None => None,
    }
}

/// Reads a text as an `i32`, as `str::parse::<i32>` does.
pub fn parse_i32(s: &str) -> (r: Option<i32>)
    ensures
        r == i32_of_text(s@),
{
    let n = s.unicode_len();
    if n > 0 && s.get_char(0) == '-' {
        assert(s@.skip(1) =~= s@.drop_first());
        match digits_up_to(s, 1, 0x8000_0000) {
            Some(v) => {
                let x: i64 = 0i64 - (v as i64);
                Some(x as i32)
            },
            None => None,
        }
    } else {
        let mut start: usize = 0;
        if n > 0 && s.get_char(0) == '+' {
            start = 1;
            assert(s@.skip(1) =~= s@.drop_first());
        } else {
            assert(s@.skip(0) =~= s@);
        }
        match digits_up_to(s, start, 0x7FFF_FFFF) {
            Some(v) => Some(v as i32),
            None => None,
        }
    }
}

/// The text of one digit.
fn digit_str(d: u32) -> (r: &'static str)
    requires
        d < 10,
    ensures
        r@ == seq![digit_char(d as nat)],
{
    if d == 0 {
        proof {
            reveal_strlit("0");
        }
        "0"
    } else if d == 1 {
        proof {
            reveal_strlit("1");
        }
        "1"
    } else if d == 2 {
        proof {
            reveal_strlit("2");
        }
        "2"
    } else if d == 3 {
        proof {
            reveal_strlit("3");
        }
        "3"
    } else if d == 4 {
        proof {
            reveal_strlit("4");
        }
        "4"
    } else if d == 5 {
        proof {
            reveal_strlit("5");
        }
        "5"
    } else if d == 6 {
        proof {
            reveal_strlit("6");
        }
        "6"
    } else if d == 7 {
        proof {
            reveal_strlit("7");
        }
        "7"
    } else if d == 8 {
        proof {
            reveal_strlit("8");
        }
        "8"
    } else {
        proof {
            reveal_strlit("9");
        }
        "9"
    }
}

/// The decimal text of a `u32`, as `to_string` writes it.
pub fn u32_text(n: u32) -> (r: String)
    ensures
        r@ == nat_text(n as nat),
    decreases n,
{
    if n < 10 {
        String::from_str(digit_str(n))
    } else {
        let s = u32_text(n / 10);
        s.concat(digit_str(n % 10))
    }
}

/// The decimal text of a `usize`, as `to_string` writes it.
pub fn usize_text(n: usize) -> (r: String)
    ensures
        r@ == nat_text(n as nat),
    decreases n,
{
    if n < 10 {
        String::from_str(digit_str(n as u32))
    } else {
        let s = usize_text(n / 10);
        s.concat(digit_str((n % 10) as u32))
    }
}

/// The decimal text of an `i32`, as `to_string` writes it.
pub fn i32_text(n: i32) -> (r: String)
    ensures
        r@ == int_text(n as int),
{
    if n < 0 {
        let m: i64 = 0i64 - (n as i64);
        proof {
            reveal_strlit("-");
        }
        let digits = u32_text(m as u32);
        let r = String::from_str("-").concat(digits.as_str());
        r
    } else {
        u32_text(n as u32)
    }
}

/// The text of a number is digits, and their value is the number.
pub proof fn lemma_nat_text_digits(n: nat)
    ensures
        all_digits(nat_text(n)),
        digits_value(nat_text(n)) == n,
    decreases n,
{
    let d = n % 10;
    assert(digit_value(digit_char(d)) == d);
    assert(is_digit(digit_char(d)));
    if n >= 10 {
        lemma_nat_text_digits(n / 10);
        let t = nat_text(n / 10);
        assert(nat_text(n).drop_last() =~= t);
        assert(nat_text(n).last() == digit_char(d));
        assert(digits_value(nat_text(n)) == digits_value(t) * 10 + digit_value(digit_char(d)));
        assert((n / 10) * 10 + n % 10 == n) by (nonlinear_arith);
        assert(digits_value(t) == n / 10);
        assert(digits_value(nat_text(n)) == n);
        assert forall|i: int| 0 <= i < nat_text(n).len() implies is_digit(#[trigger] nat_text(n)[i]) by {
            if i < t.len() {
                assert(nat_text(n)[i] == t[i]);
            }
        }
    } else {
        assert(nat_text(n) =~= seq![digit_char(n)]);
        assert(seq![digit_char(n)].drop_last() =~= Seq::<char>::empty());
        assert(digits_value(Seq::<char>::empty()) == 0);
        assert(digits_value(nat_text(n)) == digit_value(digit_char(n)));
    }
}

/// Reading the text of a `u32` gives the number back.
pub proof fn law_u32_text_round_trip(n: u32)
    ensures
        u32_of_text(nat_text(n as nat)) == Some(n),
{
    lemma_nat_text_digits(n as nat);
    assert(is_digit(nat_text(n as nat)[0]));
}

/// Reading the text of a number that fits an `i32` as an `i32` gives the
/// number back.
pub proof fn lemma_i32_text_round_trip(n: nat)
    requires
        n <= i32::MAX,
    ensures
        i32_of_text(nat_text(n)) == Some(n as i32),
{
    lemma_nat_text_digits(n);
    assert(is_digit(nat_text(n)[0]));
}

} // verus!
