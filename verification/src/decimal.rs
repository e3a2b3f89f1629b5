//! Decimal numerals.
use vstd::prelude::*;
use vstd::string::*;
use crate::text::chars_of;

verus! {

/// The value of a decimal digit.
pub open spec fn digit_value(c: char) -> int {
    c as int - '0' as int
}

/// `c` is one of the ten decimal digits.
pub open spec fn is_digit(c: char) -> bool {
    '0' <= c <= '9'
}

/// The digit of the value `d`, where `d` is less than ten.
pub open spec fn digit_char(d: nat) -> char {
    ('0' as int + d) as char
}

/// `s` is made of digits alone; the empty text is.
pub open spec fn all_digits(s: Seq<char>) -> bool {
    forall|i: int| 0 <= i < s.len() ==> is_digit(#[trigger] s[i])
}

/// The number that the digits of `s` write.
pub open spec fn number_of(s: Seq<char>) -> int
    decreases s.len(),
{
    if s.len() == 0 {
        0
    } else {
        10 * number_of(s.drop_last()) + digit_value(s.last())
    }
}

/// The numeral of `n`: no leading zero, and a single zero for zero.
pub open spec fn numeral(n: nat) -> Seq<char>
    decreases n,
{
    if n < 10 {
        seq![digit_char(n)]
    } else {
        numeral(n / 10).push(digit_char(n % 10))
    }
}

/// The numeral of `n`, with zeros in front up to two digits.
pub open spec fn numeral2(n: nat) -> Seq<char> {
    if n < 10 {
        seq!['0'] + numeral(n)
    } else {
        numeral(n)
    }
}

/// The number that an unsigned numeral writes: one digit or more, behind at most
/// one plus sign.
pub open spec fn unsigned_value(s: Seq<char>) -> Option<int> {
    let d = if s.len() > 0 && s[0] == '+' {
        s.drop_first()
    } else {
        s
    };
    if d.len() > 0 && all_digits(d) {
        Some(number_of(d))
    } else {
        None
    }
}

/// The number that a signed numeral writes: as the unsigned one, but the sign may
/// be a minus.
pub open spec fn signed_value(s: Seq<char>) -> Option<int> {
    if s.len() > 0 && s[0] == '-' {
        let d = s.drop_first();
        if d.len() > 0 && all_digits(d) {
            Some(-number_of(d))
        } else {
            None
        }
    } else {
        unsigned_value(s)
    }
}

/// The number that `s` writes, where it lies between `lo` and `hi`.
pub open spec fn within(v: Option<int>, lo: int, hi: int) -> Option<int> {
    match v {
        Some(n) => if lo <= n <= hi {
            Some(n)
        } else {
            None
        },
        None => None,
    }
}

/// A text of digits alone writes no negative number, and a longer one no less.
proof fn lemma_number_grows(s: Seq<char>, i: int)
    requires
        all_digits(s),
        0 <= i <= s.len(),
    ensures
        0 <= number_of(s.take(i)) <= number_of(s),
    decreases s.len(),
{
    if i == s.len() {
        assert(s.take(i) =~= s);
        if s.len() > 0 {
            assert(is_digit(s[s.len() - 1]));
            assert(all_digits(s.drop_last())) by {
                assert forall|k: int| 0 <= k < s.drop_last().len() implies is_digit(
                    #[trigger] s.drop_last()[k],
                ) by {
                    assert(is_digit(s[k]));
                }
            }
            lemma_number_grows(s.drop_last(), s.len() - 1);
            assert(s.drop_last().take(s.len() - 1) =~= s.drop_last());
        }
    } else {
        assert(is_digit(s[s.len() - 1]));
        assert(all_digits(s.drop_last())) by {
            assert forall|k: int| 0 <= k < s.drop_last().len() implies is_digit(
                #[trigger] s.drop_last()[k],
            ) by {
                assert(is_digit(s[k]));
            }
        }
        lemma_number_grows(s.drop_last(), i);
        assert(s.drop_last().take(i) =~= s.take(i));
    }
}

/// A numeral is made of digits, one or more, and writes the number it was made
/// from.
pub(crate) proof fn lemma_numeral_writes(n: nat)
    ensures
        numeral(n).len() > 0,
        all_digits(numeral(n)),
        number_of(numeral(n)) == n,
    decreases n,
{
    reveal_with_fuel(number_of, 2);
    if n < 10 {
        assert(numeral(n).drop_last() =~= Seq::<char>::empty());
    } else {
        lemma_numeral_writes(n / 10);
        assert(numeral(n).drop_last() =~= numeral(n / 10));
    }
}

/// An unsigned numeral writes no negative number.
pub proof fn law_unsigned_is_not_negative(s: Seq<char>)
    ensures
        unsigned_value(s) matches Some(n) ==> n >= 0,
{
    let d = if s.len() > 0 && s[0] == '+' {
        s.drop_first()
    } else {
        s
    };
    if all_digits(d) {
        lemma_number_grows(d, 0);
    }
}

/// Reading the numeral of a number gives the number back.
pub proof fn law_numeral_round_trip(n: nat)
    ensures
        unsigned_value(numeral(n)) == Some(n as int),
        signed_value(numeral(n)) == Some(n as int),
{
    lemma_numeral_writes(n);
    assert(is_digit(numeral(n)[0]));
}

/// The number that the digits of `v` from `lo` on write, or `None` where there is
/// none, where another character stands among them or where the number is above
/// `max`.
fn parse_digits(v: &Vec<char>, lo: usize, max: u64) -> (r: Option<u64>)
    requires
        lo <= v@.len(),
    ensures
        ({
            let d = v@.skip(lo as int);
            (match r {
                Some(n) => d.len() > 0 && all_digits(d) && number_of(d) == n && n <= max,
                None => d.len() == 0 || !all_digits(d) || number_of(d) > max,
            })
        }),
{
    let ghost d = v@.skip(lo as int);
    let n: usize = v.len();
    if lo == n {
        return None;
    }
    let mut i: usize = lo;
    let mut acc: u64 = 0;
    let mut over: bool = false;
    assert(d.take(0) =~= Seq::<char>::empty());
    while i < n
        invariant
            lo <= i <= n,
            n == v@.len(),
            d == v@.skip(lo as int),
            all_digits(d.take(i - lo)),
            !over ==> acc == number_of(d.take(i - lo)) && acc <= max,
            over ==> number_of(d.take(i - lo)) > max,
        decreases n - i,
    {
        let c = v[i];
        assert(d[i - lo] == c);
        if !(c >= '0' && c <= '9') {
            return None;
        }
        proof {
            let t = d.take(i - lo + 1);
            assert(t.drop_last() =~= d.take(i - lo));
            assert(t.last() == c);
            assert forall|k: int| 0 <= k < t.len() implies is_digit(#[trigger] t[k]) by {
                if k < i - lo {
                    assert(is_digit(d.take(i - lo)[k]));
                }
            }
            lemma_number_grows(t, i - lo);
            assert(t.take(i - lo) =~= d.take(i - lo));
        }
        let x: u64 = (c as u32 - '0' as u32) as u64;
        if !over {
            if acc > max / 10 || x > max - acc * 10 {
                over = true;
            } else {
                acc = acc * 10 + x;
            }
        }
        i = i + 1;
    }
    assert(d.take(n - lo) =~= d);
    if over {
        None
    } else {
        Some(acc)
    }
}

/// Reads an unsigned numeral of at most `max`.
pub fn parse_unsigned(s: &str, max: u64) -> (r: Option<u64>)
    ensures
        (match r {
            Some(n) => within(unsigned_value(s@), 0, max as int) == Some(n as int),
            None => within(unsigned_value(s@), 0, max as int) is None,
        }),
{
    let v = chars_of(s);
    if v.len() > 0 && v[0] == '+' {
        assert(v@.skip(1) =~= s@.drop_first());
        let r = parse_digits(&v, 1, max);
        proof {
            if r is None && all_digits(s@.drop_first()) {
                lemma_number_grows(s@.drop_first(), 0);
            }
        }
        r
    } else {
        assert(v@.skip(0) =~= s@);
        let r = parse_digits(&v, 0, max);
        proof {
            if r is None && all_digits(s@) {
                lemma_number_grows(s@, 0);
            }
        }
        r
    }
}

/// Reads a `u64`.
pub fn parse_u64(s: &str) -> (r: Option<u64>)
    ensures
        (match r {
            Some(n) => within(unsigned_value(s@), 0, u64::MAX as int) == Some(n as int),
            None => within(unsigned_value(s@), 0, u64::MAX as int) is None,
        }),
{
    parse_unsigned(s, u64::MAX)
}

/// Reads an `i64`.
pub fn parse_i64(s: &str) -> (r: Option<i64>)
    ensures
        (match r {
            Some(n) => within(signed_value(s@), i64::MIN as int, i64::MAX as int) == Some(n as int),
            None => within(signed_value(s@), i64::MIN as int, i64::MAX as int) is None,
        }),
{
    let v = chars_of(s);
    if v.len() > 0 && v[0] == '-' {
        assert(v@.skip(1) =~= s@.drop_first());
        match parse_digits(&v, 1, 0x8000_0000_0000_0000) {
            Some(n) => {
                proof {
                    lemma_number_grows(s@.drop_first(), 0);
                }
                if n == 0x8000_0000_0000_0000 {
                    Some(i64::MIN)
                } else {
                    Some(-(n as i64))
                }
            },
            None => None,
        }
    } else {
        match parse_unsigned(s, 0x7fff_ffff_ffff_ffff) {
            Some(n) => Some(n as i64),
            None => {
                proof {
                    if unsigned_value(s@) is Some {
                        let d = if s@.len() > 0 && s@[0] == '+' {
                            s@.drop_first()
                        } else {
                            s@
                        };
                        lemma_number_grows(d, 0);
                    }
                }
                None
            },
        }
    }
}

/// The digit of the value `d`.
fn digit(d: u64) -> (r: char)
    requires
        d < 10,
    ensures
        r == digit_char(d as nat),
{
    (48u8 + d as u8) as char
}

/// The numeral of `n`.
pub fn decimal(n: u64) -> (r: String)
    ensures
        r@ == numeral(n as nat),
{
    let mut rev: Vec<char> = Vec::new();
    let mut m: u64 = n;
    assert(rev@.reverse() =~= Seq::<char>::empty());
    while m >= 10
        invariant
            numeral(n as nat) == numeral(m as nat) + rev@.reverse(),
        decreases m,
    {
        let ghost q = rev@;
        let c = digit(m % 10);
        rev.push(c);
        proof {
            assert(rev@.reverse() =~= seq![c] + q.reverse());
            assert(numeral(m as nat) + q.reverse() =~= numeral((m / 10) as nat) + rev@.reverse());
        }
        m = m / 10;
    }
    let ghost q = rev@;
    let c = digit(m);
    rev.push(c);
    proof {
        assert(rev@.reverse() =~= seq![c] + q.reverse());
        assert(numeral(n as nat) =~= rev@.reverse());
    }
    let mut r = String::new();
    let mut i: usize = rev.len();
    assert(r@ =~= rev@.reverse().take(0));
    while i > 0
        invariant
            i <= rev@.len(),
            r@ == rev@.reverse().take(rev@.len() - i),
        decreases i,
    {
        i = i - 1;
        r.push(rev[i]);
        assert(rev@.reverse().take(rev@.len() - i) =~= rev@.reverse().take(
            rev@.len() - i - 1,
        ).push(rev@[i as int]));
    }
    assert(rev@.reverse().take(rev@.len() as int) =~= rev@.reverse());
    r
}

/// The numeral of `n`, with zeros in front up to two digits.
pub fn decimal2(n: u64) -> (r: String)
    ensures
        r@ == numeral2(n as nat),
{
    if n < 10 {
        let mut r = String::new();
        r.push('0');
        r.append(decimal(n).as_str());
        assert(r@ =~= numeral2(n as nat));
        r
    } else {
        decimal(n)
    }
}

// ---------------------------------------------------------------------------
// What holds of the numerals
// ---------------------------------------------------------------------------

/// What digits write: nothing writes zero, and one more digit makes the number ten times as
/// large and adds its own value.
pub proof fn law_digits_write_a_number(s: Seq<char>, c: char)
    ensures
        number_of(Seq::<char>::empty()) == 0,
        number_of(s.push(c)) == 10 * number_of(s) + (c as int - 48),
        is_digit(c) <==> 48 <= c as int <= 57,
        all_digits(s.push(c)) <==> all_digits(s) && is_digit(c),
{
    assert(s.push(c).drop_last() =~= s);
    if all_digits(s.push(c)) {
        assert(is_digit(s.push(c)[s.len() as int]));
        assert forall|i: int| 0 <= i < s.len() implies is_digit(#[trigger] s[i]) by {
            assert(s.push(c)[i] == s[i]);
        }
    }
}

/// Which texts are numerals: one digit or more, behind at most one sign, of which the
/// minus is taken only where the number may be negative and makes it so.
pub proof fn law_which_texts_are_numerals(d: Seq<char>)
    requires
        d.len() == 0 || (d[0] != '+' && d[0] != '-'),
    ensures
        d.len() > 0 && all_digits(d) ==> unsigned_value(d) == Some(number_of(d)) && signed_value(d)
            == Some(number_of(d)) && unsigned_value(seq!['+'] + d) == Some(number_of(d))
            && signed_value(seq!['+'] + d) == Some(number_of(d)) && signed_value(seq!['-'] + d)
            == Some(-number_of(d)),
        d.len() == 0 || !all_digits(d) ==> unsigned_value(d) is None && signed_value(d) is None
            && unsigned_value(seq!['+'] + d) is None && signed_value(seq!['+'] + d) is None
            && signed_value(seq!['-'] + d) is None,
        unsigned_value(seq!['-'] + d) is None,
{
    let p = seq!['+'] + d;
    let m = seq!['-'] + d;
    assert(p[0] == '+' && m[0] == '-');
    assert(p.drop_first() =~= d);
    assert(m.drop_first() =~= d);
    assert(!is_digit(m[0]));
}

/// The numeral of a number: digits alone, the first of which is zero only where it is the
/// only one; and the digits are those of the number.
pub proof fn law_numeral_has_no_leading_zero(n: nat)
    ensures
        numeral(n).len() > 0,
        all_digits(numeral(n)),
        number_of(numeral(n)) == n,
        numeral(n)[0] == '0' <==> n == 0,
        n == 0 ==> numeral(n).len() == 1,
    decreases n,
{
    lemma_numeral_writes(n);
    if n >= 10 {
        law_numeral_has_no_leading_zero(n / 10);
        assert(numeral(n)[0] == numeral(n / 10)[0]);
    }
}

/// A number below a hundred in two digits, and the digit of a value.
pub proof fn law_two_digits(n: nat, d: nat)
    ensures
        n < 100 ==> numeral2(n) == seq![digit_char(n / 10), digit_char(n % 10)],
        n >= 100 ==> numeral2(n) == numeral(n),
        d < 10 ==> digit_char(d) as int == 48 + d,
{
    reveal_with_fuel(numeral, 3);
    if n < 100 {
        assert(numeral2(n) =~= seq![digit_char(n / 10), digit_char(n % 10)]);
    }
}

/// A number within bounds is the number, and one outside of them is none.
pub proof fn law_numbers_within_bounds(v: Option<int>, lo: int, hi: int)
    ensures
        v is None ==> within(v, lo, hi) is None,
        v matches Some(n) ==> (within(v, lo, hi) == Some(n) <==> lo <= n <= hi),
        v matches Some(n) ==> (within(v, lo, hi) is None <==> n < lo || n > hi),
{
}

} // verus!
