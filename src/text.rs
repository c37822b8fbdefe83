//! Canonical decimal notation of numbers over characters, with a parser
//! that accepts exactly what the printer produces.
use vstd::prelude::*;

verus! {

pub open spec fn is_digit(c: char) -> bool {
    '0' <= c && c <= '9'
}

pub open spec fn digit_char(d: int) -> char {
    (d + 48) as char
}

pub open spec fn digit_value(c: char) -> int {
    c as int - 48
}

/// The shortest decimal notation of `n`: no leading zero but for `0` itself.
pub open spec fn decimal(n: nat) -> Seq<char>
    decreases n,
{
    if n < 10 {
        seq![digit_char(n as int)]
    } else {
        decimal(n / 10).push(digit_char((n % 10) as int))
    }
}

/// The number that a string of digits denotes.
pub open spec fn digits_value(s: Seq<char>) -> int
    decreases s.len(),
{
    if s.len() == 0 {
        0
    } else {
        digits_value(s.drop_last()) * 10 + digit_value(s.last())
    }
}

pub open spec fn all_digits(s: Seq<char>) -> bool {
    forall|i: int| 0 <= i < s.len() ==> is_digit(#[trigger] s[i])
}

/// A digit string without a superfluous leading zero.
pub open spec fn canonical_digits(s: Seq<char>) -> bool {
    &&& s.len() > 0
    &&& all_digits(s)
    &&& (s.len() > 1 ==> s[0] != '0')
}

pub proof fn lemma_digit_char(d: int)
    requires
        0 <= d < 10,
    ensures
        is_digit(digit_char(d)),
        digit_value(digit_char(d)) == d,
        (digit_char(d) == '0') == (d == 0),
{
}

pub proof fn lemma_decimal_digits(n: nat)
    ensures
        canonical_digits(decimal(n)),
        digits_value(decimal(n)) == n,
        n >= 10 ==> decimal(n).len() >= 2,
    decreases n,
{
    lemma_digit_char((n % 10) as int);
    if n < 10 {
        lemma_digit_char(n as int);
        assert(decimal(n).drop_last().len() == 0);
        assert(digits_value(decimal(n).drop_last()) == 0);
        assert(digits_value(decimal(n)) == digit_value(decimal(n).last()));
    } else {
        lemma_decimal_digits(n / 10);
        let s = decimal(n);
        assert(s.drop_last() == decimal(n / 10));
        assert(s[0] == decimal(n / 10)[0]);
        assert(digits_value(s) == digits_value(decimal(n / 10)) * 10 + digit_value(s.last()));
        assert(n == (n / 10) * 10 + n % 10);
    }
}

pub proof fn lemma_digits_value_nonneg(s: Seq<char>)
    requires
        all_digits(s),
    ensures
        digits_value(s) >= 0,
    decreases s.len(),
{
    if s.len() > 0 {
        lemma_digits_value_nonneg(s.drop_last());
    }
}

proof fn lemma_leading_nonzero(s: Seq<char>)
    requires
        s.len() > 0,
        all_digits(s),
        s[0] != '0',
    ensures
        digits_value(s) >= 1,
    decreases s.len(),
{
    assert(is_digit(s.last()));
    if s.len() > 1 {
        lemma_leading_nonzero(s.drop_last());
        assert(s.drop_last()[0] == s[0]);
        assert(digits_value(s) == digits_value(s.drop_last()) * 10 + digit_value(s.last()));
    } else {
        assert(digits_value(s.drop_last()) == 0);
        assert(digits_value(s) == digits_value(s.drop_last()) * 10 + digit_value(s.last()));
        assert(s.last() == s[0]);
        assert(is_digit(s[0]));
    }
}

/// A canonical digit string is the decimal notation of its value.
pub proof fn lemma_canonical_is_decimal(s: Seq<char>)
    requires
        canonical_digits(s),
    ensures
        digits_value(s) >= 0,
        decimal(digits_value(s) as nat) == s,
    decreases s.len(),
{
    lemma_digits_value_nonneg(s);
    if s.len() == 1 {
        assert(s.drop_last().len() == 0);
        assert(s.last() == s[0]);
        assert(is_digit(s[0]));
        assert(digits_value(s.drop_last()) == 0);
        assert(digits_value(s) == digits_value(s.drop_last()) * 10 + digit_value(s.last()));
        assert(decimal(digits_value(s) as nat) =~= s);
    } else {
        let p = s.drop_last();
        assert(p[0] == s[0]);
        lemma_canonical_is_decimal(p);
        lemma_leading_nonzero(p);
        let v = digits_value(s);
        assert(v / 10 == digits_value(p));
        assert(v % 10 == digit_value(s.last()));
        assert(decimal(v as nat) =~= s);
    }
}

/// Extending a digit string never lowers its value.
proof fn lemma_digits_value_mono(s: Seq<char>, i: int, j: int)
    requires
        all_digits(s),
        0 <= i <= j <= s.len(),
    ensures
        digits_value(s.subrange(0, i)) <= digits_value(s.subrange(0, j)),
    decreases j - i,
{
    if i < j {
        lemma_digits_value_mono(s, i, j - 1);
        let a = s.subrange(0, j - 1);
        let b = s.subrange(0, j);
        assert(b.drop_last() =~= a);
        lemma_digits_value_nonneg(a);
        assert(is_digit(b.last()));
    }
}

/// The number of digits that follow position `pos` in `s`.
pub open spec fn digit_run(s: Seq<char>, pos: int) -> nat
    decreases s.len() - pos,
{
    if pos < 0 || pos >= s.len() || !is_digit(s[pos]) {
        0
    } else {
        1 + digit_run(s, pos + 1)
    }
}

proof fn lemma_digit_run(s: Seq<char>, pos: int, k: int)
    requires
        0 <= pos <= s.len(),
        0 <= k <= digit_run(s, pos),
    ensures
        pos + digit_run(s, pos) <= s.len(),
        digit_run(s, pos) == k + digit_run(s, pos + k),
        all_digits(s.subrange(pos, pos + k)),
    decreases s.len() - pos,
{
    if pos < s.len() && is_digit(s[pos]) {
        if k > 0 {
            lemma_digit_run(s, pos + 1, k - 1);
            assert forall|i: int| 0 <= i < k implies is_digit(
                #[trigger] s.subrange(pos, pos + k)[i],
            ) by {
                if i > 0 {
                    assert(s.subrange(pos, pos + k)[i] == s.subrange(pos + 1, pos + k)[i - 1]);
                }
            }
        } else {
            lemma_digit_run(s, pos + 1, 0);
        }
    }
}

/// A digit string followed by a non-digit (or the end) is the whole run.
pub proof fn lemma_run_of_digits(s: Seq<char>, pos: int, d: Seq<char>)
    requires
        0 <= pos,
        pos + d.len() <= s.len(),
        s.subrange(pos, pos + d.len()) == d,
        all_digits(d),
        pos + d.len() == s.len() || !is_digit(s[pos + d.len()]),
    ensures
        digit_run(s, pos) == d.len(),
    decreases d.len(),
{
    if d.len() > 0 {
        assert(s[pos] == d[0]);
        assert(s.subrange(pos + 1, pos + 1 + d.drop_first().len()) =~= d.drop_first());
        lemma_run_of_digits(s, pos + 1, d.drop_first());
    }
}

/// The canonical number at `pos`, if the digit run there is canonical and fits.
pub open spec fn number_at(s: Seq<char>, pos: int) -> Option<(nat, int)> {
    let run = s.subrange(pos, pos + digit_run(s, pos));
    if 0 <= pos <= s.len() && canonical_digits(run) && digits_value(run) <= u128::MAX {
        Some((digits_value(run) as nat, pos + digit_run(s, pos)))
    } else {
        None
    }
}

/// The decimal notation of `n`, then a non-digit, reads back as `n`.
pub proof fn lemma_number_at_decimal(s: Seq<char>, pos: int, n: nat)
    requires
        0 <= pos,
        n <= u128::MAX,
        pos + decimal(n).len() < s.len(),
        s.subrange(pos, pos + decimal(n).len()) == decimal(n),
        !is_digit(s[pos + decimal(n).len()]),
    ensures
        number_at(s, pos) == Some((n, pos + decimal(n).len())),
{
    lemma_decimal_digits(n);
    lemma_run_of_digits(s, pos, decimal(n));
}

/// What `number_at` reads is the decimal notation of its value.
pub proof fn lemma_number_at_sound(s: Seq<char>, pos: int)
    requires
        number_at(s, pos) is Some,
    ensures
        ({
            let (n, e) = number_at(s, pos)->0;
            &&& pos < e <= s.len()
            &&& s.subrange(pos, e) == decimal(n)
            &&& (e == s.len() || !is_digit(s[e]))
        }),
{
    let k = digit_run(s, pos);
    lemma_digit_run(s, pos, k as int);
    lemma_canonical_is_decimal(s.subrange(pos, pos + k));
    if pos + k < s.len() {
        lemma_digit_run(s, pos + k, 0);
        if is_digit(s[pos + k]) {
            assert(digit_run(s, pos + k) > 0);
        }
    }
}

fn digit_of(d: u128) -> (c: char)
    requires
        d < 10,
    ensures
        c == digit_char(d as int),
{
    let b: u8 = 48u8 + d as u8;
    b as char
}

/// Appends the decimal notation of `n`.
pub fn push_decimal(out: &mut Vec<char>, n: u128)
    ensures
        final(out)@ == old(out)@ + decimal(n as nat),
    decreases n,
{
    if n < 10 {
        out.push(digit_of(n));
    } else {
        push_decimal(out, n / 10);
        out.push(digit_of(n % 10));
    }
}

/// Reads the canonical number that starts at `pos`.
pub fn read_number(s: &Vec<char>, pos: usize) -> (r: Option<(u128, usize)>)
    ensures
        match r {
            Some((v, e)) => number_at(s@, pos as int) == Some((v as nat, e as int)),
            None => number_at(s@, pos as int) is None,
        },
{
    if pos > s.len() {
        return None;
    }
    let ghost run = s@.subrange(pos as int, pos + digit_run(s@, pos as int));
    proof {
        lemma_digit_run(s@, pos as int, digit_run(s@, pos as int) as int);
    }
    let mut i: usize = pos;
    let mut v: u128 = 0;
    while i < s.len() && '0' <= s[i] && s[i] <= '9'
        invariant
            pos <= i <= pos + digit_run(s@, pos as int),
            pos + digit_run(s@, pos as int) <= s@.len(),
            run == s@.subrange(pos as int, pos + digit_run(s@, pos as int)),
            all_digits(run),
            v == digits_value(run.subrange(0, i - pos)),
        decreases s.len() - i,
    {
        proof {
            lemma_digit_run(s@, pos as int, (i - pos) as int);
            assert(digit_run(s@, i as int) > 0);
        }
        let d: u128 = ((s[i] as u32) - 48) as u128;
        proof {
            let a = run.subrange(0, i - pos);
            let b = run.subrange(0, i - pos + 1);
            assert(b.drop_last() =~= a);
            assert(b.last() == s@[i as int]);
            lemma_digits_value_mono(run, i - pos + 1, run.len() as int);
        }
        if v > (u128::MAX - d) / 10 {
            proof {
                assert(digits_value(run.subrange(0, i - pos + 1)) > u128::MAX) by (nonlinear_arith)
                    requires
                        digits_value(run.subrange(0, i - pos + 1)) == v * 10 + d,
                        v > (u128::MAX - d) / 10,
                        0 <= d < 10,
                ;
                assert(run.subrange(0, run.len() as int) =~= run);
            }
            return None;
        }
        assert(v * 10 + d <= u128::MAX) by (nonlinear_arith)
            requires
                v <= (u128::MAX - d) / 10,
                0 <= d < 10,
        ;
        v = v * 10 + d;
        i = i + 1;
    }
    proof {
        if i < pos + digit_run(s@, pos as int) {
            lemma_digit_run(s@, pos as int, (i - pos) as int);
            assert(digit_run(s@, i as int) > 0);
        }
        assert(run.subrange(0, i - pos) =~= run);
    }
    if i == pos {
        return None;
    }
    if i - pos > 1 && s[pos] == '0' {
        assert(run[0] == s@[pos as int]);
        return None;
    }
    proof {
        assert forall|k: int| 0 <= k < run.len() implies is_digit(#[trigger] run[k]) by {}
        if run.len() > 1 {
            assert(run[0] == s@[pos as int]);
        }
    }
    Some((v, i))
}

} // verus!
