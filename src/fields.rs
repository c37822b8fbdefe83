//! Self-delimiting fields over characters: integers ended by `;` and texts
//! prefixed by their length. Each reader accepts exactly what its writer
//! produces, so a record written field by field reads back unchanged.
use vstd::prelude::*;
use crate::text::{
    decimal, is_digit, lemma_decimal_digits, lemma_number_at_decimal, lemma_number_at_sound,
    number_at, push_decimal, read_number,
};

verus! {

/// An integer: an optional minus sign, its decimal notation, then `;`.
pub open spec fn int_field(i: int) -> Seq<char> {
    if i < 0 {
        (seq!['-'] + decimal((-i) as nat)).push(';')
    } else {
        decimal(i as nat).push(';')
    }
}

/// A flag, written as the integer one or zero.
pub open spec fn bool_field(b: bool) -> Seq<char> {
    int_field(if b { 1 } else { 0 })
}

/// A text: its length in characters, `:`, then the characters themselves.
pub open spec fn text_field(t: Seq<char>) -> Seq<char> {
    decimal(t.len()) + seq![':'] + t
}

/// `f` stands in `s` from position `pos` on.
pub open spec fn field_at(s: Seq<char>, pos: int, f: Seq<char>) -> bool {
    &&& 0 <= pos
    &&& pos + f.len() <= s.len()
    &&& s.subrange(pos, pos + f.len()) == f
}

pub proof fn lemma_field_at_split(s: Seq<char>, pos: int, a: Seq<char>, b: Seq<char>)
    requires
        field_at(s, pos, a + b),
    ensures
        field_at(s, pos, a),
        field_at(s, pos + a.len(), b),
{
    let w = s.subrange(pos, pos + (a + b).len());
    assert(s.subrange(pos, pos + a.len()) =~= w.subrange(0, a.len() as int));
    assert(w.subrange(0, a.len() as int) =~= a);
    assert(s.subrange(pos + a.len(), pos + a.len() + b.len()) =~= w.subrange(
        a.len() as int,
        (a + b).len() as int,
    ));
    assert(w.subrange(a.len() as int, (a + b).len() as int) =~= b);
}

pub proof fn lemma_field_at_whole(s: Seq<char>, a: Seq<char>, b: Seq<char>)
    requires
        s == a + b,
    ensures
        field_at(s, 0, a),
        field_at(s, a.len() as int, b),
{
    assert(s.subrange(0, s.len() as int) =~= s);
    lemma_field_at_split(s, 0, a, b);
}

pub proof fn lemma_field_at_char(s: Seq<char>, pos: int, c: char)
    requires
        field_at(s, pos, seq![c]),
    ensures
        pos < s.len(),
        s[pos] == c,
{
    assert(s.subrange(pos, pos + 1)[0] == s[pos]);
}

proof fn lemma_decimal_first(n: nat)
    ensures
        decimal(n).len() > 0,
        is_digit(decimal(n)[0]),
{
    lemma_decimal_digits(n);
}

/// Two integer fields that stand at the same place hold the same integer.
pub proof fn lemma_int_field_unique(s: Seq<char>, pos: int, a: int, b: int)
    requires
        -u128::MAX <= a <= u128::MAX,
        -u128::MAX <= b <= u128::MAX,
        field_at(s, pos, int_field(a)),
        field_at(s, pos, int_field(b)),
    ensures
        a == b,
{
    lemma_sign_unique(s, pos, a, b);
    let m = if a < 0 { pos + 1 } else { pos };
    let na: nat = if a < 0 { (-a) as nat } else { a as nat };
    let nb: nat = if b < 0 { (-b) as nat } else { b as nat };
    if a < 0 {
        assert(int_field(a) =~= seq!['-'] + (decimal(na) + seq![';']));
        assert(int_field(b) =~= seq!['-'] + (decimal(nb) + seq![';']));
        lemma_field_at_split(s, pos, seq!['-'], decimal(na) + seq![';']);
        lemma_field_at_split(s, pos, seq!['-'], decimal(nb) + seq![';']);
    } else {
        assert(int_field(a) =~= decimal(na) + seq![';']);
        assert(int_field(b) =~= decimal(nb) + seq![';']);
    }
    lemma_field_at_split(s, m, decimal(na), seq![';']);
    lemma_field_at_split(s, m, decimal(nb), seq![';']);
    lemma_field_at_char(s, m + decimal(na).len(), ';');
    lemma_field_at_char(s, m + decimal(nb).len(), ';');
    lemma_number_at_decimal(s, m, na);
    lemma_number_at_decimal(s, m, nb);
}

proof fn lemma_sign_unique(s: Seq<char>, pos: int, a: int, b: int)
    requires
        field_at(s, pos, int_field(a)),
        field_at(s, pos, int_field(b)),
    ensures
        (a < 0) == (b < 0),
{
    lemma_decimal_first(if a < 0 { (-a) as nat } else { a as nat });
    lemma_decimal_first(if b < 0 { (-b) as nat } else { b as nat });
    assert(s[pos] == s.subrange(pos, pos + int_field(a).len())[0]);
    assert(s[pos] == s.subrange(pos, pos + int_field(b).len())[0]);
}

/// Two text fields that stand at the same place hold the same text.
pub proof fn lemma_text_field_unique(s: Seq<char>, pos: int, t: Seq<char>, u: Seq<char>)
    requires
        field_at(s, pos, text_field(t)),
        field_at(s, pos, text_field(u)),
        t.len() <= u128::MAX,
        u.len() <= u128::MAX,
    ensures
        t == u,
{
    lemma_field_at_split(s, pos, decimal(t.len()) + seq![':'], t);
    lemma_field_at_split(s, pos, decimal(t.len()), seq![':']);
    lemma_field_at_split(s, pos, decimal(u.len()) + seq![':'], u);
    lemma_field_at_split(s, pos, decimal(u.len()), seq![':']);
    lemma_field_at_char(s, pos + decimal(t.len()).len(), ':');
    lemma_field_at_char(s, pos + decimal(u.len()).len(), ':');
    lemma_number_at_decimal(s, pos, t.len());
    lemma_number_at_decimal(s, pos, u.len());
}

/// Appends the field of an integer.
pub fn push_int(out: &mut Vec<char>, i: i128)
    requires
        i > i128::MIN,
    ensures
        final(out)@ == old(out)@ + int_field(i as int),
{
    if i < 0 {
        out.push('-');
        push_decimal(out, (-i) as u128);
    } else {
        push_decimal(out, i as u128);
    }
    out.push(';');
    proof {
        if i < 0 {
            assert(final(out)@ =~= old(out)@ + int_field(i as int));
        } else {
            assert(final(out)@ =~= old(out)@ + int_field(i as int));
        }
    }
}

/// Appends the field of an unsigned number.
pub fn push_nat(out: &mut Vec<char>, n: u128)
    ensures
        final(out)@ == old(out)@ + int_field(n as int),
{
    push_decimal(out, n);
    out.push(';');
    proof {
        assert(final(out)@ =~= old(out)@ + int_field(n as int));
    }
}

/// Appends the field of a flag.
pub fn push_bool(out: &mut Vec<char>, b: bool)
    ensures
        final(out)@ == old(out)@ + bool_field(b),
{
    push_int(out, if b { 1 } else { 0 });
}

/// Appends the field of a text.
pub fn push_text(out: &mut Vec<char>, t: &Vec<char>)
    ensures
        final(out)@ == old(out)@ + text_field(t@),
{
    push_decimal(out, t.len() as u128);
    out.push(':');
    let ghost start = out@;
    let mut i: usize = 0;
    while i < t.len()
        invariant
            i <= t@.len(),
            out@ == start + t@.subrange(0, i as int),
        decreases t.len() - i,
    {
        out.push(t[i]);
        i = i + 1;
        proof {
            assert(out@ =~= start + t@.subrange(0, i as int));
        }
    }
    proof {
        assert(t@.subrange(0, t@.len() as int) =~= t@);
        assert(final(out)@ =~= old(out)@ + text_field(t@));
    }
}

/// Reads an unsigned number written by `push_int`.
pub fn read_nat(s: &Vec<char>, pos: usize) -> (r: Option<(u128, usize)>)
    ensures
        r matches Some((v, e)) ==> e == pos + int_field(v as int).len() && field_at(
            s@,
            pos as int,
            int_field(v as int),
        ),
        forall|v: u128|
            field_at(s@, pos as int, #[trigger] int_field(v as int)) ==> r == Some(
                (v, (pos + int_field(v as int).len()) as usize),
            ),
{
    let rn = read_number(s, pos);
    proof {
        assert forall|v: u128| field_at(s@, pos as int, #[trigger] int_field(v as int)) implies
            number_at(s@, pos as int) == Some((v as nat, pos + decimal(v as nat).len())) && pos
                + decimal(v as nat).len() < s@.len() && s@[pos + decimal(v as nat).len()] == ';' by {
            assert(int_field(v as int) =~= decimal(v as nat) + seq![';']);
            lemma_field_at_split(s@, pos as int, decimal(v as nat), seq![';']);
            lemma_field_at_char(s@, pos + decimal(v as nat).len(), ';');
            lemma_number_at_decimal(s@, pos as int, v as nat);
        }
    }
    match rn {
        None => None,
        Some((m, e)) => {
            proof {
                lemma_number_at_sound(s@, pos as int);
            }
            if e >= s.len() || s[e] != ';' {
                return None;
            }
            proof {
                assert(s@.subrange(pos as int, e + 1) =~= s@.subrange(pos as int, e as int).push(
                    ';',
                ));
            }
            Some((m, e + 1))
        },
    }
}

/// Reads an integer written by `push_int`.
pub fn read_int(s: &Vec<char>, pos: usize) -> (r: Option<(i64, usize)>)
    ensures
        r matches Some((v, e)) ==> e == pos + int_field(v as int).len() && field_at(
            s@,
            pos as int,
            int_field(v as int),
        ),
        forall|v: i64|
            field_at(s@, pos as int, #[trigger] int_field(v as int)) ==> r == Some(
                (v, (pos + int_field(v as int).len()) as usize),
            ),
{
    if pos >= s.len() {
        proof {
            assert forall|v: i64| !field_at(s@, pos as int, #[trigger] int_field(v as int)) by {
                lemma_decimal_first(if v < 0 { (-v) as nat } else { v as nat });
            }
        }
        return None;
    }
    if s[pos] != '-' {
        let rn = read_nat(s, pos);
        proof {
            assert forall|v: i64| field_at(s@, pos as int, #[trigger] int_field(v as int)) implies v
                >= 0 by {
                if v < 0 {
                    assert(s@[pos as int] == int_field(v as int)[0]);
                }
            }
            assert forall|v: i64| v >= 0 implies #[trigger] int_field(v as int) == int_field(
                (v as u128) as int,
            ) by {}
        }
        match rn {
            None => None,
            Some((m, e)) => {
                if m > 9223372036854775807 {
                    return None;
                }
                Some((m as i64, e))
            },
        }
    } else {
        let rn = read_nat(s, pos + 1);
        proof {
            assert forall|v: i64| field_at(s@, pos as int, #[trigger] int_field(v as int)) implies v
                < 0 && field_at(s@, pos + 1, int_field(-v)) by {
                if v >= 0 {
                    lemma_decimal_first(v as nat);
                    assert(s@[pos as int] == int_field(v as int)[0]);
                } else {
                    assert(int_field(v as int) =~= seq!['-'] + int_field(-v));
                    lemma_field_at_split(s@, pos as int, seq!['-'], int_field(-v));
                }
            }
            assert forall|v: i64| v < 0 implies #[trigger] int_field(-v) == int_field(
                ((-v) as u128) as int,
            ) by {}
        }
        match rn {
            None => None,
            Some((m, e)) => {
                if m == 0 || m > 9223372036854775808 {
                    proof {
                        assert forall|v: i64| !field_at(s@, pos as int, #[trigger] int_field(v as int)) by {
                            if field_at(s@, pos as int, int_field(v as int)) {
                                assert(int_field(-v) == int_field(((-v) as u128) as int));
                            }
                        }
                    }
                    return None;
                }
                let v: i64 = if m == 9223372036854775808 {
                    i64::MIN
                } else {
                    -(m as i64)
                };
                proof {
                    assert(int_field(v as int) =~= seq!['-'] + int_field(m as int));
                    assert(s@.subrange(pos as int, e as int) =~= seq!['-'] + s@.subrange(
                        pos + 1,
                        e as int,
                    ));
                }
                Some((v, e))
            },
        }
    }
}

/// Reads a flag written by `push_bool`.
pub fn read_bool(s: &Vec<char>, pos: usize) -> (r: Option<(bool, usize)>)
    ensures
        r matches Some((b, e)) ==> e == pos + bool_field(b).len() && field_at(
            s@,
            pos as int,
            bool_field(b),
        ),
        forall|b: bool|
            field_at(s@, pos as int, #[trigger] bool_field(b)) ==> r == Some(
                (b, (pos + bool_field(b).len()) as usize),
            ),
{
    let rn = read_nat(s, pos);
    proof {
        assert(bool_field(true) == int_field((1u128) as int));
        assert(bool_field(false) == int_field((0u128) as int));
    }
    match rn {
        Some((1, e)) => Some((true, e)),
        Some((0, e)) => Some((false, e)),
        _ => None,
    }
}

/// Reads a text written by `push_text`.
pub fn read_text(s: &Vec<char>, pos: usize) -> (r: Option<(Vec<char>, usize)>)
    ensures
        r matches Some((t, e)) ==> e == pos + text_field(t@).len() && field_at(
            s@,
            pos as int,
            text_field(t@),
        ),
        forall|t: Seq<char>|
            field_at(s@, pos as int, #[trigger] text_field(t)) ==> (r matches Some((u, e)) && u@
                == t && e == pos + text_field(t).len()),
{
    let len: usize = s.len();
    let rn = read_number(s, pos);
    proof {
        assert forall|t: Seq<char>| field_at(s@, pos as int, #[trigger] text_field(t)) implies
            number_at(s@, pos as int) == Some((t.len(), pos + decimal(t.len()).len())) && pos
                + decimal(t.len()).len() < s@.len() && s@[pos + decimal(t.len()).len()] == ':' by {
            lemma_field_at_split(s@, pos as int, decimal(t.len()) + seq![':'], t);
            lemma_field_at_split(s@, pos as int, decimal(t.len()), seq![':']);
            lemma_field_at_char(s@, pos + decimal(t.len()).len(), ':');
            lemma_number_at_decimal(s@, pos as int, t.len());
        }
    }
    match rn {
        None => None,
        Some((n, e)) => {
            proof {
                lemma_number_at_sound(s@, pos as int);
            }
            if e >= s.len() || s[e] != ':' {
                return None;
            }
            let start: usize = e + 1;
            if n > (s.len() - start) as u128 {
                return None;
            }
            let end: usize = start + n as usize;
            let mut t: Vec<char> = Vec::new();
            let mut i: usize = start;
            while i < end
                invariant
                    start <= i <= end <= s@.len(),
                    t@ == s@.subrange(start as int, i as int),
                decreases end - i,
            {
                t.push(s[i]);
                i = i + 1;
                proof {
                    assert(t@ =~= s@.subrange(start as int, i as int));
                }
            }
            proof {
                assert(s@.subrange(pos as int, end as int) =~= s@.subrange(pos as int, e as int)
                    + seq![':'] + t@);
                assert forall|u: Seq<char>| field_at(s@, pos as int, #[trigger] text_field(u)) implies u
                    == t@ by {
                    lemma_field_at_split(s@, pos as int, decimal(u.len()) + seq![':'], u);
                    assert(u.len() == n);
                }
            }
            Some((t, end))
        },
    }
}

} // verus!
