//! Roman numerals, as a play numbers the acts and scenes it jumps to.

use vstd::prelude::*;
use crate::text::chars_of;

verus! {

/// The numerals of the table that decoding goes through, largest first:
/// M, CM, D, CD, C, XC, L, XL, X, IX, V, IV, I.
pub open spec fn numeral(k: int) -> (Seq<char>, nat) {
    if k == 0 {
        (seq!['M'], 1000)
    } else if k == 1 {
        (seq!['C', 'M'], 900)
    } else if k == 2 {
        (seq!['D'], 500)
    } else if k == 3 {
        (seq!['C', 'D'], 400)
    } else if k == 4 {
        (seq!['C'], 100)
    } else if k == 5 {
        (seq!['X', 'C'], 90)
    } else if k == 6 {
        (seq!['L'], 50)
    } else if k == 7 {
        (seq!['X', 'L'], 40)
    } else if k == 8 {
        (seq!['X'], 10)
    } else if k == 9 {
        (seq!['I', 'X'], 9)
    } else if k == 10 {
        (seq!['V'], 5)
    } else if k == 11 {
        (seq!['I', 'V'], 4)
    } else if k == 12 {
        (seq!['I'], 1)
    } else {
        (Seq::empty(), 0)
    }
}

/// The number of numerals in the table.
pub open spec fn numeral_count() -> nat {
    13
}

/// Whether `s` begins with `p`.
pub open spec fn begins_with(s: Seq<char>, p: Seq<char>) -> bool {
    p.len() <= s.len() && s.take(p.len() as int) == p
}

/// The first numeral of the table, from the `k`-th on, that `s` begins with.
pub open spec fn first_numeral(s: Seq<char>, k: nat) -> Option<nat>
    decreases numeral_count() - k,
{
    if k >= numeral_count() {
        None
    } else if begins_with(s, numeral(k as int).0) {
        Some(k)
    } else {
        first_numeral(s, k + 1)
    }
}

/// A numeral that `first_numeral` finds is one of the table, and `s` begins
/// with it.
pub proof fn lemma_first_numeral(s: Seq<char>, k: nat)
    ensures
        first_numeral(s, k) matches Some(j) ==> k <= j < numeral_count() && begins_with(
            s,
            numeral(j as int).0,
        ) && numeral(j as int).0.len() >= 1,
    decreases numeral_count() - k,
{
    if k < numeral_count() && !begins_with(s, numeral(k as int).0) {
        lemma_first_numeral(s, k + 1);
    }
}

/// The value of a text read as a roman numeral: the first numeral of the
/// table that the text begins with counts, and the rest is read on; where
/// none matches (at the end, too) nothing more counts.
pub open spec fn roman_value(s: Seq<char>) -> nat
    decreases s.len(),
{
    match first_numeral(s, 0) {
        Some(k) => {
            proof {
                lemma_first_numeral(s, 0);
            }
            numeral(k as int).1 + roman_value(s.skip(numeral(k as int).0.len() as int))
        },
        None => 0,
    }
}

/// The roman numeral of `n` written with the numerals of the table from the
/// `k`-th on, largest first: each numeral is written as often as it fits.
pub open spec fn roman_from(n: nat, k: nat) -> Seq<char>
    decreases n, numeral_count() - k,
{
    if k >= numeral_count() || n == 0 {
        Seq::empty()
    } else if numeral(k as int).1 <= n {
        numeral(k as int).0 + roman_from((n - numeral(k as int).1) as nat, k)
    } else {
        roman_from(n, k + 1)
    }
}

/// The standard roman numeral of a number (largest numerals first, with
/// the subtractive pairs CM, CD, XC, XL, IX, IV).
pub open spec fn roman_numeral_of(n: nat) -> Seq<char> {
    roman_from(n, 0)
}

/// Whether a character begins one of the numerals of the table from the
/// `k`-th on.
pub open spec fn leads(c: char, k: nat) -> bool {
    (k <= 0 && c == 'M')
        || (k <= 1 && c == 'C')
        || (k <= 2 && c == 'D')
        || (k <= 3 && c == 'C')
        || (k <= 4 && c == 'C')
        || (k <= 5 && c == 'X')
        || (k <= 6 && c == 'L')
        || (k <= 7 && c == 'X')
        || (k <= 8 && c == 'X')
        || (k <= 9 && c == 'I')
        || (k <= 10 && c == 'V')
        || (k <= 11 && c == 'I')
        || (k <= 12 && c == 'I')
}

proof fn lemma_begins_one(s: Seq<char>, a: char)
    ensures
        begins_with(s, seq![a]) == (s.len() >= 1 && s[0] == a),
{
    if s.len() >= 1 && s[0] == a {
        assert(s.take(1) =~= seq![a]);
    }
    if begins_with(s, seq![a]) {
        assert(s.take(1)[0] == s[0]);
    }
}

proof fn lemma_begins_two(s: Seq<char>, a: char, b: char)
    ensures
        begins_with(s, seq![a, b]) == (s.len() >= 2 && s[0] == a && s[1] == b),
{
    if s.len() >= 2 && s[0] == a && s[1] == b {
        assert(s.take(2) =~= seq![a, b]);
    }
    if begins_with(s, seq![a, b]) {
        assert(s.take(2)[0] == s[0]);
        assert(s.take(2)[1] == s[1]);
    }
}

proof fn lemma_begins_all(s: Seq<char>)
    ensures
        begins_with(s, numeral(0).0) == (s.len() >= 1 && s[0] == 'M'),
        begins_with(s, numeral(1).0) == (s.len() >= 2 && s[0] == 'C' && s[1] == 'M'),
        begins_with(s, numeral(2).0) == (s.len() >= 1 && s[0] == 'D'),
        begins_with(s, numeral(3).0) == (s.len() >= 2 && s[0] == 'C' && s[1] == 'D'),
        begins_with(s, numeral(4).0) == (s.len() >= 1 && s[0] == 'C'),
        begins_with(s, numeral(5).0) == (s.len() >= 2 && s[0] == 'X' && s[1] == 'C'),
        begins_with(s, numeral(6).0) == (s.len() >= 1 && s[0] == 'L'),
        begins_with(s, numeral(7).0) == (s.len() >= 2 && s[0] == 'X' && s[1] == 'L'),
        begins_with(s, numeral(8).0) == (s.len() >= 1 && s[0] == 'X'),
        begins_with(s, numeral(9).0) == (s.len() >= 2 && s[0] == 'I' && s[1] == 'X'),
        begins_with(s, numeral(10).0) == (s.len() >= 1 && s[0] == 'V'),
        begins_with(s, numeral(11).0) == (s.len() >= 2 && s[0] == 'I' && s[1] == 'V'),
        begins_with(s, numeral(12).0) == (s.len() >= 1 && s[0] == 'I'),
{
    lemma_begins_one(s, 'M');
    lemma_begins_two(s, 'C', 'M');
    lemma_begins_one(s, 'D');
    lemma_begins_two(s, 'C', 'D');
    lemma_begins_one(s, 'C');
    lemma_begins_two(s, 'X', 'C');
    lemma_begins_one(s, 'L');
    lemma_begins_two(s, 'X', 'L');
    lemma_begins_one(s, 'X');
    lemma_begins_two(s, 'I', 'X');
    lemma_begins_one(s, 'V');
    lemma_begins_two(s, 'I', 'V');
    lemma_begins_one(s, 'I');
}

/// A text made of the `k`-th numeral followed by text that begins with a
/// numeral from the `k`-th on is read as beginning with the `k`-th numeral.
proof fn lemma_first_numeral_is(s: Seq<char>, k: nat)
    requires
        k < numeral_count(),
        begins_with(s, numeral(k as int).0),
        numeral(k as int).0.len() == 1 && s.len() >= 2 ==> leads(s[1], k),
    ensures
        first_numeral(s, 0) == Some(k),
{
    reveal_with_fuel(first_numeral, 14);
    lemma_begins_all(s);
}

proof fn lemma_roman_from_leads(n: nat, k: nat)
    ensures
        roman_from(n, k).len() > 0 ==> leads(roman_from(n, k)[0], k),
    decreases n, numeral_count() - k,
{
    if k < numeral_count() && n > 0 {
        if numeral(k as int).1 <= n {
            lemma_roman_from_leads((n - numeral(k as int).1) as nat, k);
            assert(roman_from(n, k)[0] == numeral(k as int).0[0]);
        } else {
            lemma_roman_from_leads(n, k + 1);
        }
    }
}

proof fn lemma_roman_from_decodes(n: nat, k: nat)
    requires
        k < numeral_count() || n == 0,
    ensures
        roman_value(roman_from(n, k)) == n,
    decreases n, numeral_count() - k,
{
    if k >= numeral_count() || n == 0 {
        assert(first_numeral(Seq::<char>::empty(), 0) is None) by {
            reveal_with_fuel(first_numeral, 14);
            lemma_begins_all(Seq::<char>::empty());
        }
    } else if numeral(k as int).1 <= n {
        let v = numeral(k as int).1;
        let sym = numeral(k as int).0;
        let r = roman_from((n - v) as nat, k);
        let s = sym + r;
        assert(s == roman_from(n, k));
        lemma_roman_from_leads((n - v) as nat, k);
        assert(s.take(sym.len() as int) =~= sym);
        if sym.len() == 1 && s.len() >= 2 {
            assert(s[1] == r[0]);
        }
        lemma_first_numeral_is(s, k);
        lemma_first_numeral(s, 0);
        assert(s.skip(sym.len() as int) =~= r);
        lemma_roman_from_decodes((n - v) as nat, k);
    } else {
        lemma_roman_from_decodes(n, k + 1);
    }
}

/// Every number's standard roman numeral is read back as that number.
pub proof fn law_roman_numerals_read_back(n: nat)
    ensures
        roman_value(roman_numeral_of(n)) == n,
{
    lemma_roman_from_decodes(n, 0);
}

proof fn lemma_first_numeral_ignores_tail(p: Seq<char>, q: Seq<char>)
    requires
        q.len() == 0 || !leads(q[0], 0),
    ensures
        first_numeral(p + q, 0) == first_numeral(p, 0),
        first_numeral(p, 0) matches Some(k) ==> (p + q).skip(numeral(k as int).0.len() as int)
            == p.skip(numeral(k as int).0.len() as int) + q,
{
    reveal_with_fuel(first_numeral, 14);
    lemma_begins_all(p + q);
    lemma_begins_all(p);
    lemma_first_numeral(p, 0);
    if p.len() >= 1 {
        assert((p + q)[0] == p[0]);
    }
    if p.len() >= 2 {
        assert((p + q)[1] == p[1]);
    }
    if p.len() == 1 && q.len() >= 1 {
        assert((p + q)[1] == q[0]);
    }
    if let Some(k) = first_numeral(p, 0) {
        assert((p + q).skip(numeral(k as int).0.len() as int) =~= p.skip(
            numeral(k as int).0.len() as int,
        ) + q);
    }
}

/// Reading stops at the first character that begins no numeral: text after
/// it, or after the end, counts for nothing, and a text that begins with
/// such a character is worth 0.
pub proof fn law_roman_stops_at_a_non_numeral(p: Seq<char>, q: Seq<char>)
    requires
        q.len() == 0 || !leads(q[0], 0),
    ensures
        roman_value(p + q) == roman_value(p),
        roman_value(q) == 0,
    decreases p.len(),
{
    lemma_first_numeral_ignores_tail(p, q);
    lemma_first_numeral(p, 0);
    if let Some(k) = first_numeral(p, 0) {
        law_roman_stops_at_a_non_numeral(p.skip(numeral(k as int).0.len() as int), q);
    }
    lemma_first_numeral_ignores_tail(Seq::empty(), q);
    assert(Seq::<char>::empty() + q =~= q);
    assert(first_numeral(Seq::<char>::empty(), 0) is None) by {
        reveal_with_fuel(first_numeral, 14);
        lemma_begins_all(Seq::<char>::empty());
    }
}

/// What each numeral is worth: M 1000, CM 900, D 500, CD 400, C 100, XC 90,
/// L 50, XL 40, X 10, IX 9, V 5, IV 4, I 1, each read at the start of the
/// text (a pair before its first letter alone) and added to the rest; a
/// text that is empty or begins with any other character is worth 0.
pub proof fn law_roman_numeral_values(s: Seq<char>)
    ensures
        ({
            let r1 = roman_value(s.skip(1));
            let r2 = roman_value(s.skip(2));
            let v = roman_value(s);
            &&& s.len() == 0 ==> v == 0
            &&& s.len() > 0 && s[0] != 'M' && s[0] != 'D' && s[0] != 'C' && s[0] != 'L' && s[0]
                != 'X' && s[0] != 'V' && s[0] != 'I' ==> v == 0
            &&& s.len() > 0 && s[0] == 'M' ==> v == 1000 + r1
            &&& s.len() > 0 && s[0] == 'D' ==> v == 500 + r1
            &&& s.len() > 0 && s[0] == 'L' ==> v == 50 + r1
            &&& s.len() > 0 && s[0] == 'V' ==> v == 5 + r1
            &&& s.len() > 1 && s[0] == 'C' && s[1] == 'M' ==> v == 900 + r2
            &&& s.len() > 1 && s[0] == 'C' && s[1] == 'D' ==> v == 400 + r2
            &&& s.len() > 0 && s[0] == 'C' && !(s.len() > 1 && (s[1] == 'M' || s[1] == 'D'))
                ==> v == 100 + r1
            &&& s.len() > 1 && s[0] == 'X' && s[1] == 'C' ==> v == 90 + r2
            &&& s.len() > 1 && s[0] == 'X' && s[1] == 'L' ==> v == 40 + r2
            &&& s.len() > 0 && s[0] == 'X' && !(s.len() > 1 && (s[1] == 'C' || s[1] == 'L'))
                ==> v == 10 + r1
            &&& s.len() > 1 && s[0] == 'I' && s[1] == 'X' ==> v == 9 + r2
            &&& s.len() > 1 && s[0] == 'I' && s[1] == 'V' ==> v == 4 + r2
            &&& s.len() > 0 && s[0] == 'I' && !(s.len() > 1 && (s[1] == 'X' || s[1] == 'V'))
                ==> v == 1 + r1
        }),
{
    reveal_with_fuel(first_numeral, 14);
    lemma_begins_all(s);
    lemma_first_numeral(s, 0);
}

/// The `k`-th numeral of the table: its first character, its second if it
/// has one, and its value.
fn numeral_entry(k: usize) -> (r: (char, Option<char>, u32))
    requires
        k < 13,
    ensures
        (match r.1 {
            Some(c2) => seq![r.0, c2],
            None => seq![r.0],
        }) == numeral(k as int).0,
        r.2 == numeral(k as int).1,
{
    let r = if k == 0 {
        ('M', None, 1000)
    } else if k == 1 {
        ('C', Some('M'), 900)
    } else if k == 2 {
        ('D', None, 500)
    } else if k == 3 {
        ('C', Some('D'), 400)
    } else if k == 4 {
        ('C', None, 100)
    } else if k == 5 {
        ('X', Some('C'), 90)
    } else if k == 6 {
        ('L', None, 50)
    } else if k == 7 {
        ('X', Some('L'), 40)
    } else if k == 8 {
        ('X', None, 10)
    } else if k == 9 {
        ('I', Some('X'), 9)
    } else if k == 10 {
        ('V', None, 5)
    } else if k == 11 {
        ('I', Some('V'), 4)
    } else {
        ('I', None, 1)
    };
    proof {
        assert(match r.1 {
            Some(c2) => seq![r.0, c2],
            None => seq![r.0],
        } =~= numeral(k as int).0);
    }
    r
}

/// Reads a text as a roman numeral (see `roman_value`); `None` where the
/// value does not fit in a `u32`.
pub fn decode_roman_numeral(roman: &str) -> (r: Option<u32>)
    ensures
        roman_value(roman@) <= u32::MAX ==> r == Some(roman_value(roman@) as u32),
        roman_value(roman@) > u32::MAX ==> r is None,
{
    let cs = chars_of(roman);
    let n = cs.len();
    let mut total: u32 = 0;
    let mut i: usize = 0;
    proof {
        assert(roman@.skip(0) =~= roman@);
    }
    loop
        invariant
            n == roman@.len(),
            cs@ == roman@,
            n == cs.len(),
            i <= n,
            total + roman_value(roman@.skip(i as int)) == roman_value(roman@),
        decreases n - i,
    {
        let ghost rest = roman@.skip(i as int);
        let mut k: usize = 0;
        let mut found: Option<(u32, usize)> = None;
        while k < 13 && found.is_none()
            invariant
                n == roman@.len(),
                cs@ == roman@,
                n == cs.len(),
                i <= n,
                rest == roman@.skip(i as int),
                k <= 13,
                found is None ==> first_numeral(rest, 0) == first_numeral(rest, k as nat),
                found matches Some((v, len)) ==> first_numeral(rest, 0) == Some((k - 1) as nat)
                    && v == numeral(k - 1).1 && len == numeral(k - 1).0.len() && len >= 1,
            decreases 13 - k,
        {
            let (c1, c2, v) = numeral_entry(k);
            let ghost sym = numeral(k as int).0;
            let matches = if i < n && cs[i] == c1 {
                match c2 {
                    Some(c) => i + 1 < n && cs[i + 1] == c,
                    None => true,
                }
            } else {
                false
            };
            proof {
                if matches {
                    assert(rest.take(sym.len() as int) =~= sym);
                } else if sym.len() <= rest.len() {
                    assert(rest.take(sym.len() as int)[0] == rest[0]);
                    if sym.len() == 2 {
                        assert(rest.take(sym.len() as int)[1] == rest[1]);
                    }
                }
            }
            if matches {
                let len: usize = match c2 {
                    Some(_) => 2,
                    None => 1,
                };
                found = Some((v, len));
            }
            k = k + 1;
        }
        match found {
            None => {
                proof {
                    assert(first_numeral(rest, 13) is None);
                }
                return Some(total);
            },
            Some((v, len)) => {
                proof {
                    lemma_first_numeral(rest, 0);
                    assert(len <= rest.len());
                    assert(rest.skip(len as int) =~= roman@.skip(i + len));
                }
                if total > u32::MAX - v {
                    return None;
                }
                total = total + v;
                i = i + len;
            },
        }
    }
}

} // verus!
