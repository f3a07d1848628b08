//! Decimal numerals of any length: their value, their canonical spelling, and the numeral that
//! follows a given one.

use vstd::prelude::*;
use crate::text::from_chars;

verus! {

/// An ASCII decimal digit.
pub open spec fn is_digit(c: char) -> bool {
    '0' <= c && c <= '9'
}

/// Every character of `s` is an ASCII decimal digit.
pub open spec fn is_digits(s: Seq<char>) -> bool {
    forall|i: int| 0 <= i < s.len() ==> is_digit(#[trigger] s[i])
}

/// The number that the digit `c` stands for.
pub open spec fn digit_value(c: char) -> nat {
    (c as u32 - 48) as nat
}

/// The digit that stands for `d`, for `d < 10`.
pub open spec fn digit_char(d: nat) -> char {
    ((d + 48) as u8) as char
}

/// The number that the numeral `s` stands for; the empty numeral stands for zero.
pub open spec fn decimal_value(s: Seq<char>) -> nat
    decreases s.len(),
{
    if s.len() == 0 {
        0
    } else {
        decimal_value(s.drop_last()) * 10 + digit_value(s.last())
    }
}

/// The numeral for `n` without leading zeros (`0` for zero).
pub open spec fn decimal_text(n: nat) -> Seq<char>
    decreases n,
{
    if n < 10 {
        seq![digit_char(n)]
    } else {
        decimal_text(n / 10).push(digit_char(n % 10))
    }
}

/// A non-empty numeral without a leading zero, or the numeral `0`.
pub open spec fn is_canonical(s: Seq<char>) -> bool {
    &&& is_digits(s)
    &&& s.len() >= 1
    &&& s.len() > 1 ==> s[0] != '0'
}

/// `decimal_text` spells canonical numerals.
pub proof fn lemma_text_is_canonical(n: nat)
    ensures
        is_canonical(decimal_text(n)),
        n > 0 ==> decimal_text(n)[0] != '0',
    decreases n,
{
    if n >= 10 {
        lemma_text_is_canonical(n / 10);
    }
}

/// Reading back the numeral of `n` gives `n`.
pub proof fn lemma_value_of_text(n: nat)
    ensures
        decimal_value(decimal_text(n)) == n,
    decreases n,
{
    if n < 10 {
        let s = decimal_text(n);
        assert(s.drop_last() =~= Seq::<char>::empty());
        assert(decimal_value(s.drop_last()) == 0);
    } else {
        lemma_value_of_text(n / 10);
        let s = decimal_text(n);
        assert(s.drop_last() =~= decimal_text(n / 10));
    }
}

/// A numeral that starts with a digit other than zero stands for a positive number.
pub proof fn lemma_value_positive(s: Seq<char>)
    requires
        is_digits(s),
        s.len() >= 1,
        s[0] != '0',
    ensures
        decimal_value(s) >= 1,
    decreases s.len(),
{
    if s.len() > 1 {
        lemma_value_positive(s.drop_last());
    }
}

/// A canonical numeral is the spelling of its own value.
pub proof fn lemma_text_of_value(s: Seq<char>)
    requires
        is_canonical(s),
    ensures
        decimal_text(decimal_value(s)) == s,
    decreases s.len(),
{
    let p = s.drop_last();
    let c = s.last();
    if s.len() == 1 {
        assert(p =~= Seq::<char>::empty());
        assert(decimal_value(s) == digit_value(c));
        assert(decimal_text(decimal_value(s)) =~= s);
    } else {
        lemma_value_positive(p);
        lemma_text_of_value(p);
        let v = decimal_value(s);
        assert(v / 10 == decimal_value(p));
        assert(v % 10 == digit_value(c));
        assert(decimal_text(v) =~= s);
    }
}

/// Zeros in front of a numeral do not change its value.
pub proof fn lemma_leading_zeros(s: Seq<char>, k: int)
    requires
        0 <= k <= s.len(),
        forall|i: int| 0 <= i < k ==> s[i] == '0',
    ensures
        decimal_value(s) == decimal_value(s.skip(k)),
    decreases s.len(),
{
    if k == 0 {
        assert(s.skip(0) =~= s);
    } else if k == s.len() {
        lemma_leading_zeros(s.drop_last(), k - 1);
        assert(s.drop_last().skip(k - 1) =~= s.skip(k));
    } else {
        lemma_leading_zeros(s.drop_last(), k);
        assert(s.drop_last().skip(k) =~= s.skip(k).drop_last());
    }
}

/// Zeros appended to the successor of a numeral give the successor of that numeral followed by
/// as many nines.
pub proof fn lemma_carry(x: Seq<char>, y: Seq<char>, t: nat)
    requires
        decimal_value(y) == decimal_value(x) + 1,
    ensures
        decimal_value(y + Seq::new(t, |i: int| '0')) == decimal_value(
            x + Seq::new(t, |i: int| '9'),
        ) + 1,
    decreases t,
{
    let zeros = Seq::new(t, |i: int| '0');
    let nines = Seq::new(t, |i: int| '9');
    if t == 0 {
        assert(y + zeros =~= y);
        assert(x + nines =~= x);
    } else {
        let fewer = (t - 1) as nat;
        lemma_carry(x, y, fewer);
        assert((y + zeros).drop_last() =~= y + Seq::new(fewer, |i: int| '0'));
        assert((x + nines).drop_last() =~= x + Seq::new(fewer, |i: int| '9'));
    }
}

/// Whether `c` is an ASCII decimal digit.
pub fn is_ascii_digit(c: char) -> (b: bool)
    ensures
        b == is_digit(c),
{
    '0' <= c && c <= '9'
}

/// The digits of the canonical numeral of `n`.
fn digits_of(n: usize) -> (digits: Vec<char>)
    ensures
        digits@ == decimal_text(n as nat),
    decreases n,
{
    if n < 10 {
        let mut digits: Vec<char> = Vec::new();
        digits.push(((n as u8) + 48) as char);
        assert(digits@ =~= decimal_text(n as nat));
        digits
    } else {
        let mut digits = digits_of(n / 10);
        digits.push((((n % 10) as u8) + 48) as char);
        digits
    }
}

/// The canonical numeral of `n`.
pub fn numeral(n: usize) -> (text: String)
    ensures
        text@ == decimal_text(n as nat),
{
    let digits = digits_of(n);
    from_chars(&digits)
}

/// The digit after `c`, for a digit below nine.
fn next_digit(c: char) -> (d: char)
    requires
        is_digit(c),
        c != '9',
    ensures
        is_digit(d),
        d != '0',
        digit_value(d) == digit_value(c) + 1,
{
    let below: u8 = ((c as u32) - 48) as u8;
    (below + 49) as char
}

/// The canonical numeral of the number after the one that `digits` stands for. The numeral may
/// be of any length, so no count is too large to be followed.
pub(crate) fn successor(digits: &[char]) -> (next: Vec<char>)
    requires
        is_digits(digits@),
    ensures
        next@ == decimal_text(decimal_value(digits@) + 1),
{
    let n = digits.len();
    let mut lead: usize = 0;
    while lead < n && digits[lead] == '0'
        invariant
            lead <= n,
            n == digits@.len(),
            forall|i: int| 0 <= i < lead ==> digits@[i] == '0',
        decreases n - lead,
    {
        lead += 1;
    }
    let mut nines: usize = 0;
    while nines < n - lead && digits[n - 1 - nines] == '9'
        invariant
            lead <= n,
            nines <= n - lead,
            n == digits@.len(),
            forall|i: int| n - nines <= i < n ==> digits@[i] == '9',
        decreases n - lead - nines,
    {
        nines += 1;
    }
    let ghost core = digits@.skip(lead as int);
    let ghost kept = digits@.subrange(lead as int, n - nines);
    let ghost tail = Seq::new(nines as nat, |i: int| '9');
    let mut next: Vec<char> = Vec::new();
    let ghost head: Seq<char>;
    if nines == n - lead {
        next.push('1');
        proof {
            head = seq!['1'];
            assert(kept =~= Seq::<char>::empty());
            assert(head.drop_last() =~= kept);
            assert(decimal_value(head) == decimal_value(kept) + 1);
        }
    } else {
        let pivot = n - 1 - nines;
        let mut i: usize = lead;
        while i < pivot
            invariant
                lead <= i <= pivot,
                pivot < n,
                n == digits@.len(),
                next@ == digits@.subrange(lead as int, i as int),
            decreases pivot - i,
        {
            next.push(digits[i]);
            i += 1;
        }
        next.push(next_digit(digits[pivot]));
        proof {
            head = next@;
            assert(head.drop_last() =~= kept.drop_last());
            assert(decimal_value(head) == decimal_value(kept) + 1);
        }
    }
    let mut z: usize = 0;
    while z < nines
        invariant
            z <= nines,
            next@ == head + Seq::new(z as nat, |i: int| '0'),
        decreases nines - z,
    {
        next.push('0');
        z += 1;
    }
    proof {
        assert(core =~= kept + tail);
        lemma_leading_zeros(digits@, lead as int);
        lemma_carry(kept, head, nines as nat);
        assert(is_canonical(next@));
        lemma_text_of_value(next@);
    }
    next
}

} // verus!
