//! Decimal text: the digits of the numbers that a log line holds.

use vstd::prelude::*;

verus! {

/// The ASCII digit for `n`, where `0 <= n <= 9`.
pub open spec fn digit(n: int) -> u8 {
    (48 + n) as u8
}

/// Whether `b` is an ASCII digit.
pub open spec fn is_digit(b: u8) -> bool {
    48 <= b <= 57
}

/// The number that the ASCII digit `b` stands for.
pub open spec fn digit_value(b: u8) -> int {
    b - 48
}

/// `n` written with exactly two digits, for `0 <= n <= 99`.
pub open spec fn two_digits(n: int) -> Seq<u8> {
    seq![digit(n / 10), digit(n % 10)]
}

/// `n` written with exactly four digits, for `0 <= n <= 9999`.
pub open spec fn four_digits(n: int) -> Seq<u8> {
    seq![digit(n / 1000), digit((n / 100) % 10), digit((n / 10) % 10), digit(n % 10)]
}

/// `n` written in decimal with no leading zero (`0` itself is one digit).
pub open spec fn decimal(n: nat) -> Seq<u8>
    decreases n,
{
    if n < 10 {
        seq![digit(n as int)]
    } else {
        decimal(n / 10).push(digit((n % 10) as int))
    }
}

/// Whether every byte of `s` is an ASCII digit.
pub open spec fn all_digits(s: Seq<u8>) -> bool {
    forall|i: int| 0 <= i < s.len() ==> is_digit(#[trigger] s[i])
}

/// The number that the digits of `s` spell, most significant first.
pub open spec fn digits_value(s: Seq<u8>) -> nat
    decreases s.len(),
{
    if s.len() == 0 {
        0
    } else {
        (digits_value(s.drop_last()) * 10 + digit_value(s.last())) as nat
    }
}

/// Whether `s` is the way `decimal` writes a number: digits only, at least
/// one, and no zero in front of another digit.
pub open spec fn canonical(s: Seq<u8>) -> bool {
    &&& s.len() >= 1
    &&& all_digits(s)
    &&& (s.len() > 1 ==> s[0] != 48)
}

/// `decimal(n)` is canonical and spells `n`.
pub proof fn lemma_decimal_spells(n: nat)
    ensures
        canonical(decimal(n)),
        digits_value(decimal(n)) == n,
        n >= 10 ==> decimal(n).len() >= 2,
        n < 10 ==> decimal(n).len() == 1,
    decreases n,
{
    if n < 10 {
        let s = decimal(n);
        assert(s.drop_last() =~= Seq::<u8>::empty());
        assert(digits_value(s.drop_last()) == 0);
    } else {
        let head = decimal(n / 10);
        let s = decimal(n);
        lemma_decimal_spells(n / 10);
        assert(s.drop_last() =~= head);
        assert(s.last() == digit((n % 10) as int));
        assert(s[0] == head[0]);
        if n / 10 < 10 {
            assert(head[0] == digit((n / 10) as int));
        }
        assert forall|i: int| 0 <= i < s.len() implies is_digit(#[trigger] s[i]) by {
            if i < head.len() {
                assert(s[i] == head[i]);
            }
        }
    }
}

/// A canonical string is the decimal text of the number it spells.
pub proof fn lemma_canonical_is_decimal(s: Seq<u8>)
    requires
        canonical(s),
    ensures
        decimal(digits_value(s)) == s,
        s.len() > 1 ==> digits_value(s) >= 10,
    decreases s.len(),
{
    if s.len() == 1 {
        assert(s.drop_last() =~= Seq::<u8>::empty());
        assert(digits_value(s.drop_last()) == 0);
        assert(is_digit(s[0]));
        assert(decimal(digits_value(s)) =~= s);
    } else {
        let head = s.drop_last();
        assert forall|i: int| 0 <= i < head.len() implies is_digit(#[trigger] head[i]) by {
            assert(head[i] == s[i]);
        }
        assert(head[0] == s[0]);
        lemma_canonical_is_decimal(head);
        assert(is_digit(s.last()));
        assert(is_digit(head[0]));
        let v = digits_value(head);
        if head.len() == 1 {
            assert(head.drop_last() =~= Seq::<u8>::empty());
            assert(digits_value(head.drop_last()) == 0);
            assert(v == digit_value(head[0]));
            assert(v >= 1);
        }
        let n = digits_value(s);
        assert(n == v * 10 + digit_value(s.last()));
        assert(n / 10 == v);
        assert(n % 10 == digit_value(s.last()));
        assert(decimal(n) =~= s);
    }
}

/// Digits only spell more as more of them are read: a prefix of a digit
/// string never spells more than the whole.
pub proof fn lemma_prefix_spells_less(s: Seq<u8>, k: int)
    requires
        0 <= k <= s.len(),
        all_digits(s),
    ensures
        digits_value(s.take(k)) <= digits_value(s),
    decreases s.len() - k,
{
    if k == s.len() {
        assert(s.take(k) =~= s);
    } else {
        let head = s.drop_last();
        assert forall|i: int| 0 <= i < head.len() implies is_digit(#[trigger] head[i]) by {
            assert(head[i] == s[i]);
        }
        assert(is_digit(s.last()));
        lemma_prefix_spells_less(head, k);
        assert(head.take(k) =~= s.take(k));
    }
}

/// Appends `n` to `out` as two digits.
pub(crate) fn push_two_digits(out: &mut Vec<u8>, n: u8)
    requires
        n <= 99,
    ensures
        final(out)@ == old(out)@ + two_digits(n as int),
{
    out.push(48 + n / 10);
    out.push(48 + n % 10);
    assert(out@ =~= old(out)@ + two_digits(n as int));
}

/// Appends `n` to `out` as four digits.
pub(crate) fn push_four_digits(out: &mut Vec<u8>, n: u16)
    requires
        n <= 9999,
    ensures
        final(out)@ == old(out)@ + four_digits(n as int),
{
    out.push(48 + (n / 1000) as u8);
    out.push(48 + ((n / 100) % 10) as u8);
    out.push(48 + ((n / 10) % 10) as u8);
    out.push(48 + (n % 10) as u8);
    assert(out@ =~= old(out)@ + four_digits(n as int));
}

/// Appends the decimal text of `n` to `out`.
pub(crate) fn push_decimal(out: &mut Vec<u8>, n: u32)
    ensures
        final(out)@ == old(out)@ + decimal(n as nat),
    decreases n,
{
    if n >= 10 {
        push_decimal(out, n / 10);
    }
    out.push(48 + (n % 10) as u8);
    assert(out@ =~= old(out)@ + decimal(n as nat));
}

/// Reads the two digits at `s[at]` and `s[at + 1]`.
pub(crate) fn read_two_digits(s: &[u8], at: usize) -> (value: Option<u8>)
    requires
        at + 2 <= s@.len(),
    ensures
        value is Some <==> is_digit(s@[at as int]) && is_digit(s@[at + 1]),
        value matches Some(v) ==> v == digit_value(s@[at as int]) * 10 + digit_value(s@[at + 1]),
{
    let high: u8 = s[at];
    let low: u8 = s[at + 1];
    if high < 48 || high > 57 || low < 48 || low > 57 {
        None
    } else {
        Some((high - 48) * 10 + (low - 48))
    }
}

/// Reads the number that `s` holds from `from` to its end, where that part
/// is canonical decimal text of a 32-bit number.
pub(crate) fn read_decimal(s: &[u8], from: usize) -> (value: Option<u32>)
    requires
        from <= s@.len(),
    ensures
        value is Some <==> {
            &&& canonical(s@.skip(from as int))
            &&& digits_value(s@.skip(from as int)) <= u32::MAX
        },
        value matches Some(n) ==> n == digits_value(s@.skip(from as int)),
{
    let end: usize = s.len();
    let ghost tail = s@.skip(from as int);
    if from >= end {
        return None;
    }
    if s[from] == 48 && end - from > 1 {
        assert(tail[0] == s@[from as int]);
        return None;
    }
    let mut total: u64 = 0;
    let mut at: usize = from;
    while at < end
        invariant
            from <= at <= end,
            end == s@.len(),
            tail == s@.skip(from as int),
            all_digits(tail.take(at - from)),
            total == digits_value(tail.take(at - from)),
            total <= u32::MAX,
        decreases end - at,
    {
        let b: u8 = s[at];
        let ghost before = tail.take(at - from);
        let ghost after = tail.take(at + 1 - from);
        proof {
            assert(after.drop_last() =~= before);
            assert(after.last() == b);
        }
        if b < 48 || b > 57 {
            assert(tail[at - from] == b);
            return None;
        }
        total = total * 10 + (b - 48) as u64;
        proof {
            assert forall|i: int| 0 <= i < after.len() implies is_digit(#[trigger] after[i]) by {
                if i < before.len() {
                    assert(after[i] == before[i]);
                }
            }
        }
        if total > 0xFFFF_FFFF {
            proof {
                if all_digits(tail) {
                    lemma_prefix_spells_less(tail, at + 1 - from);
                }
            }
            return None;
        }
        at = at + 1;
    }
    assert(tail.take(at - from) =~= tail);
    assert(tail[0] == s@[from as int]);
    Some(total as u32)
}

} // verus!
