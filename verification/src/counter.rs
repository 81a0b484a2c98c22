//! Decimal counters without an upper limit.
//!
//! A [`Counter`] holds a natural number as its decimal digits, so counting up never
//! overflows, and gives the number as the text that is appended to fresh names.

use vstd::prelude::*;

verus! {

/// Appending a character to a `String` (`String::push`) adds exactly that
/// character at the end of its text.
pub assume_specification[ String::push ](s: &mut String, ch: char)
    ensures
        final(s)@ == old(s)@.push(ch),
;

/// The character for one decimal digit.
pub open spec fn digit_char(d: nat) -> char {
    if d == 0 {
        '0'
    } else if d == 1 {
        '1'
    } else if d == 2 {
        '2'
    } else if d == 3 {
        '3'
    } else if d == 4 {
        '4'
    } else if d == 5 {
        '5'
    } else if d == 6 {
        '6'
    } else if d == 7 {
        '7'
    } else if d == 8 {
        '8'
    } else {
        '9'
    }
}

/// Whether `c` is one of the characters `0` to `9`.
pub open spec fn is_digit_char(c: char) -> bool {
    '0' <= c && c <= '9'
}

/// The decimal text of `n`, without leading zeros: `0` is `"0"`, `42` is `"42"`.
pub open spec fn decimal(n: nat) -> Seq<char>
    decreases n,
{
    if n < 10 {
        seq![digit_char(n)]
    } else {
        decimal(n / 10).push(digit_char(n % 10))
    }
}

/// The number that a decimal text stands for; the inverse of [`decimal`].
pub open spec fn decimal_value(text: Seq<char>) -> nat
    decreases text.len(),
{
    if text.len() == 0 {
        0
    } else {
        10 * decimal_value(text.drop_last()) + (text.last() as u8 - '0' as u8) as nat
    }
}

/// The decimal text of a number is never empty and holds digits only.
pub proof fn lemma_decimal_digits(n: nat)
    ensures
        decimal(n).len() > 0,
        forall|i: int| 0 <= i < decimal(n).len() ==> is_digit_char(#[trigger] decimal(n)[i]),
    decreases n,
{
    if n >= 10 {
        lemma_decimal_digits(n / 10);
    }
}

/// Reading the decimal text of `n` gives `n` back.
pub proof fn lemma_decimal_value(n: nat)
    ensures
        decimal_value(decimal(n)) == n,
    decreases n,
{
    if n < 10 {
        let t = decimal(n);
        assert(t.drop_last() =~= Seq::<char>::empty());
        assert(decimal_value(t.drop_last()) == 0);
    } else {
        lemma_decimal_value(n / 10);
        let t = decimal(n);
        assert(t.drop_last() =~= decimal(n / 10));
        assert(t.last() == digit_char(n % 10));
    }
}

/// Two numbers with the same decimal text are the same number.
pub proof fn lemma_decimal_injective(a: nat, b: nat)
    requires
        decimal(a) == decimal(b),
    ensures
        a == b,
{
    lemma_decimal_value(a);
    lemma_decimal_value(b);
}

/// The number that decimal digits stand for when the lowest digit comes first.
pub open spec fn digits_value(digits: Seq<u8>) -> nat
    decreases digits.len(),
{
    if digits.len() == 0 {
        0
    } else {
        digits[0] as nat + 10 * digits_value(digits.drop_first())
    }
}

/// Digits that stand for a number in exactly one way: at least one digit, each
/// below ten, and no zero in the highest place unless the number is zero.
pub open spec fn digits_canonical(digits: Seq<u8>) -> bool {
    &&& digits.len() > 0
    &&& forall|i: int| 0 <= i < digits.len() ==> #[trigger] digits[i] < 10
    &&& (digits.len() > 1 ==> digits.last() != 0)
}

/// The characters of `digits`, highest place first, from place `from` downwards.
pub open spec fn digits_text(digits: Seq<u8>, from: int) -> Seq<char>
    decreases from,
{
    if from <= 0 || from > digits.len() {
        Seq::empty()
    } else {
        seq![digit_char(digits[from - 1] as nat)] + digits_text(digits, from - 1)
    }
}

proof fn lemma_digits_value_positive(digits: Seq<u8>)
    requires
        digits.len() > 0,
        digits.last() != 0,
    ensures
        digits_value(digits) > 0,
    decreases digits.len(),
{
    if digits.len() > 1 {
        assert(digits.drop_first().last() == digits.last());
        lemma_digits_value_positive(digits.drop_first());
    }
}

proof fn lemma_digits_text_shift(digits: Seq<u8>, from: int)
    requires
        0 <= from < digits.len(),
    ensures
        digits_text(digits.drop_first(), from) == digits_text(digits, from + 1).drop_last(),
        digits_text(digits, from + 1).len() == from + 1,
        digits_text(digits, from + 1).last() == digit_char(digits[0] as nat),
    decreases from,
{
    let rest = digits.drop_first();
    if from == 0 {
        assert(digits_text(digits, 0) =~= Seq::<char>::empty());
        assert(digits_text(digits, 1) =~= seq![digit_char(digits[0] as nat)]);
        assert(digits_text(rest, 0) =~= digits_text(digits, 1).drop_last());
    } else {
        lemma_digits_text_shift(digits, from - 1);
        assert(rest[from - 1] == digits[from]);
        assert(digits_text(rest, from) =~= digits_text(digits, from + 1).drop_last());
    }
}

/// Canonical digits, read from the highest place, are the decimal text of their
/// value.
proof fn lemma_digits_text_is_decimal(digits: Seq<u8>)
    requires
        digits_canonical(digits),
    ensures
        digits_text(digits, digits.len() as int) == decimal(digits_value(digits)),
    decreases digits.len(),
{
    let n = digits_value(digits);
    if digits.len() == 1 {
        assert(digits.drop_first() =~= Seq::<u8>::empty());
        assert(digits_value(digits.drop_first()) == 0);
        assert(digits_text(digits, 0) =~= Seq::<char>::empty());
        assert(digits_text(digits, 1) =~= seq![digit_char(digits[0] as nat)]);
    } else {
        let rest = digits.drop_first();
        assert(rest.last() == digits.last());
        assert(digits_canonical(rest));
        lemma_digits_value_positive(rest);
        lemma_digits_text_is_decimal(rest);
        lemma_digits_text_shift(digits, digits.len() as int - 1);
        let m = digits_value(rest);
        assert(n == digits[0] as nat + 10 * m);
        assert(n / 10 == m && n % 10 == digits[0] as nat);
        assert(digits_text(digits, digits.len() as int) =~= decimal(m).push(
            digit_char(digits[0] as nat),
        ));
    }
}

/// A natural number that can always be counted up.
pub struct Counter {
    digits: Vec<u8>,
}

impl Counter {
    /// The number held.
    pub closed spec fn value(&self) -> nat {
        digits_value(self.digits@)
    }

    /// The digits are canonical.
    pub closed spec fn wf(&self) -> bool {
        digits_canonical(self.digits@)
    }

    /// The counter at zero.
    pub fn new() -> (counter: Self)
        ensures
            counter.wf(),
            counter.value() == 0,
    {
        let mut digits: Vec<u8> = Vec::new();
        digits.push(0);
        proof {
            assert(digits@.drop_first() =~= Seq::<u8>::empty());
            assert(digits_value(digits@.drop_first()) == 0);
        }
        Counter { digits }
    }

    /// The decimal text of the number held.
    pub fn to_text(&self) -> (text: String)
        requires
            self.wf(),
        ensures
            text@ == decimal(self.value()),
    {
        let mut text = String::new();
        let mut i: usize = self.digits.len();
        assert(digits_text(self.digits@, i as int) =~= text@ + digits_text(self.digits@, i as int));
        while i > 0
            invariant
                i <= self.digits.len(),
                self.wf(),
                digits_text(self.digits@, self.digits.len() as int) == text@ + digits_text(
                    self.digits@,
                    i as int,
                ),
            decreases i,
        {
            let c = digit_to_char(self.digits[i - 1]);
            let ghost before = text@;
            text.push(c);
            proof {
                let rest = digits_text(self.digits@, i - 1);
                assert(digits_text(self.digits@, i as int) =~= seq![c] + rest);
                assert(text@ + rest =~= before + (seq![c] + rest));
            }
            i -= 1;
        }
        proof {
            assert(digits_text(self.digits@, 0) =~= Seq::<char>::empty());
            assert(text@ + Seq::<char>::empty() =~= text@);
            lemma_digits_text_is_decimal(self.digits@);
        }
        text
    }

    /// Counts up by one.
    pub fn increment(&mut self)
        requires
            old(self).wf(),
        ensures
            final(self).wf(),
            final(self).value() == old(self).value() + 1,
    {
        let mut i: usize = 0;
        while i < self.digits.len() && self.digits[i] == 9
            invariant
                i <= self.digits.len(),
                self.digits@.len() == old(self).digits@.len(),
                forall|j: int| 0 <= j < i ==> self.digits@[j] == 0 && old(self).digits@[j] == 9,
                forall|j: int| i <= j < self.digits@.len() ==> self.digits@[j] == old(self).digits@[j],
                digits_canonical(old(self).digits@),
            decreases self.digits.len() - i,
        {
            self.digits.set(i, 0);
            i += 1;
        }
        if i == self.digits.len() {
            self.digits.push(1);
        } else {
            let d = self.digits[i];
            self.digits.set(i, d + 1);
        }
        proof {
            lemma_carry(old(self).digits@, self.digits@, i as int);
        }
    }
}

/// Adding one to digits whose lowest `carried` places are all nine: those places
/// become zero and the next place goes up by one, or a new highest place holds one.
proof fn lemma_carry(before: Seq<u8>, after: Seq<u8>, carried: int)
    requires
        digits_canonical(before),
        0 <= carried <= before.len(),
        forall|j: int| 0 <= j < carried ==> after[j] == 0 && before[j] == 9,
        carried == before.len() ==> after.len() == before.len() + 1 && after[carried] == 1,
        carried < before.len() ==> after.len() == before.len() && before[carried] != 9
            && after[carried] == before[carried] + 1,
        forall|j: int| carried < j < before.len() ==> after[j] == before[j],
    ensures
        digits_canonical(after),
        digits_value(after) == digits_value(before) + 1,
    decreases carried,
{
    if carried == 0 {
        if before.len() == 0 {
        } else {
            assert(after.drop_first() =~= before.drop_first());
        }
    } else {
        let b = before.drop_first();
        let a = after.drop_first();
        if before.len() == 1 {
            assert(b =~= Seq::<u8>::empty());
            assert(a =~= seq![1u8]);
            assert(a.drop_first() =~= Seq::<u8>::empty());
            assert(digits_value(a.drop_first()) == 0);
            assert(digits_value(a) == 1);
            assert(digits_value(b) == 0);
        } else {
            assert(b.last() == before.last());
            assert(digits_canonical(b));
            lemma_carry(b, a, carried - 1);
        }
        assert(after.last() != 0);
    }
}

/// The character of one decimal digit.
fn digit_to_char(d: u8) -> (c: char)
    requires
        d < 10,
    ensures
        c == digit_char(d as nat),
{
    if d == 0 {
        '0'
    } else if d == 1 {
        '1'
    } else if d == 2 {
        '2'
    } else if d == 3 {
        '3'
    } else if d == 4 {
        '4'
    } else if d == 5 {
        '5'
    } else if d == 6 {
        '6'
    } else if d == 7 {
        '7'
    } else if d == 8 {
        '8'
    } else {
        '9'
    }
}

} // verus!
