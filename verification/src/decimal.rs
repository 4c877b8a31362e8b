//! Numbers as decimal text.

use vstd::prelude::*;
use vstd::slice::slice_subrange;

use crate::response::{Response, RESPONSE_CAPACITY};
use crate::text::{lemma_ascii_is_utf8, str_from_utf8};

verus! {

/// The decimal digits of a number, without leading zeros.
pub open spec fn decimal(n: nat) -> Seq<u8>
    decreases n,
{
    if n < 10 {
        seq![('0' as nat + n) as u8]
    } else {
        decimal(n / 10).push(('0' as nat + n % 10) as u8)
    }
}

/// A number of tenths as text with one decimal place.
pub open spec fn with_tenths(tenths: int) -> Seq<u8> {
    let size = if tenths < 0 {
        (-tenths) as nat
    } else {
        tenths as nat
    };
    let sign: Seq<u8> = if tenths < 0 {
        seq!['-' as u8]
    } else {
        Seq::empty()
    };
    sign + decimal(size / 10) + seq!['.' as u8] + decimal(size % 10)
}

/// The number that decimal digits stand for.
pub open spec fn decimal_value(digits: Seq<u8>) -> int
    decreases digits.len(),
{
    if digits.len() == 0 {
        0
    } else {
        10 * decimal_value(digits.drop_last()) + (digits.last() - '0' as u8)
    }
}

/// Reading the digits of a number gives the number back.
pub proof fn law_decimal_round_trip(n: nat)
    ensures
        decimal_value(decimal(n)) == n,
    decreases n,
{
    if n < 10 {
        assert(decimal(n).drop_last() =~= Seq::empty());
        assert(decimal_value(decimal(n).drop_last()) == 0);
    } else {
        law_decimal_round_trip(n / 10);
        assert(decimal(n).drop_last() =~= decimal(n / 10));
    }
}

/// A number is written in digits, and only zero starts with a zero.
pub proof fn law_decimal_is_digits(n: nat)
    ensures
        decimal(n).len() > 0,
        forall|i: int|
            0 <= i < decimal(n).len() ==> '0' as u8 <= #[trigger] decimal(n)[i] <= '9' as u8,
        n > 0 ==> decimal(n)[0] != '0' as u8,
        n == 0 ==> decimal(n).len() == 1,
    decreases n,
{
    if n >= 10 {
        law_decimal_is_digits(n / 10);
    }
}

/// Whether a text is a number in decimal digits, without leading zeros.
pub open spec fn reads_as(text: Seq<u8>, n: int) -> bool {
    &&& text.len() > 0
    &&& forall|i: int| 0 <= i < text.len() ==> 0x30 <= #[trigger] text[i] <= 0x39
    &&& text.len() > 1 ==> text[0] != 0x30
    &&& decimal_value(text) == n
}

/// Whether a text is a number of tenths with one decimal place: a minus sign before what
/// is below zero and nothing else, the whole part in digits without leading zeros, a
/// point, and one digit.
pub open spec fn reads_as_tenths(text: Seq<u8>, tenths: int) -> bool {
    let size = if tenths < 0 {
        -tenths
    } else {
        tenths
    };
    let unsigned = if tenths < 0 {
        text.drop_first()
    } else {
        text
    };
    let whole = unsigned.take(unsigned.len() - 2);
    &&& text.len() > 0
    &&& (text[0] == 0x2D) == (tenths < 0)
    &&& unsigned.len() >= 3
    &&& unsigned[unsigned.len() - 2] == 0x2E
    &&& 0x30 <= unsigned.last() <= 0x39
    &&& reads_as(whole, decimal_value(whole))
    &&& 10 * decimal_value(whole) + (unsigned.last() - 0x30) == size
}

/// The digits of a number, read as decimal digits, are that number.
pub proof fn law_decimal_reads_back(n: nat)
    ensures
        reads_as(decimal(n), n as int),
{
    law_decimal_is_digits(n);
    law_decimal_round_trip(n);
}

/// A number of tenths, read as a signed number with one decimal place, is that number.
pub proof fn law_tenths_read_back(tenths: int)
    ensures
        reads_as_tenths(with_tenths(tenths), tenths),
{
    let size: nat = if tenths < 0 {
        (-tenths) as nat
    } else {
        tenths as nat
    };
    let text = with_tenths(tenths);
    let unsigned = decimal(size / 10) + seq!['.' as u8] + decimal(size % 10);
    law_decimal_reads_back(size / 10);
    law_decimal_reads_back(size % 10);
    assert(decimal(size % 10) =~= seq![('0' as nat + size % 10) as u8]);
    if tenths < 0 {
        assert(text.drop_first() =~= unsigned);
    } else {
        assert(text =~= unsigned);
    }
    assert(unsigned.take(unsigned.len() - 2) =~= decimal(size / 10));
    assert(unsigned.last() == decimal(size % 10)[0]);
    assert(unsigned[0] == decimal(size / 10)[0]);
}

spec fn power_of_ten(k: nat) -> nat
    decreases k,
{
    if k == 0 {
        1
    } else {
        10 * power_of_ten((k - 1) as nat)
    }
}

proof fn lemma_u64_has_20_digits()
    ensures
        u64::MAX < power_of_ten(20),
{
    reveal_with_fuel(power_of_ten, 21);
}

proof fn lemma_digit_count(n: nat, k: nat)
    requires
        0 < k,
        n < power_of_ten(k),
    ensures
        decimal(n).len() <= k,
    decreases k,
{
    if n >= 10 {
        reveal_with_fuel(power_of_ten, 2);
        lemma_digit_count(n / 10, (k - 1) as nat);
    }
}

/// No 64-bit number has more than 20 digits.
pub proof fn lemma_decimal_len(n: nat)
    requires
        n <= u64::MAX,
    ensures
        0 < decimal(n).len() <= 20,
        n <= u16::MAX ==> decimal(n).len() <= 5,
        n < 10 ==> decimal(n).len() == 1,
{
    law_decimal_is_digits(n);
    lemma_u64_has_20_digits();
    lemma_digit_count(n, 20);
    if n <= u16::MAX {
        reveal_with_fuel(power_of_ten, 6);
        lemma_digit_count(n, 5);
    }
}

/// Writes the digits of a number to the end of `buf`, and returns where they start.
fn write_decimal(n: u64, buf: &mut [u8; 20]) -> (start: usize)
    ensures
        start < 20,
        final(buf)@.skip(start as int) == decimal(n as nat),
{
    let mut left: u64 = n / 10;
    let mut at: usize = 19;
    buf[19] = 0x30 + (n % 10) as u8;
    proof {
        lemma_u64_has_20_digits();
        reveal_with_fuel(power_of_ten, 2);
        assert(left == 0 ==> buf@.skip(19) =~= decimal(n as nat));
        assert(left > 0 ==> decimal(left as nat) + buf@.skip(19) =~= decimal(n as nat));
    }
    while left > 0
        invariant
            at < 20,
            left < power_of_ten(at as nat),
            left == 0 ==> buf@.skip(at as int) == decimal(n as nat),
            left > 0 ==> decimal(left as nat) + buf@.skip(at as int) == decimal(n as nat),
        decreases left,
    {
        proof {
            reveal_with_fuel(power_of_ten, 2);
        }
        let ghost before = buf@;
        let digit: u8 = 0x30 + (left % 10) as u8;
        at -= 1;
        buf[at] = digit;
        proof {
            assert(buf@.skip(at as int) =~= seq![digit] + before.skip(at + 1));
            if left < 10 {
                assert(decimal(left as nat) =~= seq![digit]);
            } else {
                assert(decimal(left as nat) =~= decimal((left / 10) as nat) + seq![digit]);
                assert(decimal((left / 10) as nat) + (seq![digit] + before.skip(at + 1)) =~= (
                decimal((left / 10) as nat) + seq![digit]) + before.skip(at + 1));
            }
        }
        left = left / 10;
    }
    at
}

impl Response {
    /// Appends the decimal digits of a number, where they fit.
    pub(crate) fn push_decimal(&mut self, n: u64) -> (pushed: bool)
        ensures
            pushed == (old(self)@.len() + decimal(n as nat).len() <= RESPONSE_CAPACITY),
            final(self)@ == if pushed {
                old(self)@ + decimal(n as nat)
            } else {
                old(self)@
            },
    {
        let mut buf: [u8; 20] = [0u8; 20];
        let start: usize = write_decimal(n, &mut buf);
        let digits: &[u8] = slice_subrange(buf.as_slice(), start, 20);
        proof {
            assert(digits@ =~= decimal(n as nat));
            law_decimal_is_digits(n as nat);
            lemma_ascii_is_utf8(digits@);
        }
        self.push_str(str_from_utf8(digits).unwrap())
    }
}

} // verus!
