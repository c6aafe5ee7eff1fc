//! Reading back what is written: numbers from digits and bytes, bytes from hexadecimal.
use vstd::arithmetic::div_mod::{lemma_div_denominator, lemma_fundamental_div_mod};
use vstd::arithmetic::power::{lemma_pow1, lemma_pow_adds, lemma_pow_positive, pow};
use vstd::prelude::*;
use crate::numbers::{big_endian, number, U256};
use crate::text::{decimal, hex, hex_digit};

verus! {

/// The number that bytes stand for, the most significant first.
pub open spec fn bytes_value(bytes: Seq<u8>) -> nat
    decreases bytes.len(),
{
    if bytes.len() == 0 {
        0
    } else {
        256 * bytes_value(bytes.drop_last()) + bytes.last() as nat
    }
}

/// The number that decimal digits stand for, the most significant first.
pub open spec fn digits_value(text: Seq<char>) -> int
    decreases text.len(),
{
    if text.len() == 0 {
        0
    } else {
        10 * digits_value(text.drop_last()) + (text.last() as int - '0' as int)
    }
}

/// The text is the number in decimal digits, without leading zeros.
pub open spec fn spells_number(text: Seq<char>, n: nat) -> bool {
    &&& text.len() > 0
    &&& forall|i: int| 0 <= i < text.len() ==> '0' <= #[trigger] text[i] <= '9'
    &&& text.len() > 1 ==> text[0] != '0'
    &&& digits_value(text) == n
}

/// The character is a lower-case hexadecimal digit.
pub open spec fn is_hex(c: char) -> bool {
    '0' <= c <= '9' || 'a' <= c <= 'f'
}

/// What a hexadecimal digit counts.
pub open spec fn hex_value(c: char) -> int {
    if c <= '9' {
        c as int - '0' as int
    } else {
        c as int - 'a' as int + 10
    }
}

/// The text is the bytes in hexadecimal: `0x`, then two lower-case digits for each byte, the more
/// significant first.
pub open spec fn spells_bytes(text: Seq<char>, bytes: Seq<u8>) -> bool {
    &&& text.len() == 2 + 2 * bytes.len()
    &&& text[0] == '0'
    &&& text[1] == 'x'
    &&& forall|i: int|
        0 <= i < bytes.len() ==> {
            &&& is_hex(text[2 + 2 * i])
            &&& is_hex(text[3 + 2 * i])
            &&& 16 * hex_value(text[2 + 2 * i]) + hex_value(text[3 + 2 * i]) == #[trigger] bytes[i]
        }
}

/// A number in decimal reads back as that number.
pub proof fn law_decimal_reads_back(n: nat)
    ensures
        spells_number(decimal(n), n),
        n > 0 ==> decimal(n)[0] != '0',
    decreases n,
{
    if n < 10 {
        reveal_with_fuel(digits_value, 2);
        assert(decimal(n).drop_last() =~= seq![]);
    } else {
        law_decimal_reads_back(n / 10);
        let text = decimal(n);
        let before = decimal(n / 10);
        assert(text.drop_last() =~= before);
        assert(text[0] == before[0]);
        assert forall|i: int| 0 <= i < text.len() implies '0' <= #[trigger] text[i] <= '9' by {
            if i < before.len() {
                assert(text[i] == before[i]);
            }
        }
    }
}

/// Bytes in hexadecimal read back as those bytes.
pub proof fn law_hex_reads_back(bytes: Seq<u8>)
    ensures
        spells_bytes(hex(bytes), bytes),
{
    let text = hex(bytes);
    assert forall|i: int| 0 <= i < bytes.len() implies {
        &&& is_hex(text[2 + 2 * i])
        &&& is_hex(text[3 + 2 * i])
        &&& 16 * hex_value(text[2 + 2 * i]) + hex_value(text[3 + 2 * i]) == #[trigger] bytes[i]
    } by {
        let high = 2 * i;
        let low = 2 * i + 1;
        let byte = bytes[i] as int;
        assert(high % 2 == 0 && high / 2 == i && low % 2 == 1 && low / 2 == i);
        assert(text[2 + 2 * i] == hex_digit(byte / 16));
        assert(text[3 + 2 * i] == hex_digit(byte % 16));
        lemma_hex_digit(byte / 16);
        lemma_hex_digit(byte % 16);
    }
}

/// A hexadecimal digit counts what it was written for.
proof fn lemma_hex_digit(d: int)
    requires
        0 <= d < 16,
    ensures
        is_hex(hex_digit(d)),
        hex_value(hex_digit(d)) == d,
{
}

/// The number of a wide value is made of its words, each counting 2 to the 64 times the one before
/// it: every word can be read off the number, and the number fits in 32 bytes.
pub proof fn law_number_is_made_of_its_words(words: Seq<u64>)
    requires
        words.len() == 4,
    ensures
        number(words) as int % 0x1_0000_0000_0000_0000int == words[0],
        number(words) as int / 0x1_0000_0000_0000_0000int % 0x1_0000_0000_0000_0000int == words[1],
        number(words) as int / 0x1_0000_0000_0000_0000_0000_0000_0000_0000int
            % 0x1_0000_0000_0000_0000int == words[2],
        number(words) as int / 0x1_0000_0000_0000_0000_0000_0000_0000_0000_0000_0000_0000_0000int
            == words[3],
        number(words) < pow(256, 32),
{
    let w = 0x1_0000_0000_0000_0000int;
    let n = number(words) as int;
    lemma_pow_of_words();
    assert(n / (w * w) == n / w / w) by {
        lemma_div_denominator(n, w, w);
    }
    assert(n / (w * w * w) == n / (w * w) / w) by {
        lemma_div_denominator(n, w * w, w);
    }
}

/// 256 to the power of 32 is 2 to the power of 256.
proof fn lemma_pow_of_words()
    ensures
        pow(256, 32)
            == 0x1_00000000_00000000_00000000_00000000_00000000_00000000_00000000_00000000int,
{
    reveal_with_fuel(pow, 9);
    assert(pow(256, 8) == 0x1_0000_0000_0000_0000int);
    lemma_pow_adds(256, 8, 8);
    lemma_pow_adds(256, 16, 16);
    let (p, q, r) = (pow(256, 8), pow(256, 16), pow(256, 32));
    assert(r
        == 0x1_0000_0000_0000_0000_0000_0000_0000_0000_0000_0000_0000_0000_0000_0000_0000_0000int)
        by (nonlinear_arith)
        requires
            p == 0x1_0000_0000_0000_0000int,
            q == p * p,
            r == q * q,
    ;
}

/// The first bytes of a number stand for the number without its last digits in base 256.
proof fn lemma_first_bytes(n: nat, k: nat)
    requires
        k <= 32,
        n < pow(256, 32),
    ensures
        bytes_value(big_endian(n).take(k as int)) == n as int / pow(256, (32 - k) as nat),
    decreases k,
{
    let bytes = big_endian(n);
    if k == 0 {
        lemma_pow_positive(256, 32);
        assert(n as int / pow(256, 32) == 0) by {
            vstd::arithmetic::div_mod::lemma_basic_div(n as int, pow(256, 32));
        }
    } else {
        let j = (k - 1) as nat;
        lemma_first_bytes(n, j);
        let above = (32 - k) as nat;
        lemma_pow_positive(256, above);
        lemma_pow_adds(256, above, 1);
        lemma_pow1(256);
        let x = n as int / pow(256, above);
        lemma_div_denominator(n as int, pow(256, above), 256);
        lemma_fundamental_div_mod(x, 256);
        assert(bytes.take(k as int).drop_last() =~= bytes.take(j as int));
        assert(bytes.take(k as int).last() == bytes[j as int]);
        assert(bytes[j as int] == x % 256);
    }
}

/// The bytes of a number read back as that number, and there are 32 of them.
pub proof fn law_bytes_read_back(number: U256)
    ensures
        big_endian(number.value()).len() == 32,
        bytes_value(big_endian(number.value())) == number.value(),
{
    let n = number.value();
    law_number_is_made_of_its_words(number.words@);
    lemma_first_bytes(n, 32);
    reveal_with_fuel(pow, 1);
    assert(big_endian(n).take(32) =~= big_endian(n));
}

} // verus!
