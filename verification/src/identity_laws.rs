//! How a node's settings are read.

use crate::attestation::is_secret_key;
use crate::bytes::{hex_digit, hex_text};
use crate::identity::{
    hex_digit_value, hex_pair_value, hex_setting, names_address, names_key, window_of, writes_in_hex,
};
use crate::text::{decimal_text, has_prefix, whitespace};
use crate::text_laws::{
    among_digits, law_a_prefix_is_what_a_text_begins_with, law_a_written_number_is_read_back,
    law_only_digits_are_a_number, law_trimming_takes_off_white_space,
};
use vstd::prelude::*;
use vstd::utf8::{encode_utf8, is_ascii_chars, is_ascii_chars_encode_utf8};

verus! {

/// Hexadecimal digits count in lower and in upper case, and nothing else does; a pair
/// of digits writes sixteen times the first and the second, and a plus sign in front of
/// one digit counts nothing.
pub proof fn law_hex_digits_count_in_both_cases(high: u8, low: u8, h: int, l: int)
    requires
        0 <= h < 16,
        0 <= l < 16,
    ensures
        (high == 48 + h && h < 10 || high == 87 + h && h >= 10 || high == 55 + h && h >= 10) && (low
            == 48 + l && l < 10 || low == 87 + l && l >= 10 || low == 55 + l && l >= 10)
            ==> hex_pair_value(high, low) == Some(16 * h + l) && hex_pair_value(43, low) == Some(l),
        !(48 <= low <= 57 || 65 <= low <= 70 || 97 <= low <= 102) ==> hex_digit_value(low) is None
            && hex_pair_value(high, low) is None,
        !(48 <= high <= 57 || 65 <= high <= 70 || 97 <= high <= 102 || high == 43)
            ==> hex_pair_value(high, low) is None,
{
}

proof fn lemma_hex_digit(d: int)
    requires
        0 <= d < 16,
    ensures
        hex_digit(d) as int == (if d < 10 {
            48 + d
        } else {
            87 + d
        }),
{
}

proof fn lemma_hex_text(bytes: Seq<u8>)
    ensures
        hex_text(bytes).len() == 2 * bytes.len(),
        forall|i: int|
            0 <= i < bytes.len() ==> hex_text(bytes)[2 * i] == hex_digit(
                #[trigger] bytes[i] as int / 16,
            ) && hex_text(bytes)[2 * i + 1] == hex_digit(bytes[i] as int % 16),
    decreases bytes.len(),
{
    if bytes.len() > 0 {
        let head = bytes.drop_last();
        lemma_hex_text(head);
        assert forall|i: int| 0 <= i < bytes.len() implies hex_text(bytes)[2 * i] == hex_digit(
            #[trigger] bytes[i] as int / 16,
        ) && hex_text(bytes)[2 * i + 1] == hex_digit(bytes[i] as int % 16) by {
            if i < head.len() {
                assert(head[i] == bytes[i]);
            }
        }
    }
}

proof fn lemma_hex_chars(bytes: Seq<u8>)
    ensures
        forall|k: int|
            0 <= k < hex_text(bytes).len() ==> {
                let n = #[trigger] hex_text(bytes)[k] as int;
                48 <= n <= 57 || 97 <= n <= 102
            },
{
    lemma_hex_text(bytes);
    assert forall|k: int| 0 <= k < hex_text(bytes).len() implies {
        let n = #[trigger] hex_text(bytes)[k] as int;
        48 <= n <= 57 || 97 <= n <= 102
    } by {
        let i = k / 2;
        let b = bytes[i] as int;
        lemma_hex_digit(b / 16);
        lemma_hex_digit(b % 16);
        if k == 2 * i {
            assert(hex_text(bytes)[k] == hex_digit(b / 16));
        } else {
            assert(k == 2 * i + 1);
            assert(hex_text(bytes)[k] == hex_digit(b % 16));
        }
    }
}

proof fn lemma_hex_is_read(bytes: Seq<u8>)
    ensures
        writes_in_hex(encode_utf8(hex_text(bytes)), bytes),
{
    let text = hex_text(bytes);
    lemma_hex_text(bytes);
    lemma_hex_chars(bytes);
    assert(is_ascii_chars(text));
    is_ascii_chars_encode_utf8(text);
    let written = encode_utf8(text);
    assert forall|i: int| 0 <= i < bytes.len() implies hex_pair_value(
        written[2 * i],
        written[2 * i + 1],
    ) == Some(#[trigger] bytes[i] as int) by {
        lemma_hex_digit(bytes[i] as int / 16);
        lemma_hex_digit(bytes[i] as int % 16);
        assert(written[2 * i] == text[2 * i] as u8);
        assert(written[2 * i + 1] == text[2 * i + 1] as u8);
    }
}

/// Bytes that are written in hexadecimal are read back, with `0x` in front or without
/// it and with white space around.
pub proof fn law_a_setting_in_hex_is_read_back(a: Seq<char>, bytes: Seq<u8>, b: Seq<char>)
    requires
        forall|i: int| 0 <= i < a.len() ==> whitespace(#[trigger] a[i]),
        forall|i: int| 0 <= i < b.len() ==> whitespace(#[trigger] b[i]),
    ensures
        writes_in_hex(hex_setting(a + hex_text(bytes) + b), bytes),
        writes_in_hex(hex_setting(a + ("0x"@ + hex_text(bytes)) + b), bytes),
        bytes.len() == 20 ==> names_address(Some(a + hex_text(bytes) + b), bytes) && names_address(
            Some(a + ("0x"@ + hex_text(bytes)) + b),
            bytes,
        ),
        is_secret_key(bytes) ==> names_key(Some(a + hex_text(bytes) + b), bytes) && names_key(
            Some(a + ("0x"@ + hex_text(bytes)) + b),
            bytes,
        ),
{
    reveal_strlit("0x");
    let text = hex_text(bytes);
    let long = "0x"@ + text;
    lemma_hex_chars(bytes);
    lemma_hex_text(bytes);
    lemma_hex_is_read(bytes);
    if text.len() > 0 {
        assert(text.last() == text[text.len() - 1]);
        assert(long.last() == text.last());
    }
    law_trimming_takes_off_white_space(a, text, b);
    law_trimming_takes_off_white_space(a, long, b);
    law_a_prefix_is_what_a_text_begins_with(long, "0x"@, text);
    if has_prefix(text, "0x"@) {
        assert(text.take(2)[1] == 'x');
        assert(text[1] == 'x');
    }
}

/// A setting writes one row of bytes at most, of half as many bytes as it has
/// characters; a setting that is not there names nothing.
pub proof fn law_a_setting_writes_one_row(raw: Seq<char>, x: Seq<u8>, y: Seq<u8>)
    ensures
        writes_in_hex(hex_setting(raw), x) && writes_in_hex(hex_setting(raw), y) ==> x == y,
        names_address(Some(raw), x) ==> x.len() == 20 && hex_setting(raw).len() == 40,
        names_address(Some(raw), x) <==> x.len() == 20 && writes_in_hex(hex_setting(raw), x),
        names_key(Some(raw), x) <==> is_secret_key(x) && writes_in_hex(hex_setting(raw), x),
        !names_address(None, x),
        !names_key(None, x),
{
    if writes_in_hex(hex_setting(raw), x) && writes_in_hex(hex_setting(raw), y) {
        assert forall|i: int| 0 <= i < x.len() implies x[i] == y[i] by {
            assert(Some(x[i] as int) == Some(y[i] as int));
        }
        assert(x =~= y);
    }
}

/// A window is the number of 64 bits that its setting writes in decimal, and 200 where
/// it writes none or is not there.
pub proof fn law_a_window_is_what_its_setting_writes(n: nat, text: Seq<char>, i: int)
    ensures
        n <= u64::MAX ==> window_of(Some(decimal_text(n))) == n,
        n > u64::MAX ==> window_of(Some(decimal_text(n))) == 200,
        0 <= i < text.len() && !among_digits(text[i]) && (i > 0 || text[0] != '+') ==> window_of(
            Some(text),
        ) == 200,
        window_of(Some(seq![])) == 200,
        window_of(None) == 200,
{
    law_a_written_number_is_read_back(n, u64::MAX as int);
    if 0 <= i < text.len() && !among_digits(text[i]) && (i > 0 || text[0] != '+') {
        law_only_digits_are_a_number(text, u64::MAX as int, i);
    }
    let x = seq!['x'];
    assert(!among_digits('x')) by {
        let digits = seq!['0', '1', '2', '3', '4', '5', '6', '7', '8', '9'];
        if among_digits('x') {
            let k = choose|k: int| 0 <= k < digits.len() && digits[k] == 'x';
            assert(false);
        }
    }
    law_only_digits_are_a_number(x, u64::MAX as int, 0);
}

} // verus!
