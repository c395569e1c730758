//! What a contract can count on in the bytes that it gets.

use crate::abi::{abi_bytes, abi_word, zeros};
use crate::bytes::{be_trimmed, be_value, lemma_be_trimmed_len, lemma_be_trimmed_value};
use crate::json::{compact_text, Json};
use crate::response::{encoded_value, text_to_read_as_float};
use crate::text::{decimal_text, lowercased, number_in, without_char};
use crate::text_laws::{
    law_a_number_is_written_in_digits, law_a_written_number_is_read_back, law_leaving_a_character_out,
};
use vstd::prelude::*;
use vstd::utf8::encode_utf8;

verus! {

/// A number goes out as a text, or as bytes, with the text that it has in its JSON,
/// with its sign, its fraction and its exponent.
pub proof fn law_a_number_keeps_its_text(value: Json, float_reading: Option<u64>)
    ensures
        value matches Json::Number(n) ==> {
            &&& encoded_value(value, 2, float_reading) == Ok::<Seq<u8>, Seq<char>>(
                abi_bytes(encode_utf8(n.text@)),
            )
            &&& encoded_value(value, 0, float_reading) == Ok::<Seq<u8>, Seq<char>>(
                abi_bytes(encode_utf8(n.text@)),
            )
        },
{
}

/// As a text, a value goes out as its bytes do, but for texts, which go out as they
/// are, without quotation marks and escapes.
pub proof fn law_texts_go_out_plain_and_the_rest_as_json(
    value: Json,
    a: Option<u64>,
    b: Option<u64>,
)
    ensures
        value !is Text ==> encoded_value(value, 2, a) == encoded_value(value, 0, b),
        value matches Json::Text(s) ==> encoded_value(value, 2, a) == Ok::<Seq<u8>, Seq<char>>(
            abi_bytes(encode_utf8(s@)),
        ),
        encoded_value(value, 0, a) == Ok::<Seq<u8>, Seq<char>>(
            abi_bytes(encode_utf8(compact_text(value))),
        ),
{
}

/// The truth values and null go out as their JSON words, as bytes and as texts.
pub proof fn law_words_go_out_as_json_words(response_type: u8, float_reading: Option<u64>)
    requires
        response_type == 0 || response_type == 2,
    ensures
        encoded_value(Json::Null, response_type, float_reading) == Ok::<Seq<u8>, Seq<char>>(
            abi_bytes(encode_utf8("null"@)),
        ),
        encoded_value(Json::Bool(true), response_type, float_reading) == Ok::<Seq<u8>, Seq<char>>(
            abi_bytes(encode_utf8("true"@)),
        ),
        encoded_value(Json::Bool(false), response_type, float_reading) == Ok::<
            Seq<u8>,
            Seq<char>,
        >(abi_bytes(encode_utf8("false"@))),
{
}

/// Whether a result is one word that holds a number.
pub open spec fn holds_number(r: Result<Seq<u8>, Seq<char>>, n: nat) -> bool {
    r matches Ok(bytes) && bytes.len() == 32 && be_value(bytes) == n
}

proof fn lemma_zeros_in_front(n: nat, s: Seq<u8>)
    ensures
        be_value(zeros(n) + s) == be_value(s),
    decreases n + s.len(),
{
    let all = zeros(n) + s;
    if s.len() > 0 {
        assert(all.drop_last() =~= zeros(n) + s.drop_last());
        lemma_zeros_in_front(n, s.drop_last());
    } else if n > 0 {
        let fewer = (n - 1) as nat;
        assert(all.drop_last() =~= zeros(fewer) + s);
        lemma_zeros_in_front(fewer, s);
        assert(be_value(s) == 0);
        assert(all.last() == 0);
    } else {
        assert(all =~= s);
    }
}

/// A word gives the number back that it was written from.
pub proof fn lemma_word(n: nat)
    requires
        n <= u64::MAX,
    ensures
        abi_word(n).len() == 32,
        be_value(abi_word(n)) == n,
{
    lemma_be_trimmed_len(n);
    lemma_be_trimmed_value(n);
    lemma_zeros_in_front((32 - be_trimmed(n).len()) as nat, be_trimmed(n));
}

/// Asked for a number, a contract gets one word that holds it: a JSON number without
/// fraction and sign as it is, any other JSON number cut down where it can be, and 1
/// or 0 for a truth value. The rest is refused, each with its own reason.
pub proof fn law_a_number_is_read_from_its_word(value: Json, float_reading: Option<u64>)
    ensures
        match value {
            Json::Number(n) => {
                &&& n.unsigned matches Some(u) ==> holds_number(
                    encoded_value(value, 1, float_reading),
                    u as nat,
                )
                &&& n.unsigned is None ==> (n.truncated matches Some(t) ==> holds_number(
                    encoded_value(value, 1, float_reading),
                    t as nat,
                ))
                &&& n.unsigned is None && n.truncated is None ==> encoded_value(
                    value,
                    1,
                    float_reading,
                ) == Err::<Seq<u8>, Seq<char>>("cannot convert number to uint256"@)
            },
            Json::Bool(b) => holds_number(
                encoded_value(value, 1, float_reading),
                if b {
                    1
                } else {
                    0
                },
            ),
            Json::Text(_) => true,
            _ => encoded_value(value, 1, float_reading) == Err::<Seq<u8>, Seq<char>>(
                "cannot convert to uint256"@,
            ),
        },
{
    lemma_word(0);
    lemma_word(1);
    if let Json::Number(n) = value {
        if let Some(u) = n.unsigned {
            lemma_word(u as nat);
        } else if let Some(t) = n.truncated {
            lemma_word(t as nat);
        }
    }
}

/// A text that writes a number of 64 bits in decimal, with commas anywhere between
/// its digits, gives that number; any other text gives what its floating-point
/// reading is cut down to, and is refused where it has none.
pub proof fn law_a_text_gives_the_number_that_it_writes(
    s: String,
    n: nat,
    float_reading: Option<u64>,
)
    ensures
        without_char(s@, ',') == decimal_text(n) && n <= u64::MAX ==> holds_number(
            encoded_value(Json::Text(s), 1, float_reading),
            n,
        ),
        s@ == decimal_text(n) && n <= u64::MAX ==> holds_number(
            encoded_value(Json::Text(s), 1, float_reading),
            n,
        ),
        number_in(without_char(s@, ','), u64::MAX as int) is None ==> match float_reading {
            Some(t) => holds_number(encoded_value(Json::Text(s), 1, float_reading), t as nat),
            None => encoded_value(Json::Text(s), 1, float_reading) == Err::<Seq<u8>, Seq<char>>(
                "cannot parse '"@ + s@ + "' as uint256"@,
            ),
        },
{
    law_a_written_number_is_read_back(n, u64::MAX as int);
    if n <= u64::MAX {
        lemma_word(n);
    }
    if let Some(t) = float_reading {
        lemma_word(t as nat);
    }
    if s@ == decimal_text(n) {
        assert forall|i: int| 0 <= i < s@.len() implies s@[i] != ',' by {
            law_a_number_is_written_in_digits(n, i);
            let digits = seq!['0', '1', '2', '3', '4', '5', '6', '7', '8', '9'];
            if s@[i] == ',' {
                assert(digits.contains(','));
                let k = choose|k: int| 0 <= k < digits.len() && digits[k] == ',';
                assert(false);
            }
        }
        lemma_nothing_left_out(s@);
    }
}

proof fn lemma_nothing_left_out(s: Seq<char>)
    requires
        forall|i: int| 0 <= i < s.len() ==> s[i] != ',',
    ensures
        without_char(s, ',') == s,
    decreases s.len(),
{
    if s.len() > 0 {
        assert forall|i: int| 0 <= i < s.drop_last().len() implies s.drop_last()[i] != ',' by {
            assert(s.drop_last()[i] == s[i]);
        }
        lemma_nothing_left_out(s.drop_last());
        assert(s =~= s.drop_last().push(s.last()));
    }
}

/// A comma more or less in a text changes no number.
pub proof fn law_commas_change_no_number(
    a: Seq<char>,
    b: Seq<char>,
    with: String,
    without: String,
    float_reading: Option<u64>,
)
    requires
        with@ == a + seq![','] + b,
        without@ == a + b,
    ensures
        encoded_value(Json::Text(with), 1, float_reading) is Ok <==> encoded_value(
            Json::Text(without),
            1,
            float_reading,
        ) is Ok,
        encoded_value(Json::Text(with), 1, float_reading) is Ok ==> encoded_value(
            Json::Text(with),
            1,
            float_reading,
        ) == encoded_value(Json::Text(without), 1, float_reading),
        text_to_read_as_float(Json::Text(with), 1) == text_to_read_as_float(Json::Text(without), 1),
{
    law_leaving_a_character_out(a + seq![','], b, ',', ',');
    law_leaving_a_character_out(a, seq![','], ',', ',');
    law_leaving_a_character_out(a, b, ',', ',');
    assert(without_char(a, ',') + seq![] =~= without_char(a, ','));
}

/// Only a text that a number is asked for, and that writes none of 64 bits, is read
/// as a floating-point number: without its commas.
pub proof fn law_a_text_is_read_as_a_float_only_where_it_writes_no_number(
    value: Json,
    response_type: u8,
)
    ensures
        text_to_read_as_float(value, response_type) is Some <==> response_type == 1 && (
        value matches Json::Text(s) && number_in(without_char(s@, ','), u64::MAX as int) is None),
        text_to_read_as_float(value, response_type) matches Some(t) ==> (
        value matches Json::Text(s) && t == without_char(s@, ',')),
{
}

/// Asked for a truth value, a contract gets one word that holds 1 for the value true,
/// for a number other than zero and for a text that is `true`, `1` or `yes` in lower
/// case, and 0 for everything else.
pub proof fn law_a_truth_value_is_read_from_its_word(value: Json, float_reading: Option<u64>)
    ensures
        holds_number(encoded_value(value, 3, float_reading), 1) || holds_number(
            encoded_value(value, 3, float_reading),
            0,
        ),
        holds_number(encoded_value(value, 3, float_reading), 1) <==> match value {
            Json::Bool(b) => b,
            Json::Number(n) => n.nonzero,
            Json::Text(s) => lowercased(s@) == "true"@ || lowercased(s@) == "1"@ || lowercased(s@)
                == "yes"@,
            _ => false,
        },
{
    lemma_word(0);
    lemma_word(1);
}

/// Any other response type is refused by its number.
pub proof fn law_an_unknown_response_type_is_named(
    value: Json,
    response_type: u8,
    float_reading: Option<u64>,
)
    requires
        response_type > 3,
    ensures
        encoded_value(value, response_type, float_reading) == Err::<Seq<u8>, Seq<char>>(
            "invalid responseType: "@ + decimal_text(response_type as nat),
        ),
{
}

/// Bytes and texts can be read out of what goes out: the first word says where they
/// begin, the second how many bytes they are, and only zeros stand behind them.
pub proof fn law_bytes_can_be_read_back(data: Seq<u8>, i: int)
    requires
        data.len() <= u64::MAX,
    ensures
        be_value(abi_bytes(data).take(32)) == 32,
        be_value(abi_bytes(data).subrange(32, 64)) == data.len(),
        abi_bytes(data).subrange(64, 64 + data.len() as int) == data,
        abi_bytes(data).len() % 32 == 0,
        64 + data.len() <= abi_bytes(data).len() < 64 + data.len() + 32,
        64 + data.len() <= i < abi_bytes(data).len() ==> abi_bytes(data)[i] == 0,
{
    lemma_word(32);
    lemma_word(data.len());
    let all = abi_bytes(data);
    assert(all.take(32) =~= abi_word(32));
    assert(all.subrange(32, 64) =~= abi_word(data.len()));
    assert(all.subrange(64, 64 + data.len() as int) =~= data);
}

} // verus!
