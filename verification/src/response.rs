//! What a contract gets of a JSON value.

use crate::abi::{abi_bytes, abi_word, encode_bool, encode_bytes, encode_text, encode_uint};
use crate::bytes::lemma_be_trimmed_len;
use crate::json::{compact_text, Json};
use crate::primitives::{bytes_to_vec, U256};
use crate::text::{
    chars_of, decimal, decimal_text, is_text, lemma_number_in, lowercased, number_in, parse_number,
    remove_char, string_of, to_lowercase, without_char,
};
use vstd::prelude::*;
use vstd::utf8::encode_utf8;

verus! {

/// Whether a text in lower case says yes.
pub open spec fn is_true_text(lower: Seq<char>) -> bool {
    lower == "true"@ || lower == "1"@ || lower == "yes"@
}

/// Whether a value counts as true: the value true, a number other than zero, and
/// a text that says yes in any case.
pub open spec fn truth_of(value: Json) -> bool {
    match value {
        Json::Bool(b) => b,
        Json::Number(n) => n.nonzero,
        Json::Text(s) => is_true_text(lowercased(s@)),
        _ => false,
    }
}

/// The unsigned number that a text writes with commas anywhere in it.
pub open spec fn number_in_text(s: Seq<char>) -> Option<int> {
    number_in(without_char(s, ','), u64::MAX as int)
}

/// The unsigned number that a value stands for, or why it stands for none. A text
/// that writes no unsigned 64-bit number stands for what its floating-point reading
/// is cut down to, where it has one.
pub open spec fn number_of(value: Json, float_reading: Option<u64>) -> Result<nat, Seq<char>> {
    match value {
        Json::Number(n) => match n.unsigned {
            Some(u) => Ok(u as nat),
            None => match n.truncated {
                Some(t) => Ok(t as nat),
                None => Err("cannot convert number to uint256"@),
            },
        },
        Json::Text(s) => match number_in_text(s@) {
            Some(u) => Ok(u as nat),
            None => match float_reading {
                Some(t) => Ok(t as nat),
                None => Err("cannot parse '"@ + s@ + "' as uint256"@),
            },
        },
        Json::Bool(b) => Ok(
            if b {
                1
            } else {
                0
            },
        ),
        _ => Err("cannot convert to uint256"@),
    }
}

/// The bytes that a contract gets of a value: its compact text in UTF-8, a number,
/// a text or a truth value.
pub open spec fn encoded_value(
    value: Json,
    response_type: u8,
    float_reading: Option<u64>,
) -> Result<Seq<u8>, Seq<char>> {
    if response_type == 0 {
        Ok(abi_bytes(encode_utf8(compact_text(value))))
    } else if response_type == 1 {
        match number_of(value, float_reading) {
            Ok(n) => Ok(abi_word(n)),
            Err(e) => Err(e),
        }
    } else if response_type == 2 {
        match value {
            Json::Text(s) => Ok(abi_bytes(encode_utf8(s@))),
            _ => Ok(abi_bytes(encode_utf8(compact_text(value)))),
        }
    } else if response_type == 3 {
        Ok(
            abi_word(
                if truth_of(value) {
                    1
                } else {
                    0
                },
            ),
        )
    } else {
        Err("invalid responseType: "@ + decimal_text(response_type as nat))
    }
}

/// The text whose floating-point reading the number that a value stands for
/// depends on: a text without its commas that writes no unsigned 64-bit number.
pub open spec fn text_to_read_as_float(value: Json, response_type: u8) -> Option<Seq<char>> {
    match value {
        Json::Text(s) => if response_type == 1 && number_in_text(s@) is None {
            Some(without_char(s@, ','))
        } else {
            None
        },
        _ => None,
    }
}

/// What a result says.
pub open spec fn result_view(r: Result<Vec<u8>, String>) -> Result<Seq<u8>, Seq<char>> {
    match r {
        Ok(bytes) => Ok(bytes@),
        Err(e) => Err(e@),
    }
}

/// Whether a text in lower case says yes.
pub fn says_yes(lower: &str) -> (r: bool)
    ensures
        r == is_true_text(lower@),
{
    let chars = chars_of(lower);
    is_text(chars.as_slice(), "true") || is_text(chars.as_slice(), "1") || is_text(
        chars.as_slice(),
        "yes",
    )
}

/// The text that has to be read as a floating-point number before the value is
/// encoded; `None` where the encoding depends on no such reading.
pub fn float_text(value: &Json, response_type: u8) -> (r: Option<String>)
    ensures
        match r {
            Some(text) => text_to_read_as_float(*value, response_type) == Some(text@),
            None => text_to_read_as_float(*value, response_type) is None,
        },
{
    if response_type != 1 {
        return None;
    }
    match value {
        Json::Text(s) => {
            let chars = chars_of(s.as_str());
            let cleaned = remove_char(chars.as_slice(), ',');
            match parse_number(cleaned.as_slice(), u64::MAX) {
                Some(_) => None,
                None => Some(string_of(cleaned.as_slice())),
            }
        },
        _ => None,
    }
}

fn encode_number(value: &Json, float_reading: Option<u64>) -> (r: Result<U256, String>)
    ensures
        match r {
            Ok(n) => number_of(*value, float_reading) == Ok::<nat, Seq<char>>(n.value()),
            Err(e) => number_of(*value, float_reading) == Err::<nat, Seq<char>>(e@),
        },
{
    match value {
        Json::Number(n) => match n.unsigned {
            Some(u) => Ok(U256::from_u64(u)),
            None => match n.truncated {
                Some(t) => Ok(U256::from_u64(t)),
                None => Err("cannot convert number to uint256".to_owned()),
            },
        },
        Json::Text(s) => {
            let chars = chars_of(s.as_str());
            let cleaned = remove_char(chars.as_slice(), ',');
            match parse_number(cleaned.as_slice(), u64::MAX) {
                Some(u) => Ok(U256::from_u64(u)),
                None => match float_reading {
                    Some(t) => Ok(U256::from_u64(t)),
                    None => {
                        let mut text = "cannot parse '".to_owned();
                        text.append(s.as_str());
                        text.append("' as uint256");
                        Err(text)
                    },
                },
            }
        },
        Json::Bool(b) => Ok(
            U256::from_u64(
                if *b {
                    1
                } else {
                    0
                },
            ),
        ),
        _ => Err("cannot convert to uint256".to_owned()),
    }
}

/// The bytes that a contract gets of a value, given what the floating-point
/// reading of the value's text is cut down to.
pub fn encode_json_value(value: &Json, response_type: u8, float_reading: Option<u64>) -> (r: Result<
    Vec<u8>,
    String,
>)
    ensures
        result_view(r) == encoded_value(*value, response_type, float_reading),
{
    if response_type == 0 {
        let text = value.to_text();
        Ok(encode_bytes(bytes_to_vec(text.as_str().as_bytes())))
    } else if response_type == 1 {
        match encode_number(value, float_reading) {
            Ok(n) => Ok(encode_uint(n)),
            Err(e) => Err(e),
        }
    } else if response_type == 2 {
        match value {
            Json::Text(s) => Ok(encode_text(s.clone())),
            other => Ok(encode_text(other.to_text())),
        }
    } else if response_type == 3 {
        let b = match value {
            Json::Bool(b) => *b,
            Json::Number(n) => n.nonzero,
            Json::Text(s) => {
                let lower = to_lowercase(s.as_str());
                says_yes(lower.as_str())
            },
            _ => false,
        };
        Ok(encode_bool(b))
    } else {
        let mut text = "invalid responseType: ".to_owned();
        text.append(decimal(response_type as u64).as_str());
        Err(text)
    }
}

/// Where no text has to be read as a floating-point number, the encoding is the
/// same whatever is handed in as its reading.
pub proof fn law_only_a_float_text_depends_on_its_reading(
    value: Json,
    response_type: u8,
    a: Option<u64>,
    b: Option<u64>,
)
    requires
        text_to_read_as_float(value, response_type) is None,
    ensures
        encoded_value(value, response_type, a) == encoded_value(value, response_type, b),
{
}

/// A value is refused only where a number is asked for or the response type is
/// unknown.
pub proof fn law_only_numbers_can_be_refused(
    value: Json,
    response_type: u8,
    float_reading: Option<u64>,
)
    ensures
        response_type == 0 || response_type == 2 || response_type == 3 ==> encoded_value(
            value,
            response_type,
            float_reading,
        ) is Ok,
        response_type > 3 ==> encoded_value(value, response_type, float_reading) is Err,
{
}

proof fn lemma_word_length(n: nat)
    requires
        n <= u64::MAX,
    ensures
        abi_word(n).len() == 32,
{
    lemma_be_trimmed_len(n);
}

proof fn lemma_bytes_length(data: Seq<u8>)
    requires
        data.len() <= u64::MAX,
    ensures
        abi_bytes(data).len() % 32 == 0,
{
    lemma_word_length(32);
    lemma_word_length(data.len());
}

/// What a contract gets is made of whole words of 32 bytes, and of a single one
/// for a number or a truth value.
pub proof fn law_encodings_are_whole_words(
    value: Json,
    response_type: u8,
    float_reading: Option<u64>,
    bytes: Seq<u8>,
)
    requires
        encoded_value(value, response_type, float_reading) == Ok::<Seq<u8>, Seq<char>>(bytes),
        bytes.len() <= u64::MAX,
    ensures
        bytes.len() % 32 == 0,
        response_type == 1 || response_type == 3 ==> bytes.len() == 32,
{
    if response_type == 1 {
        if let Json::Text(s) = value {
            lemma_number_in(without_char(s@, ','), u64::MAX as int);
        }
        lemma_word_length(number_of(value, float_reading)->Ok_0);
    } else if response_type == 3 {
        lemma_word_length(1);
        lemma_word_length(0);
    } else {
        let data = match value {
            Json::Text(s) => if response_type == 2 {
                encode_utf8(s@)
            } else {
                encode_utf8(compact_text(value))
            },
            _ => encode_utf8(compact_text(value)),
        };
        assert(bytes == abi_bytes(data));
        assert(data.len() <= bytes.len());
        lemma_bytes_length(data);
    }
}

} // verus!
