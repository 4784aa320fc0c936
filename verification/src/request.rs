//! Decoding of the logical request: the string-encoded `vector_size`
//! parameter, with a fallback to the default dimensionality on a parse
//! failure, and the body — batches of text units as a JSON array of arrays
//! of strings — flattened into the ordered sequence of units one run
//! ingests.

use vstd::prelude::*;

use crate::errors::IngestError;

verus! {

/// The dimensionality used when the `vector_size` parameter does not parse.
pub const DEFAULT_VECTOR_SIZE: u64 = 1536;

/// An ASCII decimal digit.
pub open spec fn is_digit_byte(b: u8) -> bool {
    48 <= b <= 57
}

/// Every byte is an ASCII decimal digit.
pub open spec fn all_digits(s: Seq<u8>) -> bool {
    forall|i: int| 0 <= i < s.len() ==> is_digit_byte(#[trigger] s[i])
}

/// The value of a digit string read as a decimal numeral.
pub open spec fn decimal_value(s: Seq<u8>) -> int
    recommends
        all_digits(s),
    decreases s.len(),
{
    if s.len() == 0 {
        0
    } else {
        decimal_value(s.drop_last()) * 10 + (s.last() - 48)
    }
}

/// What a decimal numeral denotes as a `u64`: the value of a non-empty
/// all-digit string when it fits, nothing otherwise.
pub open spec fn spec_parse_u64(s: Seq<u8>) -> Option<u64> {
    if s.len() == 0 || !all_digits(s) || decimal_value(s) > u64::MAX {
        None
    } else {
        Some(decimal_value(s) as u64)
    }
}

proof fn lemma_decimal_value_step(s: Seq<u8>, i: int)
    requires
        0 <= i < s.len(),
    ensures
        decimal_value(s.take(i + 1)) == decimal_value(s.take(i)) * 10 + (s[i] - 48),
{
    assert(s.take(i + 1).drop_last() =~= s.take(i));
    assert(s.take(i + 1).last() == s[i]);
}

proof fn lemma_decimal_value_nonneg(s: Seq<u8>)
    requires
        all_digits(s),
    ensures
        decimal_value(s) >= 0,
    decreases s.len(),
{
    if s.len() > 0 {
        assert(all_digits(s.drop_last())) by {
            assert(forall|i: int|
                0 <= i < s.drop_last().len() ==> #[trigger] s.drop_last()[i] == s[i]);
        }
        lemma_decimal_value_nonneg(s.drop_last());
    }
}

/// Reading more digits never decreases the value.
proof fn lemma_decimal_value_monotone(s: Seq<u8>, i: int, j: int)
    requires
        all_digits(s),
        0 <= i <= j <= s.len(),
    ensures
        decimal_value(s.take(i)) <= decimal_value(s.take(j)),
    decreases j - i,
{
    if i < j {
        lemma_decimal_value_step(s, i);
        assert(all_digits(s.take(i))) by {
            assert(forall|t: int| 0 <= t < i ==> #[trigger] s.take(i)[t] == s[t]);
        }
        lemma_decimal_value_nonneg(s.take(i));
        lemma_decimal_value_monotone(s, i + 1, j);
    }
}

/// Parses an ASCII decimal numeral: the value of a non-empty all-digit input
/// that fits in a `u64`, nothing on any other input.
pub fn parse_u64(s: &Vec<u8>) -> (r: Option<u64>)
    ensures
        r == spec_parse_u64(s@),
{
    if s.len() == 0 {
        return None;
    }
    let mut val: u64 = 0;
    let mut i: usize = 0;
    proof {
        assert(s@.take(0) =~= Seq::<u8>::empty());
    }
    while i < s.len()
        invariant
            0 < s@.len(),
            0 <= i <= s@.len(),
            all_digits(s@.take(i as int)),
            val == decimal_value(s@.take(i as int)),
        decreases s@.len() - i,
    {
        let b = s[i];
        if b < 48 || b > 57 {
            proof {
                assert(!is_digit_byte(s@[i as int]));
            }
            return None;
        }
        let d: u64 = (b - 48) as u64;
        if val > (u64::MAX - d) / 10 {
            proof {
                lemma_decimal_value_step(s@, i as int);
                assert((u64::MAX - d) / 10 * 10 + (u64::MAX - d) % 10 == u64::MAX - d);
                assert(val * 10 + d > u64::MAX);
                assert(all_digits(s@.take(i as int + 1))) by {
                    assert(forall|t: int|
                        0 <= t < i + 1 ==> #[trigger] s@.take(i as int + 1)[t] == s@[t]);
                }
                if all_digits(s@) {
                    lemma_decimal_value_monotone(s@, i as int + 1, s@.len() as int);
                    assert(s@.take(s@.len() as int) =~= s@);
                }
            }
            return None;
        }
        val = val * 10 + d;
        proof {
            lemma_decimal_value_step(s@, i as int);
            assert(all_digits(s@.take(i as int + 1))) by {
                assert(forall|t: int|
                    0 <= t < i + 1 ==> #[trigger] s@.take(i as int + 1)[t] == s@[t]);
            }
        }
        i = i + 1;
    }
    proof {
        assert(s@.take(s@.len() as int) =~= s@);
    }
    Some(val)
}

/// Reads the `vector_size` parameter; a value that does not parse as a
/// decimal `u64` falls back to the default dimensionality.
pub fn parse_vector_size(s: &Vec<u8>) -> (r: u64)
    ensures
        r == match spec_parse_u64(s@) {
            Some(v) => v,
            None => DEFAULT_VECTOR_SIZE,
        },
{
    match parse_u64(s) {
        Some(v) => v,
        None => DEFAULT_VECTOR_SIZE,
    }
}

#[verifier::external_type_specification]
#[verifier::external_body]
pub struct ExSerdeJsonError(serde_json::Error);

/// What the body bytes denote as batches of text units, when they parse as a
/// JSON array of arrays of strings.
pub uninterp spec fn parsed_batches(bytes: Seq<u8>) -> Option<Seq<Seq<Seq<char>>>>;

/// Relies on serde_json::from_slice::<Vec<Vec<String>>>: whether the bytes
/// parse, and what they parse to, is a function of the bytes alone.
#[verifier::external_body]
fn decode_batches(body: &Vec<u8>) -> (r: Result<Vec<Vec<String>>, serde_json::Error>)
    ensures
        r matches Ok(v) ==> parsed_batches(body@) == Some(v.deep_view()),
        r is Err ==> parsed_batches(body@) is None,
{
    serde_json::from_slice(body)
}

/// Parses the request body into batches of text units; a body that is not a
/// JSON array of arrays of strings is an explicit, reported failure.
pub fn parse_batches(body: &Vec<u8>) -> (r: Result<Vec<Vec<String>>, IngestError>)
    ensures
        r matches Ok(v) ==> parsed_batches(body@) == Some(v.deep_view()),
        r is Err ==> r == Err::<Vec<Vec<String>>, IngestError>(IngestError::BodyNotParsable)
            && parsed_batches(body@) is None,
{
    match decode_batches(body) {
        Ok(v) => Ok(v),
        Err(_) => Err(IngestError::BodyNotParsable),
    }
}

/// The batches laid end to end, in order.
pub open spec fn joined_batches(batches: Seq<Seq<Seq<char>>>) -> Seq<Seq<char>>
    decreases batches.len(),
{
    if batches.len() == 0 {
        Seq::empty()
    } else {
        joined_batches(batches.drop_last()) + batches.last()
    }
}

/// Flattens the parsed batches into the ordered sequence of units the run
/// ingests: batch by batch, unit by unit.
pub fn flatten_batches(batches: &Vec<Vec<String>>) -> (units: Vec<String>)
    ensures
        units.deep_view() == joined_batches(batches.deep_view()),
{
    let ghost dv = batches.deep_view();
    let mut units: Vec<String> = Vec::new();
    let mut i: usize = 0;
    proof {
        assert(units.deep_view() =~= joined_batches(dv.take(0)));
    }
    while i < batches.len()
        invariant
            dv == batches.deep_view(),
            dv.len() == batches@.len(),
            0 <= i <= batches@.len(),
            units.deep_view() == joined_batches(dv.take(i as int)),
        decreases batches@.len() - i,
    {
        let batch = &batches[i];
        proof {
            assert(dv[i as int] == batches@[i as int].deep_view());
        }
        let mut j: usize = 0;
        while j < batch.len()
            invariant
                dv == batches.deep_view(),
                dv.len() == batches@.len(),
                0 <= i < batches@.len(),
                batch@ == batches@[i as int]@,
                dv[i as int] == batches@[i as int].deep_view(),
                0 <= j <= batch@.len(),
                batch@.len() == dv[i as int].len(),
                units.deep_view() == joined_batches(dv.take(i as int)) + dv[i as int].take(
                    j as int,
                ),
            decreases batch@.len() - j,
        {
            let ghost before = units.deep_view();
            units.push(batch[j].clone());
            proof {
                assert(units.deep_view() =~= before.push(batch@[j as int]@));
                assert(dv[i as int][j as int] == batch@[j as int]@);
                assert(units.deep_view() =~= joined_batches(dv.take(i as int)) + dv[i as int].take(
                    j as int + 1,
                ));
            }
            j = j + 1;
        }
        proof {
            assert(dv.take(i as int + 1).drop_last() =~= dv.take(i as int));
            assert(dv.take(i as int + 1).last() == dv[i as int]);
            assert(dv[i as int].take(dv[i as int].len() as int) =~= dv[i as int]);
            assert(units.deep_view() =~= joined_batches(dv.take(i as int + 1)));
        }
        i = i + 1;
    }
    proof {
        assert(dv.take(dv.len() as int) =~= dv);
    }
    units
}

/// Parses the body and flattens its batches into units, rejecting a
/// malformed body.
pub fn parse_units(body: &Vec<u8>) -> (r: Result<Vec<String>, IngestError>)
    ensures
        r matches Ok(units) ==> parsed_batches(body@) matches Some(b) && units.deep_view()
            == joined_batches(b),
        r is Err ==> r == Err::<Vec<String>, IngestError>(IngestError::BodyNotParsable)
            && parsed_batches(body@) is None,
{
    match parse_batches(body) {
        Ok(batches) => Ok(flatten_batches(&batches)),
        Err(e) => Err(e),
    }
}

} // verus!
