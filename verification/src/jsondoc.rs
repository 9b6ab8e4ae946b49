//! Trusted boundary to serde_json. The core stores and forwards opaque
//! structured documents (`serde_json::Value`) without interpreting them;
//! these are the only operations it needs from the crate.
use crate::ranges::pairs_of;
use crate::ranges::TimeRange;
use serde_json::Value;
use vstd::prelude::*;

verus! {

#[verifier::external_type_specification]
#[verifier::external_body]
pub struct ExValue(Value);

/// Whether `bytes` parse as a single JSON document: serde_json's verdict,
/// a function of the bytes alone.
pub uninterp spec fn json_doc(bytes: Seq<u8>) -> bool;

/// The text of the parse error serde_json reports for `bytes` that do not
/// form a JSON document: a function of the bytes alone.
pub uninterp spec fn json_err_of(bytes: Seq<u8>) -> Seq<char>;

/// Relies on serde_json::from_slice::<Value>: succeeds exactly on byte
/// sequences that form one JSON document, and otherwise reports the parse
/// error's text.
#[verifier::external_body]
pub(crate) fn parse_json(bytes: &[u8]) -> (r: Result<Value, String>)
    ensures
        r is Ok <==> json_doc(bytes@),
        r matches Err(m) ==> m@ == json_err_of(bytes@),
{
    serde_json::from_slice::<Value>(bytes).map_err(|e| e.to_string())
}

/// Whether `bytes` parse as a JSON document whose top level is an array: a
/// function of the bytes alone.
pub uninterp spec fn array_doc(bytes: Seq<u8>) -> bool;

/// Relies on serde_json::from_slice::<Value> and the Value::Array variant:
/// the parsed document exactly when the bytes form a JSON array document.
#[verifier::external_body]
pub(crate) fn parse_json_array(bytes: &[u8]) -> (r: Option<Value>)
    ensures
        r is Some <==> array_doc(bytes@),
        r is Some ==> json_doc(bytes@),
{
    match serde_json::from_slice::<Value>(bytes) {
        Ok(Value::Array(items)) => Some(Value::Array(items)),
        _ => None,
    }
}

/// The `durationUs` member of the document the bytes parse to, when the
/// bytes parse and the member is a number representable as a u64: a
/// function of the bytes alone.
pub uninterp spec fn duration_us_of(bytes: Seq<u8>) -> Option<u64>;

/// The effective remove-range list of the document the bytes parse to, as
/// start/end pairs: `Some` of the pairs when the `removeRanges` member is
/// an array of objects with numeric `startUs` and `endUs` (an absent
/// member counts as the empty list), `None` when the bytes do not parse or
/// the member is present but malformed. A function of the bytes alone.
pub uninterp spec fn remove_ranges_of(bytes: Seq<u8>) -> Option<Seq<(u64, u64)>>;

/// What is wrong with the `removeRanges` member when `remove_ranges_of`
/// rejects it: a function of the bytes alone.
pub uninterp spec fn remove_ranges_err_of(bytes: Seq<u8>) -> Seq<char>;

/// Relies on serde_json::from_slice::<Value>, Value::get and Value::as_u64:
/// reads the `durationUs` member out of the response bytes.
#[verifier::external_body]
pub(crate) fn extract_duration_us(raw: &[u8]) -> (r: Option<u64>)
    ensures
        r == duration_us_of(raw@),
        r is Some ==> json_doc(raw@),
{
    let v: Value = serde_json::from_slice(raw).ok()?;
    v.get("durationUs").and_then(Value::as_u64)
}

/// Relies on serde_json::from_slice::<Value>, Value::get, Value::as_array
/// and Value::as_u64: reads the `removeRanges` member out of the response
/// bytes, an absent member meaning no ranges, a malformed member naming
/// the defect.
#[verifier::external_body]
pub(crate) fn extract_remove_ranges(raw: &[u8]) -> (r: Result<Vec<TimeRange>, String>)
    ensures
        r is Ok <==> remove_ranges_of(raw@) is Some,
        r matches Ok(v) ==> Some(pairs_of(v@)) == remove_ranges_of(raw@),
        r matches Err(m) ==> m@ == remove_ranges_err_of(raw@),
{
    let v: Value = serde_json::from_slice(raw).map_err(|e| e.to_string())?;
    let member = match v.get("removeRanges") {
        None => return Ok(Vec::new()),
        Some(m) => m,
    };
    let items = member.as_array().ok_or("expected an array of time ranges")?;
    let mut out = Vec::new();
    for item in items {
        let range_err = "expected objects with u64 startUs and endUs";
        let start_us = item.get("startUs").and_then(Value::as_u64).ok_or(range_err)?;
        let end_us = item.get("endUs").and_then(Value::as_u64).ok_or(range_err)?;
        out.push(TimeRange { start_us, end_us });
    }
    Ok(out)
}

/// Relies on serde_json::Value::Object and serde_json::Map::new: the empty
/// JSON object document.
#[verifier::external_body]
pub(crate) fn empty_json_object() -> Value {
    Value::Object(serde_json::Map::new())
}

} // verus!
