use vstd::prelude::*;

verus! {

/// The integer a JSON text holds under two object keys, if it parses and
/// the keys lead to one.
pub uninterp spec fn json_nested_u64(
    text: Seq<char>,
    outer: Seq<char>,
    inner: Seq<char>,
) -> Option<u64>;

/// Relies on serde_json::from_str, Value::get and Value::as_u64: what a
/// JSON text holds under two keys is a function of the text alone.
#[verifier::external_body]
pub(crate) fn json_u64_under(text: &str, outer: &str, inner: &str) -> (r: Option<u64>)
    ensures
        r == json_nested_u64(text@, outer@, inner@),
{
    match serde_json::from_str::<serde_json::Value>(text) {
        Ok(v) => match v.get(outer) {
            Some(m) => match m.get(inner) {
                Some(x) => x.as_u64(),
                None => None,
            },
            None => None,
        },
        Err(_) => None,
    }
}

} // verus!
