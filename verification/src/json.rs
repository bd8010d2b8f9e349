//! Reading a default back out of its JSON text.
use vstd::prelude::*;
use crate::record::opt_view;
use crate::text::owned;

verus! {

/// A JSON document as far as a default needs it: the text of a string, a
/// boolean, the numeral of a number, or which other kind it is. `Invalid`
/// stands for text that is not JSON at all.
#[derive(Clone, Debug)]
pub enum JsonValue {
    Str(String),
    Bool(bool),
    Number(String),
    Null,
    Array,
    Object,
    Invalid,
}

/// The abstract form of a [`JsonValue`].
pub enum JsonValueView {
    Str(Seq<char>),
    Bool(bool),
    Number(Seq<char>),
    Null,
    Array,
    Object,
    Invalid,
}

impl View for JsonValue {
    type V = JsonValueView;

    open spec fn view(&self) -> JsonValueView {
        match self {
            JsonValue::Str(s) => JsonValueView::Str(s@),
            JsonValue::Bool(b) => JsonValueView::Bool(*b),
            JsonValue::Number(n) => JsonValueView::Number(n@),
            JsonValue::Null => JsonValueView::Null,
            JsonValue::Array => JsonValueView::Array,
            JsonValue::Object => JsonValueView::Object,
            JsonValue::Invalid => JsonValueView::Invalid,
        }
    }
}

/// What `serde_json` reads from `text`. Named here, not spelled out.
pub uninterp spec fn json_parse(text: Seq<char>) -> JsonValueView;

/// Parses `text` with `serde_json::from_str` into a `serde_json::Value` and
/// converts it kind for kind: a string keeps its text, a number becomes its
/// `Display` numeral, a parse error becomes `Invalid`. The contract says only
/// that the result is [`json_parse`] of the text.
#[verifier::external_body]
fn parse_json(text: &str) -> (r: JsonValue)
    ensures
        r@ == json_parse(text@),
{
    match serde_json::from_str::<serde_json::Value>(text) {
        Err(_) => JsonValue::Invalid,
        Ok(serde_json::Value::Null) => JsonValue::Null,
        Ok(serde_json::Value::Bool(b)) => JsonValue::Bool(b),
        Ok(serde_json::Value::Number(n)) => JsonValue::Number(n.to_string()),
        Ok(serde_json::Value::String(s)) => JsonValue::Str(s),
        Ok(serde_json::Value::Array(_)) => JsonValue::Array,
        Ok(serde_json::Value::Object(_)) => JsonValue::Object,
    }
}

/// The raw token a JSON value stands for: the text of a string, `true` or
/// `false` for a boolean, the numeral of a number; nothing for null, arrays,
/// objects and invalid text.
pub open spec fn token_of(v: JsonValueView) -> Option<Seq<char>> {
    match v {
        JsonValueView::Str(s) => Some(s),
        JsonValueView::Bool(b) => Some(if b {
            "true"@
        } else {
            "false"@
        }),
        JsonValueView::Number(n) => Some(n),
        _ => None,
    }
}

/// The raw token of a parsed JSON value; see [`token_of`].
pub fn scalar_token(v: JsonValue) -> (r: Option<String>)
    ensures
        opt_view(r) == token_of(v@),
{
    match v {
        JsonValue::Str(s) => Some(s),
        JsonValue::Bool(true) => Some(owned("true")),
        JsonValue::Bool(false) => Some(owned("false")),
        JsonValue::Number(n) => Some(n),
        _ => None,
    }
}

/// The raw token of the JSON text `text`: what [`json_parse`] reads, taken
/// through [`token_of`].
pub fn json_text_token(text: &str) -> (r: Option<String>)
    ensures
        opt_view(r) == token_of(json_parse(text@)),
{
    scalar_token(parse_json(text))
}

} // verus!
