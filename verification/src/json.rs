use vstd::prelude::*;

verus! {

/// serde_json's error type, carried through as it comes.
#[verifier::external_type_specification]
#[verifier::external_body]
pub struct ExJsonError(serde_json::Error);

/// What serde_json makes of the field `key` of the JSON text `text`: `None`
/// where the text does not parse; otherwise the field's string content where
/// it is a JSON string (`Value::as_str`), and the field's compact JSON text
/// (`Value`'s `Display`; `null` where the field is missing or the text is no
/// object).
pub uninterp spec fn json_lookup(text: Seq<char>, key: Seq<char>) -> Option<
    (Option<Seq<char>>, Seq<char>),
>;

/// Parses `text` with `serde_json::from_str` into a `serde_json::Value`,
/// indexes it with `key` (`Value`'s `Index<&str>`, which gives `Null` for a
/// missing field) and returns the field as `as_str` and as `to_string` give
/// it. Claimed: the outcome is the named `json_lookup` of the two arguments,
/// and the error comes exactly where that name is `None`.
#[verifier::external_body]
fn lookup(text: &str, key: &str) -> (r: Result<(Option<String>, String), serde_json::Error>)
    ensures
        match r {
            Ok((s, t)) => json_lookup(text@, key@) matches Some((fs, ft)) && ft == t@ && (match s {
                Some(x) => fs == Some(x@),
                None => fs is None,
            }),
            Err(_) => json_lookup(text@, key@) is None,
        },
{
    match serde_json::from_str::<serde_json::Value>(text) {
        Ok(v) => {
            let f = &v[key];
            Ok((f.as_str().map(|s| s.to_string()), f.to_string()))
        },
        Err(e) => Err(e),
    }
}

/// The field of a request that could not be read.
#[derive(Clone, Copy, Debug, PartialEq, Eq, Structural)]
pub enum Field {
    Command,
    Echo,
    Listen,
    Id,
    Kind,
}

/// Why a request was refused.
#[derive(Clone, Copy, Debug, PartialEq, Eq, Structural)]
pub enum RequestError {
    /// The arguments are not JSON.
    InvalidJson,
    /// The field is missing or has the wrong type.
    BadField(Field),
}

/// One field of a JSON request.
pub struct JsonField {
    /// Its content where it is a JSON string.
    pub string: Option<String>,
    /// Its compact JSON text.
    pub text: String,
}

/// Reads the field `key` of the JSON object in `text`.
pub fn field(text: &str, key: &str) -> (r: Result<JsonField, RequestError>)
    ensures
        match r {
            Ok(f) => json_lookup(text@, key@) matches Some((fs, ft)) && ft == f.text@ && (
            match f.string {
                Some(x) => fs == Some(x@),
                None => fs is None,
            }),
            Err(e) => e == RequestError::InvalidJson && json_lookup(text@, key@) is None,
        },
{
    match lookup(text, key) {
        Ok((string, text)) => Ok(JsonField { string, text }),
        Err(_) => Err(RequestError::InvalidJson),
    }
}

/// The string content of the field `key` of `text`, where the text parses and
/// the field is a JSON string.
pub open spec fn string_field(text: Seq<char>, key: Seq<char>) -> Option<Seq<char>> {
    match json_lookup(text, key) {
        Some((s, _)) => s,
        None => None,
    }
}

/// Reads the field `key` of `text` as a string: `InvalidJson` where the text
/// does not parse, `BadField(missing)` where the field is no JSON string.
pub fn string_field_of(text: &str, key: &str, missing: Field) -> (r: Result<String, RequestError>)
    ensures
        match r {
            Ok(s) => string_field(text@, key@) == Some(s@),
            Err(e) => (json_lookup(text@, key@) is None && e == RequestError::InvalidJson) || (
            json_lookup(text@, key@) is Some && string_field(text@, key@) is None && e
                == RequestError::BadField(missing)),
        },
{
    let f = field(text, key)?;
    match f.string {
        Some(s) => Ok(s),
        None => Err(RequestError::BadField(missing)),
    }
}

} // verus!

verus! {

/// The text of an optional string.
pub open spec fn option_view(o: Option<String>) -> Option<Seq<char>> {
    match o {
        Some(s) => Some(s@),
        None => None,
    }
}

/// The string that a request gives for a field, in either of its two forms:
/// `key` at the top level of the request, or else `nested` inside the
/// request's `args` object. Refused as no JSON where the request does not
/// parse, and with `BadField(which)` where neither form holds a string.
pub open spec fn request_field_spec(
    args: Seq<char>,
    key: Seq<char>,
    nested: Seq<char>,
    which: Field,
) -> Result<Seq<char>, RequestError> {
    match json_lookup(args, key) {
        None => Err(RequestError::InvalidJson),
        Some((Some(s), _)) => Ok(s),
        Some((None, _)) => match json_lookup(args, "args"@) {
            None => Err(RequestError::InvalidJson),
            Some((_, inner)) => match json_lookup(inner, nested) {
                Some((Some(s), _)) => Ok(s),
                _ => Err(RequestError::BadField(which)),
            },
        },
    }
}

/// Reads a string field of a request: `key` at the top level, or else
/// `nested` inside the request's `args` object (read from that object's JSON
/// text).
pub fn request_field(args: &str, key: &str, nested: &str, which: Field) -> (r: Result<
    String,
    RequestError,
>)
    ensures
        match request_field_spec(args@, key@, nested@, which) {
            Ok(s) => r matches Ok(x) && x@ == s,
            Err(e) => r matches Err(e2) && e2 == e,
        },
{
    let top = field(args, key)?;
    match top.string {
        Some(s) => Ok(s),
        None => {
            let inner = field(args, "args")?;
            match field(inner.text.as_str(), nested) {
                Ok(f) => match f.string {
                    Some(s) => Ok(s),
                    None => Err(RequestError::BadField(which)),
                },
                Err(_) => Err(RequestError::BadField(which)),
            }
        },
    }
}

} // verus!
