//! The request entity: four text fields read from a JSON request body, and
//! written back as JSON for the external process's single argument.
use vstd::prelude::*;
use vstd::string::StringExecFns;
use crate::json::{json_as_str, json_entries, json_get, json_parse, json_quoted, json_str, parse_json, quote_json};

verus! {

/// The text of member `key` of a JSON value, where it is present and a string.
pub open spec fn text_field(v: serde_json::Value, key: Seq<char>) -> Option<Seq<char>> {
    if json_entries(v).contains_key(key) {
        json_str(json_entries(v)[key])
    } else {
        None
    }
}

/// A request body is well formed when it is JSON with all four fields as
/// strings.
pub open spec fn body_fields(body: Seq<char>) -> Option<(Seq<char>, Seq<char>, Seq<char>, Seq<char>)> {
    match json_parse(body) {
        Some(v) => if text_field(v, "address"@) is Some && text_field(v, "first_date"@) is Some
            && text_field(v, "second_date"@) is Some && text_field(v, "current_year"@) is Some {
            Some(
                (
                    text_field(v, "address"@)->0,
                    text_field(v, "first_date"@)->0,
                    text_field(v, "second_date"@)->0,
                    text_field(v, "current_year"@)->0,
                ),
            )
        } else {
            None
        },
        None => None,
    }
}

/// The JSON object that stands for a request, its fields in declaration order.
pub open spec fn argument_text(
    address: Seq<char>,
    first_date: Seq<char>,
    second_date: Seq<char>,
    current_year: Seq<char>,
) -> Seq<char> {
    "{\"address\":"@ + json_quoted(address) + ",\"first_date\":"@ + json_quoted(first_date)
        + ",\"second_date\":"@ + json_quoted(second_date) + ",\"current_year\":"@
        + json_quoted(current_year) + "}"@
}

pub struct CrewRequest {
    pub address: String,
    pub first_date: String,
    pub second_date: String,
    pub current_year: String,
}

/// Why a request body was refused.
#[derive(Debug, PartialEq, Eq, Structural, Clone, Copy)]
pub enum RequestError {
    /// The body is no JSON document.
    NotJson,
    /// A field is missing or is not a string.
    MissingField,
}

/// The text of member `key` of `v`, where it is present and a string.
fn string_field(v: &serde_json::Value, key: &str) -> (r: Option<String>)
    ensures
        r matches Some(t) ==> text_field(*v, key@) == Some(t@),
        r is None ==> text_field(*v, key@) is None,
{
    match json_get(v, key) {
        Some(member) => json_as_str(&member),
        None => None,
    }
}

impl CrewRequest {
    /// The four fields as one tuple.
    pub open spec fn fields(&self) -> (Seq<char>, Seq<char>, Seq<char>, Seq<char>) {
        (self.address@, self.first_date@, self.second_date@, self.current_year@)
    }

    /// Reads a request body. It is accepted exactly when it is JSON with the
    /// four fields as strings; other members are ignored.
    pub fn parse(body: &str) -> (r: Result<CrewRequest, RequestError>)
        ensures
            r matches Ok(req) ==> body_fields(body@) == Some(req.fields()),
            r is Err <==> body_fields(body@) is None,
            r == Err::<CrewRequest, RequestError>(RequestError::NotJson) <==> json_parse(body@) is None,
    {
        let value = match parse_json(body) {
            Some(v) => v,
            None => {
                return Err(RequestError::NotJson);
            },
        };
        let address = string_field(&value, "address");
        let first_date = string_field(&value, "first_date");
        let second_date = string_field(&value, "second_date");
        let current_year = string_field(&value, "current_year");
        match (address, first_date, second_date, current_year) {
            (Some(address), Some(first_date), Some(second_date), Some(current_year)) => {
                Ok(CrewRequest { address, first_date, second_date, current_year })
            },
            _ => Err(RequestError::MissingField),
        }
    }

    /// The request as a compact JSON object: the external process's argument.
    pub fn to_argument(&self) -> (r: String)
        ensures
            r@ == argument_text(self.address@, self.first_date@, self.second_date@, self.current_year@),
    {
        let mut out = String::from_str("{\"address\":");
        out.append(quote_json(self.address.as_str()).as_str());
        out.append(",\"first_date\":");
        out.append(quote_json(self.first_date.as_str()).as_str());
        out.append(",\"second_date\":");
        out.append(quote_json(self.second_date.as_str()).as_str());
        out.append(",\"current_year\":");
        out.append(quote_json(self.current_year.as_str()).as_str());
        out.append("}");
        out
    }
}

} // verus!
