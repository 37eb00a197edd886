//! The decisions of the command line tool: how arguments are read and how a
//! value read from a device is shown.
use vstd::prelude::*;
use vstd::string::*;

use crate::discovery::Protocol;
use crate::json::{parse_json, parsed_json, JsonValue};

verus! {

/// Whether two texts are equal.
fn same_text(a: &str, b: &str) -> (r: bool)
    ensures
        r == (a@ == b@),
{
    a.to_owned() == b.to_owned()
}

/// The protocol named on the command line (`TCP` or `UDP`).
pub fn protocol_from_arg(name: &str) -> (r: Option<Protocol>)
    ensures
        name@ == "TCP"@ ==> r == Some(Protocol::TCP),
        name@ == "UDP"@ ==> r == Some(Protocol::UDP),
        name@ != "TCP"@ && name@ != "UDP"@ ==> r is None,
{
    proof {
        reveal_strlit("TCP");
        assert("TCP"@ =~= seq!['T', 'C', 'P']);
        reveal_strlit("UDP");
        assert("UDP"@ =~= seq!['U', 'D', 'P']);
    }
    if same_text(name, "TCP") {
        Some(Protocol::TCP)
    } else if same_text(name, "UDP") {
        Some(Protocol::UDP)
    } else {
        None
    }
}

/// How a value read from a device is printed.
#[derive(Debug, Clone, Copy, PartialEq, Eq, Structural)]
pub enum OutputFormat {
    /// The value itself, for values that have a literal form.
    Literal,
    /// The JSON text of the value.
    Json,
}

/// The output format named on the command line (`literal` or `json`).
pub fn output_format_from_arg(name: &str) -> (r: Option<OutputFormat>)
    ensures
        name@ == "literal"@ ==> r == Some(OutputFormat::Literal),
        name@ == "json"@ ==> r == Some(OutputFormat::Json),
        name@ != "literal"@ && name@ != "json"@ ==> r is None,
{
    proof {
        reveal_strlit("literal");
        assert("literal"@ =~= seq!['l', 'i', 't', 'e', 'r', 'a', 'l']);
        reveal_strlit("json");
        assert("json"@ =~= seq!['j', 's', 'o', 'n']);
    }
    if same_text(name, "literal") {
        Some(OutputFormat::Literal)
    } else if same_text(name, "json") {
        Some(OutputFormat::Json)
    } else {
        None
    }
}

/// Why a value has no literal form.
#[derive(Debug, Clone, Copy, PartialEq, Eq, Structural)]
pub enum LiteralError {
    IsArray,
    IsObject,
}

impl LiteralError {
    /// The message shown to the user.
    pub fn message(&self) -> (m: &'static str)
        ensures
            *self == LiteralError::IsArray ==> m@
                == "Result is an array which can't be displayed as literal. Please specify `-o json`"@,
            *self == LiteralError::IsObject ==> m@
                == "Result is an object which can't be displayed as literal. Please specify `-o json`"@,
    {
        match self {
            LiteralError::IsArray => "Result is an array which can't be displayed as literal. Please specify `-o json`",
            LiteralError::IsObject => "Result is an object which can't be displayed as literal. Please specify `-o json`",
        }
    }
}

/// The literal form of a value: `null`, `true` or `false`, the text of a
/// number, or a string without quotes. Arrays and objects have none.
pub open spec fn literal_text(v: JsonValue) -> Result<Seq<char>, LiteralError> {
    match v {
        JsonValue::Null => Ok(seq!['n', 'u', 'l', 'l']),
        JsonValue::Bool(b) => if b {
            Ok(seq!['t', 'r', 'u', 'e'])
        } else {
            Ok(seq!['f', 'a', 'l', 's', 'e'])
        },
        JsonValue::Number(n) => Ok(n@),
        JsonValue::String(s) => Ok(s@),
        JsonValue::Array(_) => Err(LiteralError::IsArray),
        JsonValue::Object(_) => Err(LiteralError::IsObject),
    }
}

/// The literal form of a string is its whole text, and that of a number its
/// whole JSON text, of any length; only arrays and objects have none.
pub proof fn law_literal_keeps_whole_text(v: JsonValue)
    ensures
        v matches JsonValue::String(s) ==> literal_text(v) == Ok::<Seq<char>, LiteralError>(s@),
        v matches JsonValue::Number(n) ==> literal_text(v) == Ok::<Seq<char>, LiteralError>(n@),
        literal_text(v) is Err <==> (v is Array || v is Object),
{
}

/// Shows a value in its literal form.
pub fn display_literal(value: &JsonValue) -> (r: Result<String, LiteralError>)
    ensures
        (match literal_text(*value) {
            Ok(t) => r matches Ok(s) && s@ == t,
            Err(e) => r == Err::<String, LiteralError>(e),
        }),
        *value matches JsonValue::String(s) ==> (r matches Ok(t) && t@ == s@),
        *value matches JsonValue::Number(n) ==> (r matches Ok(t) && t@ == n@),
{
    match value {
        JsonValue::Null => {
            let s = String::from_str("null");
            proof {
                reveal_strlit("null");
            }
            Ok(s)
        },
        JsonValue::Bool(b) => {
            if *b {
                let s = String::from_str("true");
                proof {
                    reveal_strlit("true");
                }
                Ok(s)
            } else {
                let s = String::from_str("false");
                proof {
                    reveal_strlit("false");
                }
                Ok(s)
            }
        },
        JsonValue::Number(n) => Ok(n.clone()),
        JsonValue::String(s) => Ok(s.clone()),
        JsonValue::Array(_) => Err(LiteralError::IsArray),
        JsonValue::Object(_) => Err(LiteralError::IsObject),
    }
}

/// How a value given on the command line is read.
#[derive(Debug, Clone, Copy, PartialEq, Eq, Structural)]
pub enum InputFormat {
    String,
    Number,
    Boolean,
    Json,
}

/// The input format named on the command line.
pub fn input_format_from_arg(name: &str) -> (r: Option<InputFormat>)
    ensures
        name@ == "string"@ ==> r == Some(InputFormat::String),
        name@ == "number"@ ==> r == Some(InputFormat::Number),
        name@ == "boolean"@ ==> r == Some(InputFormat::Boolean),
        name@ == "json"@ ==> r == Some(InputFormat::Json),
        name@ != "string"@ && name@ != "number"@ && name@ != "boolean"@ && name@ != "json"@
            ==> r is None,
{
    proof {
        reveal_strlit("string");
        assert("string"@ =~= seq!['s', 't', 'r', 'i', 'n', 'g']);
        reveal_strlit("number");
        assert("number"@ =~= seq!['n', 'u', 'm', 'b', 'e', 'r']);
        reveal_strlit("boolean");
        assert("boolean"@ =~= seq!['b', 'o', 'o', 'l', 'e', 'a', 'n']);
        reveal_strlit("json");
        assert("json"@ =~= seq!['j', 's', 'o', 'n']);
    }
    if same_text(name, "string") {
        Some(InputFormat::String)
    } else if same_text(name, "number") {
        Some(InputFormat::Number)
    } else if same_text(name, "boolean") {
        Some(InputFormat::Boolean)
    } else if same_text(name, "json") {
        Some(InputFormat::Json)
    } else {
        None
    }
}

/// A value given on the command line, read as far as this library reads it:
/// a string, a boolean or a JSON text is a value at once; a number still has
/// to be parsed as a floating point number, which the caller does.
#[derive(Debug, PartialEq, Eq)]
pub enum InputValue {
    Value(JsonValue),
    NumberText(String),
}

/// Reads a value given on the command line: as a string, as a boolean (true
/// exactly for the text `true`), as a JSON text, or as text still to be
/// parsed as a number. A JSON text that does not parse is refused with
/// `serde_json`'s error.
pub fn parse_input(value: &str, format: InputFormat) -> (r: Result<InputValue, serde_json::Error>)
    ensures
        format == InputFormat::String ==> (r matches Ok(InputValue::Value(JsonValue::String(s)))
            && s@ == value@),
        format == InputFormat::Boolean ==> (r matches Ok(InputValue::Value(JsonValue::Bool(b)))
            && b == (value@ == "true"@)),
        format == InputFormat::Number ==> (r matches Ok(InputValue::NumberText(s)) && s@
            == value@),
        format == InputFormat::Json && parsed_json(value@) is None ==> r is Err,
        format == InputFormat::Json && parsed_json(value@) is Some ==> (r is Ok && r->Ok_0
            == InputValue::Value(parsed_json(value@)->Some_0)),
{
    match format {
        InputFormat::String => Ok(InputValue::Value(JsonValue::String(value.to_owned()))),
        InputFormat::Number => Ok(InputValue::NumberText(value.to_owned())),
        InputFormat::Boolean => Ok(InputValue::Value(JsonValue::Bool(same_text(value, "true")))),
        InputFormat::Json => match parse_json(value) {
            Ok(v) => Ok(InputValue::Value(v)),
            Err(e) => Err(e),
        },
    }
}

} // verus!
