//! The completion client's pure half: building the JSON request body that is
//! POSTed to the completion endpoint, and interpreting the JSON response body
//! that comes back.
//!
//! Sending the request and reading the response body are I/O and stay outside
//! the crate; they hand the response body in as a plain string.

use vstd::prelude::*;

use crate::sanitize::sanitize;
use crate::sanitize::sanitized;
use crate::strutil::push_char;

verus! {

/// How one completion attempt can fail. An API-reported error payload is not
/// a failure: its message text is returned as the completion text.
#[derive(Clone, Copy, PartialEq, Eq, Structural, Debug)]
pub enum CompletionFailure {
    /// Sending the HTTP request failed.
    Transport,
    /// Reading the response body as text failed.
    BodyRead,
    /// The response body was not valid JSON.
    InvalidJson,
}

/// The hexadecimal digit for `n`, for `0 <= n < 16`.
pub open spec fn hex_digit(n: int) -> char {
    if n == 0 {
        '0'
    } else if n == 1 {
        '1'
    } else if n == 2 {
        '2'
    } else if n == 3 {
        '3'
    } else if n == 4 {
        '4'
    } else if n == 5 {
        '5'
    } else if n == 6 {
        '6'
    } else if n == 7 {
        '7'
    } else if n == 8 {
        '8'
    } else if n == 9 {
        '9'
    } else if n == 10 {
        'a'
    } else if n == 11 {
        'b'
    } else if n == 12 {
        'c'
    } else if n == 13 {
        'd'
    } else if n == 14 {
        'e'
    } else {
        'f'
    }
}

/// How one character is written inside a JSON string literal: quote and
/// backslash are escaped, control characters get their short escape or a
/// `\u00XX` escape, everything else stands as itself.
pub open spec fn escaped_char(c: char) -> Seq<char> {
    if c == '"' {
        seq!['\\', '"']
    } else if c == '\\' {
        seq!['\\', '\\']
    } else if c == '\n' {
        seq!['\\', 'n']
    } else if c == '\r' {
        seq!['\\', 'r']
    } else if c == '\t' {
        seq!['\\', 't']
    } else if c == '\u{8}' {
        seq!['\\', 'b']
    } else if c == '\u{c}' {
        seq!['\\', 'f']
    } else if (c as u32) < 0x20 {
        seq!['\\', 'u', '0', '0', hex_digit((c as u32 / 16) as int), hex_digit(
            (c as u32 % 16) as int,
        )]
    } else {
        seq![c]
    }
}

/// `s` written as the inside of a JSON string literal.
pub open spec fn json_escaped(s: Seq<char>) -> Seq<char>
    decreases s.len(),
{
    if s.len() == 0 {
        Seq::empty()
    } else {
        escaped_char(s[0]) + json_escaped(s.drop_first())
    }
}

/// The JSON body sent to the completion endpoint: the fixed model, the prompt,
/// and the fixed token limit and temperature.
pub open spec fn request_body(prompt: Seq<char>) -> Seq<char> {
    "{\"model\":\"text-davinci-003\",\"prompt\":\""@ + json_escaped(prompt)
        + "\",\"max_tokens\":4000,\"temperature\":1.0}"@
}

/// The hexadecimal digit for `n`.
fn hex_digit_char(n: u32) -> (r: char)
    requires
        n < 16,
    ensures
        r == hex_digit(n as int),
{
    if n == 0 {
        '0'
    } else if n == 1 {
        '1'
    } else if n == 2 {
        '2'
    } else if n == 3 {
        '3'
    } else if n == 4 {
        '4'
    } else if n == 5 {
        '5'
    } else if n == 6 {
        '6'
    } else if n == 7 {
        '7'
    } else if n == 8 {
        '8'
    } else if n == 9 {
        '9'
    } else if n == 10 {
        'a'
    } else if n == 11 {
        'b'
    } else if n == 12 {
        'c'
    } else if n == 13 {
        'd'
    } else if n == 14 {
        'e'
    } else {
        'f'
    }
}

/// Appends the JSON escape of `c` to `out`.
fn push_escaped(out: &mut String, c: char)
    ensures
        final(out)@ == old(out)@ + escaped_char(c),
{
    let ghost prev: Seq<char> = out@;
    if c == '"' {
        push_char(out, '\\');
        push_char(out, '"');
        proof {
            assert(out@ =~= prev + escaped_char(c));
        }
    } else if c == '\\' {
        push_char(out, '\\');
        push_char(out, '\\');
        proof {
            assert(out@ =~= prev + escaped_char(c));
        }
    } else if c == '\n' {
        push_char(out, '\\');
        push_char(out, 'n');
        proof {
            assert(out@ =~= prev + escaped_char(c));
        }
    } else if c == '\r' {
        push_char(out, '\\');
        push_char(out, 'r');
        proof {
            assert(out@ =~= prev + escaped_char(c));
        }
    } else if c == '\t' {
        push_char(out, '\\');
        push_char(out, 't');
        proof {
            assert(out@ =~= prev + escaped_char(c));
        }
    } else if c == '\u{8}' {
        push_char(out, '\\');
        push_char(out, 'b');
        proof {
            assert(out@ =~= prev + escaped_char(c));
        }
    } else if c == '\u{c}' {
        push_char(out, '\\');
        push_char(out, 'f');
        proof {
            assert(out@ =~= prev + escaped_char(c));
        }
    } else if (c as u32) < 0x20 {
        let code: u32 = c as u32;
        push_char(out, '\\');
        push_char(out, 'u');
        push_char(out, '0');
        push_char(out, '0');
        push_char(out, hex_digit_char(code / 16));
        push_char(out, hex_digit_char(code % 16));
        proof {
            assert(out@ =~= prev + escaped_char(c));
        }
    } else {
        push_char(out, c);
        proof {
            assert(out@ =~= prev + escaped_char(c));
        }
    }
}

/// Builds the JSON request body for one completion call on `prompt`.
pub fn completion_request_body(prompt: &str) -> (body: String)
    ensures
        body@ == request_body(prompt@),
{
    let mut body = String::from_str("{\"model\":\"text-davinci-003\",\"prompt\":\"");
    let n: usize = prompt.unicode_len();
    let mut i: usize = 0;
    proof {
        assert(prompt@.skip(0) =~= prompt@);
    }
    while i < n
        invariant
            i <= n,
            n == prompt@.len(),
            body@ + json_escaped(prompt@.skip(i as int)) == "{\"model\":\"text-davinci-003\",\"prompt\":\""@
                + json_escaped(prompt@),
        decreases n - i,
    {
        let ghost rest: Seq<char> = prompt@.skip(i as int);
        let ghost prev: Seq<char> = body@;
        push_escaped(&mut body, prompt.get_char(i));
        proof {
            assert(rest.drop_first() =~= prompt@.skip(i as int + 1));
            assert(rest[0] == prompt@[i as int]);
            assert(json_escaped(rest) == escaped_char(rest[0]) + json_escaped(rest.drop_first()));
            assert(body@ + json_escaped(rest.drop_first()) =~= prev + json_escaped(rest));
        }
        i = i + 1;
    }
    proof {
        assert(prompt@.skip(n as int) =~= Seq::<char>::empty());
        assert(body@ + json_escaped(Seq::<char>::empty()) =~= body@);
    }
    body.append("\",\"max_tokens\":4000,\"temperature\":1.0}");
    proof {
        assert(body@ =~= request_body(prompt@));
    }
    body
}

/// Whether the completion endpoint's response body is valid JSON, as
/// serde_json parses it.
pub uninterp spec fn json_parse_ok(body: Seq<char>) -> bool;

/// Whether the JSON value parsed from `body` carries a top-level `error`
/// field.
pub uninterp spec fn json_has_error(body: Seq<char>) -> bool;

/// The JSON rendering of `error.message` inside the value parsed from `body`
/// (`null` where the path is absent).
pub uninterp spec fn json_error_message_text(body: Seq<char>) -> Seq<char>;

/// The JSON rendering of `choices[0].text` inside the value parsed from
/// `body` (`null` where the path is absent).
pub uninterp spec fn json_choice_text(body: Seq<char>) -> Seq<char>;

/// Relies on serde_json: `from_str::<Value>` parses the body and fails
/// exactly on invalid JSON; `Value::get` says whether the top-level `error`
/// field is present; indexing with `[..]` walks to `error.message` and to
/// `choices[0].text`, yielding `Null` wherever the path does not fit; and
/// `Value`'s `to_string` renders the reached value as JSON text. Every part
/// depends on the body text alone.
#[verifier::external_body]
fn analyze_body(body: &str) -> (r: Option<(bool, String, String)>)
    ensures
        r is Some <==> json_parse_ok(body@),
        r matches Some(f) ==> f.0 == json_has_error(body@),
        r matches Some(f) ==> f.1@ == json_error_message_text(body@),
        r matches Some(f) ==> f.2@ == json_choice_text(body@),
{
    match serde_json::from_str::<serde_json::Value>(body) {
        Ok(v) => Some(
            (
                v.get("error").is_some(),
                v["error"]["message"].to_string(),
                v["choices"][0]["text"].to_string(),
            ),
        ),
        Err(_) => None,
    }
}

/// Interprets one completion response body.
///
/// A body that is not valid JSON is the only failure. A valid body yields
/// text: the rendering of `error.message` when the response reports an error,
/// else the rendering of `choices[0].text`. (An API-reported error is thus
/// handed back as ordinary completion text, deliberately.)
pub fn parse_completion_response(body: &str) -> (r: Result<String, CompletionFailure>)
    ensures
        r is Ok <==> json_parse_ok(body@),
        r matches Ok(text) ==> text@ == (if json_has_error(body@) {
            json_error_message_text(body@)
        } else {
            json_choice_text(body@)
        }),
        r matches Err(e) ==> e == CompletionFailure::InvalidJson,
{
    match analyze_body(body) {
        Some((has_error, error_text, choice_text)) => if has_error {
            Ok(error_text)
        } else {
            Ok(choice_text)
        },
        None => Err(CompletionFailure::InvalidJson),
    }
}

/// The fixed reply sent when the completion step fails outright.
pub open spec fn fallback_reply() -> Seq<char> {
    "ChatGPT API currently is not working. Try again later..."@
}

/// The reply text for one completion outcome, at the spec level: successful
/// completion text is sanitized, any failure is replaced by the fixed
/// fallback reply.
pub open spec fn reply_text(outcome: Result<Seq<char>, CompletionFailure>) -> Seq<char> {
    match outcome {
        Ok(text) => sanitized(text),
        Err(_) => fallback_reply(),
    }
}

/// Turns one completion outcome into the reply body to send back.
pub fn reply_for(outcome: &Result<String, CompletionFailure>) -> (reply: String)
    ensures
        outcome matches Ok(text) ==> reply@ == sanitized(text@),
        outcome is Err ==> reply@ == fallback_reply(),
{
    match outcome {
        Ok(text) => sanitize(text.as_str()),
        Err(_) => String::from_str("ChatGPT API currently is not working. Try again later..."),
    }
}

} // verus!
