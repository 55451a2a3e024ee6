//! The upload pipeline: serialize a batch, hand it to the transport,
//! parse the ingestion response, and classify the outcome as success,
//! retryable failure, or fatal failure.

use vstd::prelude::*;
use crate::models::Envelope;
use crate::text::{dec_digits, u64_to_string, chars_to_string, str_to_chars};
use crate::wire::serialize_envelopes;

verus! {

/// One per-item error descriptor of an ingestion response.
pub struct IngestionError {
    pub index: u64,
    pub status_code: u64,
    pub message: String,
}

/// Mathematical model of an [`IngestionError`].
pub struct IngestionErrorV {
    pub index: u64,
    pub status_code: u64,
    pub message: Seq<char>,
}

impl View for IngestionError {
    type V = IngestionErrorV;

    open spec fn view(&self) -> IngestionErrorV {
        IngestionErrorV {
            index: self.index,
            status_code: self.status_code,
            message: self.message@,
        }
    }
}

/// The model of an error list.
pub open spec fn errors_view(es: Seq<IngestionError>) -> Seq<IngestionErrorV> {
    Seq::new(es.len(), |i: int| es[i]@)
}

/// What the endpoint reports for one delivery attempt.
pub struct IngestionResponse {
    pub items_received: u64,
    pub items_accepted: u64,
    pub errors: Vec<IngestionError>,
}

/// Mathematical model of an [`IngestionResponse`].
pub struct IngestionResponseV {
    pub items_received: u64,
    pub items_accepted: u64,
    pub errors: Seq<IngestionErrorV>,
}

impl View for IngestionResponse {
    type V = IngestionResponseV;

    open spec fn view(&self) -> IngestionResponseV {
        IngestionResponseV {
            items_received: self.items_received,
            items_accepted: self.items_accepted,
            errors: errors_view(self.errors@),
        }
    }
}

/// Errors that occur during delivery of a batch.
#[derive(Debug)]
pub enum Error {
    /// The outgoing batch could not be encoded. The verified serializer is
    /// total, so delivery never returns this; the variant stands for
    /// callers that need the full taxonomy.
    UploadSerializeRequest(String),
    /// The ingestion response could not be parsed: delivery may have
    /// partially succeeded but the outcome is unknown.
    UploadDeserializeResponse(String),
    /// The transport could not complete the exchange; retryable.
    UploadConnection(String),
    /// The endpoint rejected at least one item; carries a human-readable
    /// summary. Not retried: a whole-batch resend would re-submit
    /// already-accepted items.
    Upload(String),
}

impl Error {
    /// The name under which this exporter reports its errors.
    pub fn exporter_name(&self) -> (r: &'static str)
        ensures
            r@ == "application-insights"@,
    {
        "application-insights"
    }
}

/// The pluggable HTTP client the exporter sends telemetry through:
/// given the configured endpoint and a serialized body, return the
/// response body or a failure message. No behaviour is assumed of it;
/// implementations live with the caller and its runtime.
pub trait HttpClient {
    /// Sends one serialized batch; `Ok` carries the response body,
    /// `Err` a connection-level failure message.
    fn send(&mut self, endpoint: &str, body: String) -> Result<String, String>;
}

/// Whether `c` is JSON whitespace.
pub open spec fn is_ws(c: char) -> bool {
    c == ' ' || c == '\t' || c == '\n' || c == '\r'
}

/// Whether `c` is a decimal digit.
pub open spec fn is_digit(c: char) -> bool {
    48 <= (c as u32) <= 57
}

/// The first position at or after `i` that holds no whitespace.
pub open spec fn spec_skip_ws(s: Seq<char>, i: nat) -> nat
    decreases s.len() - i,
{
    if i < s.len() && is_ws(s[i as int]) {
        spec_skip_ws(s, i + 1)
    } else {
        i
    }
}

/// Whitespace skipping never moves backward and never passes the end.
proof fn lemma_skip_ws_bounds(s: Seq<char>, i: nat)
    ensures
        i <= spec_skip_ws(s, i),
        i <= s.len() ==> spec_skip_ws(s, i) <= s.len(),
    decreases s.len() - i,
{
    if i < s.len() && is_ws(s[i as int]) {
        lemma_skip_ws_bounds(s, i + 1);
    }
}

/// Digits read into a `u64`, failing on overflow.
pub open spec fn spec_parse_u64_loop(s: Seq<char>, i: nat, acc: u64) -> (Option<u64>, nat)
    decreases s.len() - i,
{
    if i < s.len() && is_digit(s[i as int]) {
        let d = ((s[i as int] as u32) - 48) as u64;
        if acc <= (0xFFFF_FFFF_FFFF_FFFFu64 - d) / 10 {
            spec_parse_u64_loop(s, i + 1, (acc * 10 + d) as u64)
        } else {
            (None, i)
        }
    } else {
        (Some(acc), i)
    }
}

/// A number: one or more digits.
pub open spec fn spec_parse_u64(s: Seq<char>, i: nat) -> (Option<u64>, nat) {
    if i < s.len() && is_digit(s[i as int]) {
        spec_parse_u64_loop(s, i, 0)
    } else {
        (None, i)
    }
}

/// What an escape character stands for; `None` for escapes the parser
/// does not accept.
pub open spec fn spec_unescape(c: char) -> Option<char> {
    if c == '"' {
        Some('"')
    } else if c == '\\' {
        Some('\\')
    } else if c == '/' {
        Some('/')
    } else if c == 'n' {
        Some('\n')
    } else if c == 'r' {
        Some('\r')
    } else if c == 't' {
        Some('\t')
    } else if c == 'b' {
        Some('\u{0008}')
    } else if c == 'f' {
        Some('\u{000C}')
    } else {
        None
    }
}

/// The value of one hexadecimal digit, either case; `None` otherwise.
pub open spec fn hex_digit_val(c: char) -> Option<u32> {
    if 48 <= (c as u32) <= 57 {
        Some(((c as u32) - 48) as u32)
    } else if 97 <= (c as u32) <= 102 {
        Some(((c as u32) - 87) as u32)
    } else if 65 <= (c as u32) <= 70 {
        Some(((c as u32) - 55) as u32)
    } else {
        None
    }
}

/// Four hexadecimal digits read as one value.
pub open spec fn spec_hex4(s: Seq<char>, i: nat) -> Option<u32> {
    if i + 4 <= s.len() {
        match (
            hex_digit_val(s[i as int]),
            hex_digit_val(s[i as int + 1]),
            hex_digit_val(s[i as int + 2]),
            hex_digit_val(s[i as int + 3]),
        ) {
            (Some(a), Some(b), Some(c), Some(d)) => Some((a * 4096 + b * 256 + c * 16 + d) as u32),
            _ => None,
        }
    } else {
        None
    }
}

/// The content of a string after the opening quote, up to and including
/// the closing quote.
pub open spec fn spec_parse_str_chars(s: Seq<char>, i: nat) -> (Option<Seq<char>>, nat)
    decreases s.len() - i,
{
    if i >= s.len() {
        (None, i)
    } else if s[i as int] == '"' {
        (Some(Seq::empty()), i + 1)
    } else if s[i as int] == '\\' {
        if i + 1 >= s.len() {
            (None, i)
        } else if s[i as int + 1] == 'u' {
            match spec_hex4(s, i + 2) {
                None => (None, i),
                Some(code) => {
                    if 0xD800 <= code < 0xDC00 {
                        // a high surrogate: a low-surrogate escape must follow
                        if i + 8 <= s.len() && s[i as int + 6] == '\\' && s[i as int + 7]
                            == 'u' {
                            match spec_hex4(s, i + 8) {
                                None => (None, i),
                                Some(low) => {
                                    if 0xDC00 <= low < 0xE000 {
                                        let combined = (0x10000 + (code - 0xD800) * 0x400 + (low
                                            - 0xDC00)) as u32;
                                        let (rest, j) = spec_parse_str_chars(s, i + 12);
                                        match rest {
                                            Some(r) => (Some(seq![combined as char] + r), j),
                                            None => (None, j),
                                        }
                                    } else {
                                        (None, i)
                                    }
                                },
                            }
                        } else {
                            (None, i)
                        }
                    } else if 0xDC00 <= code < 0xE000 {
                        (None, i)
                    } else {
                        let (rest, j) = spec_parse_str_chars(s, i + 6);
                        match rest {
                            Some(r) => (Some(seq![code as char] + r), j),
                            None => (None, j),
                        }
                    }
                },
            }
        } else {
            match spec_unescape(s[i as int + 1]) {
                Some(c) => {
                    let (rest, j) = spec_parse_str_chars(s, i + 2);
                    match rest {
                        Some(r) => (Some(seq![c] + r), j),
                        None => (None, j),
                    }
                },
                None => (None, i),
            }
        }
    } else {
        let (rest, j) = spec_parse_str_chars(s, i + 1);
        match rest {
            Some(r) => (Some(seq![s[i as int]] + r), j),
            None => (None, j),
        }
    }
}

/// A quoted string.
pub open spec fn spec_parse_string(s: Seq<char>, i: nat) -> (Option<Seq<char>>, nat) {
    if i < s.len() && s[i as int] == '"' {
        spec_parse_str_chars(s, i + 1)
    } else {
        (None, i)
    }
}

/// The first position at or after `i` past any run of digits.
pub open spec fn spec_skip_digits(s: Seq<char>, i: nat) -> nat
    decreases s.len() - i,
{
    if i < s.len() && is_digit(s[i as int]) {
        spec_skip_digits(s, i + 1)
    } else {
        i
    }
}

/// Reads past one JSON value of any shape without interpreting it: how
/// the parser tolerates members it does not know. Yields whether a value
/// stood there, and the position after it.
pub open spec fn spec_skip_value(s: Seq<char>, i: nat) -> (bool, nat)
    decreases s.len() - i, 0int,
    via spec_skip_value_decreases
{
    let i1 = spec_skip_ws(s, i);
    if i1 >= s.len() {
        (false, i1)
    } else if s[i1 as int] == '"' {
        let (r, j) = spec_parse_string(s, i1);
        (r is Some, j)
    } else if s[i1 as int] == '{' {
        spec_skip_members(s, i1 + 1)
    } else if s[i1 as int] == '[' {
        spec_skip_elements(s, i1 + 1)
    } else if s[i1 as int] == 't' {
        if i1 + 4 <= s.len() && s[i1 as int + 1] == 'r' && s[i1 as int + 2] == 'u' && s[i1 as int
            + 3] == 'e' {
            (true, i1 + 4)
        } else {
            (false, i1)
        }
    } else if s[i1 as int] == 'f' {
        if i1 + 5 <= s.len() && s[i1 as int + 1] == 'a' && s[i1 as int + 2] == 'l' && s[i1 as int
            + 3] == 's' && s[i1 as int + 4] == 'e' {
            (true, i1 + 5)
        } else {
            (false, i1)
        }
    } else if s[i1 as int] == 'n' {
        if i1 + 4 <= s.len() && s[i1 as int + 1] == 'u' && s[i1 as int + 2] == 'l' && s[i1 as int
            + 3] == 'l' {
            (true, i1 + 4)
        } else {
            (false, i1)
        }
    } else {
        // a number: optional minus, digits, optional fraction, optional exponent
        let start: nat = if s[i1 as int] == '-' {
            i1 + 1
        } else {
            i1
        };
        let j = spec_skip_digits(s, start);
        if j == start {
            (false, i1)
        } else {
            let jf: nat = if j < s.len() && s[j as int] == '.' {
                spec_skip_digits(s, j + 1)
            } else {
                j
            };
            if j < s.len() && s[j as int] == '.' && jf == j + 1 {
                (false, j)
            } else if jf < s.len() && (s[jf as int] == 'e' || s[jf as int] == 'E') {
                let es: nat = if jf + 1 < s.len() && (s[jf as int + 1] == '+' || s[jf as int + 1]
                    == '-') {
                    jf + 2
                } else {
                    jf + 1
                };
                let je = spec_skip_digits(s, es);
                if je == es {
                    (false, jf)
                } else {
                    (true, je)
                }
            } else {
                (true, jf)
            }
        }
    }
}

#[via_fn]
proof fn spec_skip_value_decreases(s: Seq<char>, i: nat) {
    lemma_skip_ws_bounds(s, i);
}

/// Reads past the elements of an array, after its opening bracket.
pub open spec fn spec_skip_elements(s: Seq<char>, i: nat) -> (bool, nat)
    decreases s.len() - i, 1int,
    via spec_skip_elements_decreases
{
    let i1 = spec_skip_ws(s, i);
    if i1 >= s.len() {
        (false, i1)
    } else if s[i1 as int] == ']' {
        (true, i1 + 1)
    } else {
        let (ok, j) = spec_skip_value(s, i1);
        if !ok {
            (false, j)
        } else {
            let j1 = spec_skip_ws(s, j);
            if j1 < s.len() && s[j1 as int] == ',' {
                if j1 + 1 <= i || j1 + 1 > s.len() {
                    (false, j1)
                } else {
                    spec_skip_elements(s, j1 + 1)
                }
            } else if j1 < s.len() && s[j1 as int] == ']' {
                (true, j1 + 1)
            } else {
                (false, j1)
            }
        }
    }
}

#[via_fn]
proof fn spec_skip_elements_decreases(s: Seq<char>, i: nat) {
    lemma_skip_ws_bounds(s, i);
}

/// Reads past the members of an object, after its opening brace.
pub open spec fn spec_skip_members(s: Seq<char>, i: nat) -> (bool, nat)
    decreases s.len() - i, 1int,
    via spec_skip_members_decreases
{
    let i1 = spec_skip_ws(s, i);
    if i1 >= s.len() {
        (false, i1)
    } else if s[i1 as int] == '}' {
        (true, i1 + 1)
    } else {
        let (k, j) = spec_parse_string(s, i1);
        match k {
            None => (false, j),
            Some(_) => {
                let j1 = spec_skip_ws(s, j);
                if j1 < s.len() && s[j1 as int] == ':' {
                    if j1 + 1 <= i || j1 + 1 > s.len() {
                        (false, j1)
                    } else {
                        let (ok, j2) = spec_skip_value(s, j1 + 1);
                        if !ok {
                            (false, j2)
                        } else {
                            let j3 = spec_skip_ws(s, j2);
                            if j3 < s.len() && s[j3 as int] == ',' {
                                if j3 + 1 <= i || j3 + 1 > s.len() {
                                    (false, j3)
                                } else {
                                    spec_skip_members(s, j3 + 1)
                                }
                            } else if j3 < s.len() && s[j3 as int] == '}' {
                                (true, j3 + 1)
                            } else {
                                (false, j3)
                            }
                        }
                    }
                } else {
                    (false, j1)
                }
            },
        }
    }
}

#[via_fn]
proof fn spec_skip_members_decreases(s: Seq<char>, i: nat) {
    lemma_skip_ws_bounds(s, i);
}

/// The members of one error descriptor, after its opening brace: `index`,
/// `statusCode` and `message` in any order, all three required, unknown
/// keys refused.
pub open spec fn spec_parse_error_members(
    s: Seq<char>,
    i: nat,
    idx: Option<u64>,
    code: Option<u64>,
    msg: Option<Seq<char>>,
) -> (Option<IngestionErrorV>, nat)
    decreases s.len() - i,
{
    let i1 = spec_skip_ws(s, i);
    if i1 >= s.len() {
        (None, i1)
    } else if s[i1 as int] == '}' {
        match (idx, code, msg) {
            (Some(index), Some(status_code), Some(message)) => (
                Some(IngestionErrorV { index, status_code, message }),
                i1 + 1,
            ),
            _ => (None, i1),
        }
    } else {
        let (k, j) = spec_parse_string(s, i1);
        match k {
            None => (None, j),
            Some(key) => {
                let j1 = spec_skip_ws(s, j);
                if j1 < s.len() && s[j1 as int] == ':' {
                    let j2 = spec_skip_ws(s, j1 + 1);
                    if key == "index"@ || key == "statusCode"@ {
                        let (n, j3) = spec_parse_u64(s, j2);
                        match n {
                            None => (None, j3),
                            Some(v) => {
                                let j4 = spec_skip_ws(s, j3);
                                let j5: nat = if j4 < s.len() && s[j4 as int] == ',' {
                                    j4 + 1
                                } else {
                                    j4
                                };
                                if j5 <= i || j5 > s.len() {
                                    (None, j5)
                                } else if key == "index"@ {
                                    spec_parse_error_members(s, j5, Some(v), code, msg)
                                } else {
                                    spec_parse_error_members(s, j5, idx, Some(v), msg)
                                }
                            },
                        }
                    } else if key == "message"@ {
                        let (m, j3) = spec_parse_string(s, j2);
                        match m {
                            None => (None, j3),
                            Some(text) => {
                                let j4 = spec_skip_ws(s, j3);
                                let j5: nat = if j4 < s.len() && s[j4 as int] == ',' {
                                    j4 + 1
                                } else {
                                    j4
                                };
                                if j5 <= i || j5 > s.len() {
                                    (None, j5)
                                } else {
                                    spec_parse_error_members(s, j5, idx, code, Some(text))
                                }
                            },
                        }
                    } else {
                        let (ok, j3) = spec_skip_value(s, j2);
                        if !ok {
                            (None, j3)
                        } else {
                            let j4 = spec_skip_ws(s, j3);
                            let j5: nat = if j4 < s.len() && s[j4 as int] == ',' {
                                j4 + 1
                            } else {
                                j4
                            };
                            if j5 <= i || j5 > s.len() {
                                (None, j5)
                            } else {
                                spec_parse_error_members(s, j5, idx, code, msg)
                            }
                        }
                    }
                } else {
                    (None, j1)
                }
            },
        }
    }
}

/// One error descriptor object.
pub open spec fn spec_parse_error(s: Seq<char>, i: nat) -> (Option<IngestionErrorV>, nat) {
    let i1 = spec_skip_ws(s, i);
    if i1 < s.len() && s[i1 as int] == '{' {
        spec_parse_error_members(s, i1 + 1, None, None, None)
    } else {
        (None, i1)
    }
}

/// The error descriptors after the opening bracket of a non-empty array.
pub open spec fn spec_parse_errors_rest(s: Seq<char>, i: nat) -> (
    Option<Seq<IngestionErrorV>>,
    nat,
)
    decreases s.len() - i,
{
    let (e, j) = spec_parse_error(s, i);
    match e {
        None => (None, j),
        Some(err) => {
            let j1 = spec_skip_ws(s, j);
            if j1 < s.len() && s[j1 as int] == ',' {
                let j2 = j1 + 1;
                if j2 <= i || j2 > s.len() {
                    (None, j2)
                } else {
                    let (rest, j3) = spec_parse_errors_rest(s, j2);
                    match rest {
                        Some(rs) => (Some(seq![err] + rs), j3),
                        None => (None, j3),
                    }
                }
            } else if j1 < s.len() && s[j1 as int] == ']' {
                (Some(seq![err]), j1 + 1)
            } else {
                (None, j1)
            }
        },
    }
}

/// An array of error descriptors.
pub open spec fn spec_parse_errors(s: Seq<char>, i: nat) -> (Option<Seq<IngestionErrorV>>, nat) {
    let i1 = spec_skip_ws(s, i);
    if i1 < s.len() && s[i1 as int] == '[' {
        let i2 = spec_skip_ws(s, i1 + 1);
        if i2 < s.len() && s[i2 as int] == ']' {
            (Some(Seq::empty()), i2 + 1)
        } else {
            spec_parse_errors_rest(s, i1 + 1)
        }
    } else {
        (None, i1)
    }
}

/// The members of the response object, after its opening brace:
/// `itemsReceived` and `itemsAccepted` required, `errors` defaulting to
/// the empty array, unknown keys refused.
pub open spec fn spec_parse_response_members(
    s: Seq<char>,
    i: nat,
    received: Option<u64>,
    accepted: Option<u64>,
    errors: Option<Seq<IngestionErrorV>>,
) -> (Option<IngestionResponseV>, nat)
    decreases s.len() - i,
{
    let i1 = spec_skip_ws(s, i);
    if i1 >= s.len() {
        (None, i1)
    } else if s[i1 as int] == '}' {
        match (received, accepted) {
            (Some(items_received), Some(items_accepted)) => (
                Some(
                    IngestionResponseV {
                        items_received,
                        items_accepted,
                        errors: match errors {
                            Some(es) => es,
                            None => Seq::empty(),
                        },
                    },
                ),
                i1 + 1,
            ),
            _ => (None, i1),
        }
    } else {
        let (k, j) = spec_parse_string(s, i1);
        match k {
            None => (None, j),
            Some(key) => {
                let j1 = spec_skip_ws(s, j);
                if j1 < s.len() && s[j1 as int] == ':' {
                    let j2 = spec_skip_ws(s, j1 + 1);
                    if key == "itemsReceived"@ || key == "itemsAccepted"@ {
                        let (n, j3) = spec_parse_u64(s, j2);
                        match n {
                            None => (None, j3),
                            Some(v) => {
                                let j4 = spec_skip_ws(s, j3);
                                let j5: nat = if j4 < s.len() && s[j4 as int] == ',' {
                                    j4 + 1
                                } else {
                                    j4
                                };
                                if j5 <= i || j5 > s.len() {
                                    (None, j5)
                                } else if key == "itemsReceived"@ {
                                    spec_parse_response_members(s, j5, Some(v), accepted, errors)
                                } else {
                                    spec_parse_response_members(s, j5, received, Some(v), errors)
                                }
                            },
                        }
                    } else if key == "errors"@ {
                        let (es, j3) = spec_parse_errors(s, j2);
                        match es {
                            None => (None, j3),
                            Some(list) => {
                                let j4 = spec_skip_ws(s, j3);
                                let j5: nat = if j4 < s.len() && s[j4 as int] == ',' {
                                    j4 + 1
                                } else {
                                    j4
                                };
                                if j5 <= i || j5 > s.len() {
                                    (None, j5)
                                } else {
                                    spec_parse_response_members(
                                        s,
                                        j5,
                                        received,
                                        accepted,
                                        Some(list),
                                    )
                                }
                            },
                        }
                    } else {
                        let (ok, j3) = spec_skip_value(s, j2);
                        if !ok {
                            (None, j3)
                        } else {
                            let j4 = spec_skip_ws(s, j3);
                            let j5: nat = if j4 < s.len() && s[j4 as int] == ',' {
                                j4 + 1
                            } else {
                                j4
                            };
                            if j5 <= i || j5 > s.len() {
                                (None, j5)
                            } else {
                                spec_parse_response_members(s, j5, received, accepted, errors)
                            }
                        }
                    }
                } else {
                    (None, j1)
                }
            },
        }
    }
}

/// A whole response text: one object, nothing but whitespace after it.
pub open spec fn spec_parse_response(s: Seq<char>) -> Option<IngestionResponseV> {
    let i1 = spec_skip_ws(s, 0);
    if i1 < s.len() && s[i1 as int] == '{' {
        let (r, j) = spec_parse_response_members(s, i1 + 1, None, None, None);
        match r {
            Some(resp) => {
                if spec_skip_ws(s, j) == s.len() {
                    Some(resp)
                } else {
                    None
                }
            },
            None => None,
        }
    } else {
        None
    }
}

/// Exec counterpart of [`spec_skip_ws`].
fn skip_ws(s: &Vec<char>, i: usize) -> (r: usize)
    requires
        i <= s@.len(),
    ensures
        r as nat == spec_skip_ws(s@, i as nat),
        i <= r <= s@.len(),
    decreases s@.len() - i,
{
    if i < s.len() && (s[i] == ' ' || s[i] == '\t' || s[i] == '\n' || s[i] == '\r') {
        skip_ws(s, i + 1)
    } else {
        i
    }
}

/// Exec counterpart of [`spec_parse_u64_loop`].
fn parse_u64_loop(s: &Vec<char>, i: usize, acc: u64) -> (r: (Option<u64>, usize))
    requires
        i <= s@.len(),
    ensures
        (r.0, r.1 as nat) == spec_parse_u64_loop(s@, i as nat, acc),
        i <= r.1 <= s@.len(),
    decreases s@.len() - i,
{
    if i < s.len() && (s[i] as u32) >= 48 && (s[i] as u32) <= 57 {
        let d = ((s[i] as u32) - 48) as u64;
        if acc <= (0xFFFF_FFFF_FFFF_FFFFu64 - d) / 10 {
            proof {
                assert(acc * 10 + d <= 0xFFFF_FFFF_FFFF_FFFFu64) by (nonlinear_arith)
                    requires
                        acc <= (0xFFFF_FFFF_FFFF_FFFFu64 - d) / 10,
                        d <= 9,
                ;
            }
            parse_u64_loop(s, i + 1, acc * 10 + d)
        } else {
            (None, i)
        }
    } else {
        (Some(acc), i)
    }
}

/// Exec counterpart of [`spec_parse_u64`].
fn parse_u64(s: &Vec<char>, i: usize) -> (r: (Option<u64>, usize))
    requires
        i <= s@.len(),
    ensures
        (r.0, r.1 as nat) == spec_parse_u64(s@, i as nat),
        i <= r.1 <= s@.len(),
{
    if i < s.len() && (s[i] as u32) >= 48 && (s[i] as u32) <= 57 {
        parse_u64_loop(s, i, 0)
    } else {
        (None, i)
    }
}

/// The model of an optional character vector.
pub open spec fn opt_chars_view(v: Option<Vec<char>>) -> Option<Seq<char>> {
    match v {
        Some(cs) => Some(cs@),
        None => None,
    }
}

/// The value of one hexadecimal digit; exec counterpart of
/// [`hex_digit_val`].
fn hex_val(c: char) -> (r: Option<u32>)
    ensures
        r == hex_digit_val(c),
{
    let v = c as u32;
    if 48 <= v && v <= 57 {
        Some(v - 48)
    } else if 97 <= v && v <= 102 {
        Some(v - 87)
    } else if 65 <= v && v <= 70 {
        Some(v - 55)
    } else {
        None
    }
}

/// Exec counterpart of [`spec_hex4`].
fn hex4(s: &Vec<char>, i: usize) -> (r: Option<u32>)
    requires
        i <= s@.len(),
    ensures
        r == spec_hex4(s@, i as nat),
{
    if s.len() >= 4 && i <= s.len() - 4 {
        match (hex_val(s[i]), hex_val(s[i + 1]), hex_val(s[i + 2]), hex_val(s[i + 3])) {
            (Some(a), Some(b), Some(c), Some(d)) => Some(a * 4096 + b * 256 + c * 16 + d),
            _ => None,
        }
    } else {
        None
    }
}

/// Exec counterpart of [`spec_skip_digits`].
fn skip_digits(s: &Vec<char>, i: usize) -> (r: usize)
    requires
        i <= s@.len(),
    ensures
        r as nat == spec_skip_digits(s@, i as nat),
        i <= r <= s@.len(),
    decreases s@.len() - i,
{
    if i < s.len() && (s[i] as u32) >= 48 && (s[i] as u32) <= 57 {
        skip_digits(s, i + 1)
    } else {
        i
    }
}

/// Exec counterpart of [`spec_skip_value`].
fn skip_value(s: &Vec<char>, i: usize) -> (r: (bool, usize))
    requires
        i <= s@.len(),
    ensures
        (r.0, r.1 as nat) == spec_skip_value(s@, i as nat),
        r.1 <= s@.len(),
    decreases s@.len() - i, 0int,
{
    let i1 = skip_ws(s, i);
    if i1 >= s.len() {
        (false, i1)
    } else if s[i1] == '"' {
        let (r, j) = parse_string(s, i1);
        (r.is_some(), j)
    } else if s[i1] == '{' {
        skip_members(s, i1 + 1)
    } else if s[i1] == '[' {
        skip_elements(s, i1 + 1)
    } else if s[i1] == 't' {
        if s.len() >= 4 && i1 <= s.len() - 4 && s[i1 + 1] == 'r' && s[i1 + 2] == 'u' && s[i1 + 3]
            == 'e' {
            (true, i1 + 4)
        } else {
            (false, i1)
        }
    } else if s[i1] == 'f' {
        if s.len() >= 5 && i1 <= s.len() - 5 && s[i1 + 1] == 'a' && s[i1 + 2] == 'l' && s[i1 + 3]
            == 's' && s[i1 + 4] == 'e' {
            (true, i1 + 5)
        } else {
            (false, i1)
        }
    } else if s[i1] == 'n' {
        if s.len() >= 4 && i1 <= s.len() - 4 && s[i1 + 1] == 'u' && s[i1 + 2] == 'l' && s[i1 + 3]
            == 'l' {
            (true, i1 + 4)
        } else {
            (false, i1)
        }
    } else {
        let start: usize = if s[i1] == '-' {
            i1 + 1
        } else {
            i1
        };
        let j = skip_digits(s, start);
        if j == start {
            (false, i1)
        } else {
            let jf: usize = if j < s.len() && s[j] == '.' {
                skip_digits(s, j + 1)
            } else {
                j
            };
            if j < s.len() && s[j] == '.' && jf == j + 1 {
                (false, j)
            } else if jf < s.len() && (s[jf] == 'e' || s[jf] == 'E') {
                let es: usize = if jf + 1 < s.len() && (s[jf + 1] == '+' || s[jf + 1] == '-') {
                    jf + 2
                } else {
                    jf + 1
                };
                let je = skip_digits(s, es);
                if je == es {
                    (false, jf)
                } else {
                    (true, je)
                }
            } else {
                (true, jf)
            }
        }
    }
}

/// Exec counterpart of [`spec_skip_elements`].
fn skip_elements(s: &Vec<char>, i: usize) -> (r: (bool, usize))
    requires
        i <= s@.len(),
    ensures
        (r.0, r.1 as nat) == spec_skip_elements(s@, i as nat),
        r.1 <= s@.len(),
    decreases s@.len() - i, 1int,
{
    let i1 = skip_ws(s, i);
    if i1 >= s.len() {
        (false, i1)
    } else if s[i1] == ']' {
        (true, i1 + 1)
    } else {
        let (ok, j) = skip_value(s, i1);
        if !ok {
            (false, j)
        } else {
            let j1 = skip_ws(s, j);
            if j1 < s.len() && s[j1] == ',' {
                if j1 + 1 <= i || j1 + 1 > s.len() {
                    (false, j1)
                } else {
                    skip_elements(s, j1 + 1)
                }
            } else if j1 < s.len() && s[j1] == ']' {
                (true, j1 + 1)
            } else {
                (false, j1)
            }
        }
    }
}

/// Exec counterpart of [`spec_skip_members`].
fn skip_members(s: &Vec<char>, i: usize) -> (r: (bool, usize))
    requires
        i <= s@.len(),
    ensures
        (r.0, r.1 as nat) == spec_skip_members(s@, i as nat),
        r.1 <= s@.len(),
    decreases s@.len() - i, 1int,
{
    let i1 = skip_ws(s, i);
    if i1 >= s.len() {
        (false, i1)
    } else if s[i1] == '}' {
        (true, i1 + 1)
    } else {
        let (k, j) = parse_string(s, i1);
        match k {
            None => (false, j),
            Some(_) => {
                let j1 = skip_ws(s, j);
                if j1 < s.len() && s[j1] == ':' {
                    if j1 + 1 <= i || j1 + 1 > s.len() {
                        (false, j1)
                    } else {
                        let (ok, j2) = skip_value(s, j1 + 1);
                        if !ok {
                            (false, j2)
                        } else {
                            let j3 = skip_ws(s, j2);
                            if j3 < s.len() && s[j3] == ',' {
                                if j3 + 1 <= i || j3 + 1 > s.len() {
                                    (false, j3)
                                } else {
                                    skip_members(s, j3 + 1)
                                }
                            } else if j3 < s.len() && s[j3] == '}' {
                                (true, j3 + 1)
                            } else {
                                (false, j3)
                            }
                        }
                    }
                } else {
                    (false, j1)
                }
            },
        }
    }
}

/// Exec counterpart of the unicode-escape case of
/// [`spec_parse_str_chars`]; `i` stands on the backslash.
#[verifier::rlimit(100)]
fn parse_unicode_rest(s: &Vec<char>, i: usize) -> (r: (Option<Vec<char>>, usize))
    requires
        i + 1 < s@.len(),
        s@[i as int] == '\\',
        s@[i as int] != '"',
        s@[i as int + 1] == 'u',
    ensures
        (opt_chars_view(r.0), r.1 as nat) == spec_parse_str_chars(s@, i as nat),
        i <= r.1 <= s@.len(),
    decreases s@.len() - i, 0int,
{
    let n = s.len();
    proof {
        assert(i + 1 < n);
    }
    match hex4(s, i + 2) {
            None => (None, i),
            Some(code) => {
                if 0xD800 <= code && code < 0xDC00 {
                    if s.len() >= 8 && i <= s.len() - 8 && s[i + 6] == '\\' && s[i + 7]
                        == 'u' {
                        match hex4(s, i + 8) {
                            None => (None, i),
                            Some(low) => {
                                if 0xDC00 <= low && low < 0xE000 {
                                    let combined: u32 = 0x10000 + (code - 0xD800) * 0x400 + (
                                    low - 0xDC00);
                                    proof {
                                        assert(vstd::utf8::is_scalar(combined));
                                    }
                                    match crate::text::char_from_u32(combined) {
                                        Some(ch) => {
                                            let (rest, j) = parse_str_chars(s, i + 12);
                                            match rest {
                                                Some(mut r) => {
                                                    r.insert(0, ch);
                                                    proof {
                                                        assert(r@ =~= seq![ch] + r@.subrange(
                                                            1,
                                                            r@.len() as int,
                                                        ));
                                                    }
                                                    (Some(r), j)
                                                },
                                                None => (None, j),
                                            }
                                        },
                                        // dead branch: combined is a scalar
                                        None => (None, i),
                                    }
                                } else {
                                    (None, i)
                                }
                            },
                        }
                    } else {
                        (None, i)
                    }
                } else if 0xDC00 <= code && code < 0xE000 {
                    (None, i)
                } else {
                    proof {
                        assert(vstd::utf8::is_scalar(code));
                    }
                    match crate::text::char_from_u32(code) {
                        Some(ch) => {
                            let (rest, j) = parse_str_chars(s, i + 6);
                            match rest {
                                Some(mut r) => {
                                    r.insert(0, ch);
                                    proof {
                                        assert(r@ =~= seq![ch] + r@.subrange(
                                            1,
                                            r@.len() as int,
                                        ));
                                    }
                                    (Some(r), j)
                                },
                                None => (None, j),
                            }
                        },
                        // dead branch: code is a scalar
                        None => (None, i),
                    }
                }
            },
        }
}

/// Exec counterpart of [`spec_parse_str_chars`].
#[verifier::rlimit(100)]
fn parse_str_chars(s: &Vec<char>, i: usize) -> (r: (Option<Vec<char>>, usize))
    requires
        i <= s@.len(),
    ensures
        (opt_chars_view(r.0), r.1 as nat) == spec_parse_str_chars(s@, i as nat),
        i <= r.1 <= s@.len(),
    decreases s@.len() - i, 1int,
{
    if i >= s.len() {
        (None, i)
    } else if s[i] == '"' {
        (Some(Vec::new()), i + 1)
    } else if s[i] == '\\' {
        if i + 1 >= s.len() {
            (None, i)
        } else if s[i + 1] == 'u' {
            parse_unicode_rest(s, i)
        } else {
            let e = s[i + 1];
            let unescaped: Option<char> = if e == '"' {
                Some('"')
            } else if e == '\\' {
                Some('\\')
            } else if e == '/' {
                Some('/')
            } else if e == 'n' {
                Some('\n')
            } else if e == 'r' {
                Some('\r')
            } else if e == 't' {
                Some('\t')
            } else if e == 'b' {
                Some('\u{0008}')
            } else if e == 'f' {
                Some('\u{000C}')
            } else {
                None
            };
            proof {
                assert(unescaped == spec_unescape(s@[i as int + 1]));
            }
            match unescaped {
                Some(c) => {
                    let (rest, j) = parse_str_chars(s, i + 2);
                    match rest {
                        Some(mut r) => {
                            r.insert(0, c);
                            proof {
                                assert(r@ =~= seq![c] + r@.subrange(1, r@.len() as int));
                            }
                            (Some(r), j)
                        },
                        None => (None, j),
                    }
                },
                None => (None, i),
            }
        }
    } else {
        let c = s[i];
        let (rest, j) = parse_str_chars(s, i + 1);
        match rest {
            Some(mut r) => {
                r.insert(0, c);
                proof {
                    assert(r@ =~= seq![c] + r@.subrange(1, r@.len() as int));
                }
                (Some(r), j)
            },
            None => (None, j),
        }
    }
}

/// Exec counterpart of [`spec_parse_string`].
fn parse_string(s: &Vec<char>, i: usize) -> (r: (Option<Vec<char>>, usize))
    requires
        i <= s@.len(),
    ensures
        (opt_chars_view(r.0), r.1 as nat) == spec_parse_string(s@, i as nat),
        i <= r.1 <= s@.len(),
{
    if i < s.len() && s[i] == '"' {
        parse_str_chars(s, i + 1)
    } else {
        (None, i)
    }
}

/// Whether the characters of `v` spell `t`.
fn chars_eq_str(v: &Vec<char>, t: &str) -> (r: bool)
    ensures
        r == (v@ == t@),
{
    let n = t.unicode_len();
    if v.len() != n {
        proof {
            assert(v@ != t@);
        }
        return false;
    }
    let mut i: usize = 0;
    while i < n
        invariant
            i <= n,
            n == t@.len(),
            v@.len() == n,
            forall|k: int| 0 <= k < i ==> v@[k] == t@[k],
        decreases n - i,
    {
        if v[i] != t.get_char(i) {
            proof {
                assert(v@ != t@);
            }
            return false;
        }
        i += 1;
    }
    proof {
        assert(v@ =~= t@);
    }
    true
}

/// Exec counterpart of [`spec_parse_error_members`].
#[verifier::rlimit(80)]
fn parse_error_members(
    s: &Vec<char>,
    i: usize,
    idx: Option<u64>,
    code: Option<u64>,
    msg: Option<Vec<char>>,
) -> (r: (Option<IngestionError>, usize))
    requires
        i <= s@.len(),
    ensures
        (
            match r.0 {
                Some(e) => Some(e@),
                None => None,
            },
            r.1 as nat,
        ) == spec_parse_error_members(s@, i as nat, idx, code, opt_chars_view(msg)),
        r.1 <= s@.len(),
    decreases s@.len() - i,
{
    let i1 = skip_ws(s, i);
    if i1 >= s.len() {
        (None, i1)
    } else if s[i1] == '}' {
        match (idx, code, msg) {
            (Some(index), Some(status_code), Some(message)) => (
                Some(
                    IngestionError {
                        index,
                        status_code,
                        message: chars_to_string(&message),
                    },
                ),
                i1 + 1,
            ),
            _ => (None, i1),
        }
    } else {
        let (k, j) = parse_string(s, i1);
        match k {
            None => (None, j),
            Some(key) => {
                let j1 = skip_ws(s, j);
                if j1 < s.len() && s[j1] == ':' {
                    let j2 = skip_ws(s, j1 + 1);
                    let is_index = chars_eq_str(&key, "index");
                    let is_code = chars_eq_str(&key, "statusCode");
                    if is_index || is_code {
                        let (n, j3) = parse_u64(s, j2);
                        match n {
                            None => (None, j3),
                            Some(v) => {
                                let j4 = skip_ws(s, j3);
                                let j5: usize = if j4 < s.len() && s[j4] == ',' {
                                    j4 + 1
                                } else {
                                    j4
                                };
                                if j5 <= i || j5 > s.len() {
                                    (None, j5)
                                } else if is_index {
                                    parse_error_members(s, j5, Some(v), code, msg)
                                } else {
                                    parse_error_members(s, j5, idx, Some(v), msg)
                                }
                            },
                        }
                    } else if chars_eq_str(&key, "message") {
                        let (m, j3) = parse_string(s, j2);
                        match m {
                            None => (None, j3),
                            Some(text) => {
                                let j4 = skip_ws(s, j3);
                                let j5: usize = if j4 < s.len() && s[j4] == ',' {
                                    j4 + 1
                                } else {
                                    j4
                                };
                                if j5 <= i || j5 > s.len() {
                                    (None, j5)
                                } else {
                                    parse_error_members(s, j5, idx, code, Some(text))
                                }
                            },
                        }
                    } else {
                        let (ok, j3) = skip_value(s, j2);
                        if !ok {
                            (None, j3)
                        } else {
                            let j4 = skip_ws(s, j3);
                            let j5: usize = if j4 < s.len() && s[j4] == ',' {
                                j4 + 1
                            } else {
                                j4
                            };
                            if j5 <= i || j5 > s.len() {
                                (None, j5)
                            } else {
                                parse_error_members(s, j5, idx, code, msg)
                            }
                        }
                    }
                } else {
                    (None, j1)
                }
            },
        }
    }
}

/// Exec counterpart of [`spec_parse_error`].
fn parse_error(s: &Vec<char>, i: usize) -> (r: (Option<IngestionError>, usize))
    requires
        i <= s@.len(),
    ensures
        (
            match r.0 {
                Some(e) => Some(e@),
                None => None,
            },
            r.1 as nat,
        ) == spec_parse_error(s@, i as nat),
        r.1 <= s@.len(),
{
    let i1 = skip_ws(s, i);
    if i1 < s.len() && s[i1] == '{' {
        parse_error_members(s, i1 + 1, None, None, None)
    } else {
        (None, i1)
    }
}

/// Exec counterpart of [`spec_parse_errors_rest`].
fn parse_errors_rest(s: &Vec<char>, i: usize) -> (r: (Option<Vec<IngestionError>>, usize))
    requires
        i <= s@.len(),
    ensures
        (
            match r.0 {
                Some(es) => Some(errors_view(es@)),
                None => None,
            },
            r.1 as nat,
        ) == spec_parse_errors_rest(s@, i as nat),
        r.1 <= s@.len(),
    decreases s@.len() - i,
{
    let (e, j) = parse_error(s, i);
    match e {
        None => (None, j),
        Some(err) => {
            let j1 = skip_ws(s, j);
            if j1 < s.len() && s[j1] == ',' {
                let j2 = j1 + 1;
                if j2 <= i || j2 > s.len() {
                    (None, j2)
                } else {
                    let (rest, j3) = parse_errors_rest(s, j2);
                    match rest {
                        Some(mut rs) => {
                            rs.insert(0, err);
                            proof {
                                assert(errors_view(rs@) =~= seq![rs@[0]@] + errors_view(
                                    rs@.subrange(1, rs@.len() as int),
                                ));
                            }
                            (Some(rs), j3)
                        },
                        None => (None, j3),
                    }
                }
            } else if j1 < s.len() && s[j1] == ']' {
                let mut one: Vec<IngestionError> = Vec::new();
                one.push(err);
                proof {
                    assert(errors_view(one@) =~= seq![one@[0]@]);
                }
                (Some(one), j1 + 1)
            } else {
                (None, j1)
            }
        },
    }
}

/// Exec counterpart of [`spec_parse_errors`].
fn parse_errors(s: &Vec<char>, i: usize) -> (r: (Option<Vec<IngestionError>>, usize))
    requires
        i <= s@.len(),
    ensures
        (
            match r.0 {
                Some(es) => Some(errors_view(es@)),
                None => None,
            },
            r.1 as nat,
        ) == spec_parse_errors(s@, i as nat),
        r.1 <= s@.len(),
{
    let i1 = skip_ws(s, i);
    if i1 < s.len() && s[i1] == '[' {
        let i2 = skip_ws(s, i1 + 1);
        if i2 < s.len() && s[i2] == ']' {
            let none: Vec<IngestionError> = Vec::new();
            proof {
                assert(errors_view(none@) =~= Seq::<IngestionErrorV>::empty());
            }
            (Some(none), i2 + 1)
        } else {
            parse_errors_rest(s, i1 + 1)
        }
    } else {
        (None, i1)
    }
}

/// Exec counterpart of [`spec_parse_response_members`].
#[verifier::rlimit(80)]
fn parse_response_members(
    s: &Vec<char>,
    i: usize,
    received: Option<u64>,
    accepted: Option<u64>,
    errors: Option<Vec<IngestionError>>,
) -> (r: (Option<IngestionResponse>, usize))
    requires
        i <= s@.len(),
    ensures
        (
            match r.0 {
                Some(resp) => Some(resp@),
                None => None,
            },
            r.1 as nat,
        ) == spec_parse_response_members(
            s@,
            i as nat,
            received,
            accepted,
            match errors {
                Some(es) => Some(errors_view(es@)),
                None => None,
            },
        ),
        r.1 <= s@.len(),
    decreases s@.len() - i,
{
    let i1 = skip_ws(s, i);
    if i1 >= s.len() {
        (None, i1)
    } else if s[i1] == '}' {
        match (received, accepted) {
            (Some(items_received), Some(items_accepted)) => {
                let errs: Vec<IngestionError> = match errors {
                    Some(es) => es,
                    None => Vec::new(),
                };
                proof {
                    assert(errors_view(Seq::<IngestionError>::empty()) =~= Seq::<
                        IngestionErrorV,
                    >::empty());
                }
                (
                    Some(IngestionResponse { items_received, items_accepted, errors: errs }),
                    i1 + 1,
                )
            },
            _ => (None, i1),
        }
    } else {
        let (k, j) = parse_string(s, i1);
        match k {
            None => (None, j),
            Some(key) => {
                let j1 = skip_ws(s, j);
                if j1 < s.len() && s[j1] == ':' {
                    let j2 = skip_ws(s, j1 + 1);
                    let is_received = chars_eq_str(&key, "itemsReceived");
                    let is_accepted = chars_eq_str(&key, "itemsAccepted");
                    if is_received || is_accepted {
                        let (n, j3) = parse_u64(s, j2);
                        match n {
                            None => (None, j3),
                            Some(v) => {
                                let j4 = skip_ws(s, j3);
                                let j5: usize = if j4 < s.len() && s[j4] == ',' {
                                    j4 + 1
                                } else {
                                    j4
                                };
                                if j5 <= i || j5 > s.len() {
                                    (None, j5)
                                } else if is_received {
                                    parse_response_members(s, j5, Some(v), accepted, errors)
                                } else {
                                    parse_response_members(s, j5, received, Some(v), errors)
                                }
                            },
                        }
                    } else if chars_eq_str(&key, "errors") {
                        let (es, j3) = parse_errors(s, j2);
                        match es {
                            None => (None, j3),
                            Some(list) => {
                                let j4 = skip_ws(s, j3);
                                let j5: usize = if j4 < s.len() && s[j4] == ',' {
                                    j4 + 1
                                } else {
                                    j4
                                };
                                if j5 <= i || j5 > s.len() {
                                    (None, j5)
                                } else {
                                    parse_response_members(s, j5, received, accepted, Some(list))
                                }
                            },
                        }
                    } else {
                        let (ok, j3) = skip_value(s, j2);
                        if !ok {
                            (None, j3)
                        } else {
                            let j4 = skip_ws(s, j3);
                            let j5: usize = if j4 < s.len() && s[j4] == ',' {
                                j4 + 1
                            } else {
                                j4
                            };
                            if j5 <= i || j5 > s.len() {
                                (None, j5)
                            } else {
                                parse_response_members(s, j5, received, accepted, errors)
                            }
                        }
                    }
                } else {
                    (None, j1)
                }
            },
        }
    }
}

/// Parses a whole response text, exactly as [`spec_parse_response`]
/// states; `None` when the text is not a response the pipeline
/// understands.
pub fn parse_response(s: &Vec<char>) -> (r: Option<IngestionResponse>)
    ensures
        match r {
            Some(resp) => spec_parse_response(s@) == Some(resp@),
            None => spec_parse_response(s@) is None,
        },
{
    let i1 = skip_ws(s, 0);
    if i1 < s.len() && s[i1] == '{' {
        let (r, j) = parse_response_members(s, i1 + 1, None, None, None);
        match r {
            Some(resp) => {
                if skip_ws(s, j) == s.len() {
                    Some(resp)
                } else {
                    None
                }
            },
            None => None,
        }
    } else {
        None
    }
}

/// The text of one per-item error in the failure summary.
pub open spec fn spec_error_line(e: IngestionErrorV) -> Seq<char> {
    "index "@ + dec_digits(e.index as nat) + " status "@ + dec_digits(e.status_code as nat)
        + ": "@ + e.message
}

/// The human-readable summary of every reported item failure, joined
/// with `"; "`.
pub open spec fn spec_summary(errors: Seq<IngestionErrorV>) -> Seq<char>
    decreases errors.len(),
{
    if errors.len() == 0 {
        Seq::empty()
    } else if errors.len() == 1 {
        spec_error_line(errors[0])
    } else {
        spec_summary(errors.drop_last()) + "; "@ + spec_error_line(errors.last())
    }
}

/// The text of one per-item error; exec counterpart of
/// [`spec_error_line`].
fn error_line(e: &IngestionError) -> (r: String)
    ensures
        r@ == spec_error_line(e@),
{
    String::from_str("index ")
        .concat(u64_to_string(e.index).as_str())
        .concat(" status ")
        .concat(u64_to_string(e.status_code).as_str())
        .concat(": ")
        .concat(e.message.as_str())
}

/// The failure summary; exec counterpart of [`spec_summary`].
fn summary(errors: &Vec<IngestionError>) -> (r: String)
    ensures
        r@ == spec_summary(errors_view(errors@)),
{
    let ghost model = errors_view(errors@);
    let mut acc = String::new();
    let mut i: usize = 0;
    while i < errors.len()
        invariant
            i <= errors.len(),
            model == errors_view(errors@),
            model.len() == errors.len(),
            acc@ == spec_summary(model.take(i as int)),
        decreases errors.len() - i,
    {
        let line = error_line(&errors[i]);
        acc = if i == 0 {
            acc.concat(line.as_str())
        } else {
            acc.concat("; ").concat(line.as_str())
        };
        proof {
            assert(model.take(i as int + 1).drop_last() =~= model.take(i as int));
            assert(model.take(i as int + 1).last() == model[i as int]);
        }
        i += 1;
    }
    proof {
        assert(model.take(errors.len() as int) =~= model);
    }
    acc
}

/// Classifies a parsed response: zero reported failures is unconditional
/// success; any reported item failure is an aggregate rejection carrying
/// the summary of exactly those failures.
pub fn interpret_response(resp: &IngestionResponse) -> (r: Result<(), Error>)
    ensures
        resp.errors@.len() == 0 <==> r is Ok,
        match r {
            Ok(()) => resp.errors@.len() == 0,
            Err(e) => e matches Error::Upload(m) && m@ == spec_summary(errors_view(resp.errors@)),
        },
{
    if resp.errors.len() == 0 {
        Ok(())
    } else {
        Err(Error::Upload(summary(&resp.errors)))
    }
}

/// What one response body means, for every possible body: an unreadable
/// body is an unknown outcome, distinct from success and from failure; a
/// readable one is classified exactly as [`interpret_response`] states.
pub fn interpret_body(body: &String) -> (r: Result<(), Error>)
    ensures
        match spec_parse_response(body@) {
            None => r matches Err(Error::UploadDeserializeResponse(_)),
            Some(resp) => {
                &&& (resp.errors.len() == 0 <==> r is Ok)
                &&& match r {
                    Ok(()) => resp.errors.len() == 0,
                    Err(e) => e matches Error::Upload(m) && m@ == spec_summary(resp.errors),
                }
            },
        },
{
    let chars = str_to_chars(body.as_str());
    match parse_response(&chars) {
        None => Err(
            Error::UploadDeserializeResponse(
                String::from_str("response is not a recognizable ingestion response"),
            ),
        ),
        Some(resp) => interpret_response(&resp),
    }
}

/// Delivers one batch: serializes it to the wire text, hands it to the
/// transport, and classifies whatever comes back. The serializer is
/// verified total, so a serialization fault is never returned; a
/// transport failure is a connection error carrying its message; any
/// response body is classified exactly as [`interpret_body`] states.
pub fn deliver<C: HttpClient>(client: &mut C, endpoint: &str, envelopes: &Vec<Envelope>) -> (r:
    Result<(), Error>)
    ensures
        match r {
            Ok(()) => true,
            Err(e) => !(e is UploadSerializeRequest),
        },
{
    let payload_chars = serialize_envelopes(envelopes);
    let payload = chars_to_string(&payload_chars);
    match client.send(endpoint, payload) {
        Err(message) => Err(Error::UploadConnection(message)),
        Ok(body) => interpret_body(&body),
    }
}

} // verus!
