//! The webhook driver: which requests it sends, with which headers, and
//! what an answer is recorded as.

use crate::models::{opt_text, WebhookActionConfig};
use crate::text::{decimal, push_decimal, str_eq};
use crate::watchdog::executor::{result_view, ActionResult};
use vstd::prelude::*;
use vstd::string::*;

verus! {

/// Seconds after which a request that has not been answered is given up.
pub const REQUEST_TIMEOUT_SECONDS: u64 = 30;

/// The methods that a webhook may use.
#[derive(Clone, Copy, Debug, PartialEq, Eq, Structural)]
pub enum HttpMethod {
    Get,
    Post,
}

/// The upper-case form that `str::to_uppercase` gives a text.
pub uninterp spec fn uppercase(s: Seq<char>) -> Seq<char>;

/// `str::to_uppercase`: the upper-case equivalent of the text as a new
/// string, by the Unicode case mapping that the standard library carries.
#[verifier::external_body]
fn to_uppercase(s: &str) -> (r: String)
    ensures
        r@ == uppercase(s@),
{
    s.to_uppercase()
}

/// The failure of a method that is not allowed.
pub open spec fn unsupported_method_message(method: Seq<char>) -> Seq<char> {
    "Unsupported HTTP method: "@ + method
}

/// The method that a configured name stands for, given its upper-case
/// form: `GET` and `POST` are allowed, anything else fails under its name
/// as configured.
pub open spec fn method_for(upper: Seq<char>, method: Seq<char>) -> Result<HttpMethod, Seq<char>> {
    if upper == "GET"@ {
        Ok(HttpMethod::Get)
    } else if upper == "POST"@ {
        Ok(HttpMethod::Post)
    } else {
        Err(unsupported_method_message(method))
    }
}

/// The view of a method or the message of its failure.
pub open spec fn method_view(r: Result<HttpMethod, String>) -> Result<HttpMethod, Seq<char>> {
    match r {
        Ok(m) => Ok(m),
        Err(message) => Err(message@),
    }
}

/// Decides the method from the upper-case form `upper` of the configured
/// name `method`.
pub fn method_from_upper(upper: &str, method: &str) -> (r: Result<HttpMethod, String>)
    ensures
        method_view(r) == method_for(upper@, method@),
{
    if str_eq(upper, "GET") {
        Ok(HttpMethod::Get)
    } else if str_eq(upper, "POST") {
        Ok(HttpMethod::Post)
    } else {
        let mut message = String::from_str("Unsupported HTTP method: ");
        message.append(method);
        Err(message)
    }
}

/// Decides the method that the configured name stands for, whatever its
/// case.
pub fn method_of(method: &str) -> (r: Result<HttpMethod, String>)
    ensures
        method_view(r) == method_for(uppercase(method@), method@),
{
    let upper = to_uppercase(method);
    method_from_upper(upper.as_str(), method)
}

/// A character with an upper-case ASCII letter turned into its lower-case
/// form; every other character as it is.
pub open spec fn ascii_lower(c: char) -> char {
    if 'A' <= c && c <= 'Z' {
        ((c as u8) + 32) as char
    } else {
        c
    }
}

/// Whether two header names are the same, the case of ASCII letters aside.
pub open spec fn same_name(a: Seq<char>, b: Seq<char>) -> bool {
    a.len() == b.len() && forall|i: int| 0 <= i < a.len() ==> ascii_lower(a[i]) == ascii_lower(b[i])
}

fn to_ascii_lower(c: char) -> (r: char)
    ensures
        r == ascii_lower(c),
{
    if 'A' <= c && c <= 'Z' {
        ((c as u8) + 32) as char
    } else {
        c
    }
}

/// Decides whether two header names are the same.
pub fn names_match(a: &str, b: &str) -> (r: bool)
    ensures
        r == same_name(a@, b@),
{
    let x = crate::text::chars_of(a);
    let y = crate::text::chars_of(b);
    if x.len() != y.len() {
        return false;
    }
    let mut i: usize = 0;
    while i < x.len()
        invariant
            i <= x@.len(),
            x@.len() == y@.len(),
            x@ == a@,
            y@ == b@,
            forall|k: int| 0 <= k < i ==> ascii_lower(x@[k]) == ascii_lower(y@[k]),
        decreases x.len() - i,
    {
        if to_ascii_lower(x[i]) != to_ascii_lower(y[i]) {
            proof {
                assert(ascii_lower(a@[i as int]) != ascii_lower(b@[i as int]));
            }
            return false;
        }
        i = i + 1;
    }
    true
}

/// Headers as mathematical values: a name and a value each.
pub open spec fn header_views(headers: Seq<(String, String)>) -> Seq<(Seq<char>, Seq<char>)> {
    headers.map_values(|h: (String, String)| (h.0@, h.1@))
}

/// The headers that a configuration supplies; none where it has no list.
pub open spec fn supplied_headers(headers: Option<Vec<(String, String)>>) -> Seq<
    (Seq<char>, Seq<char>),
> {
    match headers {
        Some(list) => header_views(list@),
        None => Seq::empty(),
    }
}

/// Whether one of the headers is the content type.
pub open spec fn names_content_type(headers: Seq<(Seq<char>, Seq<char>)>) -> bool {
    exists|i: int| 0 <= i < headers.len() && same_name((#[trigger] headers[i]).0, "Content-Type"@)
}

/// The headers of the request: those supplied, as given and in order, and
/// behind them the JSON content type where there is a body and the caller
/// supplied no content type.
pub open spec fn headers_for(supplied: Seq<(Seq<char>, Seq<char>)>, has_body: bool) -> Seq<
    (Seq<char>, Seq<char>),
> {
    if has_body && !names_content_type(supplied) {
        supplied.push(("Content-Type"@, "application/json"@))
    } else {
        supplied
    }
}

/// Works out the headers of the request that `config` describes.
pub fn request_headers(config: &WebhookActionConfig) -> (r: Vec<(String, String)>)
    ensures
        header_views(r@) == headers_for(supplied_headers(config.headers), config.body is Some),
{
    let mut out: Vec<(String, String)> = Vec::new();
    let mut named = false;
    let ghost supplied = supplied_headers(config.headers);
    match &config.headers {
        Some(list) => {
            let mut i: usize = 0;
            while i < list.len()
                invariant
                    i <= list@.len(),
                    supplied == header_views(list@),
                    out@.len() == i,
                    forall|k: int|
                        0 <= k < i ==> (#[trigger] out@[k]).0@ == list@[k].0@ && out@[k].1@
                            == list@[k].1@,
                    named == exists|k: int|
                        0 <= k < i && same_name((#[trigger] supplied[k]).0, "Content-Type"@),
                decreases list.len() - i,
            {
                let name = list[i].0.clone();
                let value = list[i].1.clone();
                if names_match(name.as_str(), "Content-Type") {
                    proof {
                        assert(same_name(supplied[i as int].0, "Content-Type"@));
                    }
                    named = true;
                }
                out.push((name, value));
                i = i + 1;
            }
            proof {
                assert(header_views(out@) =~= supplied);
            }
        },
        None => {
            proof {
                assert(header_views(out@) =~= supplied);
            }
        },
    }
    if config.body.is_some() && !named {
        let ghost before = out@;
        out.push((String::from_str("Content-Type"), String::from_str("application/json")));
        proof {
            assert(header_views(out@) =~= header_views(before).push(
                ("Content-Type"@, "application/json"@),
            ));
        }
    }
    out
}

/// A request ready to be sent.
#[derive(Debug)]
pub struct WebhookRequest {
    pub method: HttpMethod,
    pub url: String,
    pub headers: Vec<(String, String)>,
    pub body: Option<String>,
}

/// A request as a mathematical value.
pub struct WebhookRequestView {
    pub method: HttpMethod,
    pub url: Seq<char>,
    pub headers: Seq<(Seq<char>, Seq<char>)>,
    pub body: Option<Seq<char>>,
}

impl View for WebhookRequest {
    type V = WebhookRequestView;

    open spec fn view(&self) -> WebhookRequestView {
        WebhookRequestView {
            method: self.method,
            url: self.url@,
            headers: header_views(self.headers@),
            body: opt_text(self.body),
        }
    }
}

/// The view of a request or of the failure to make one.
pub open spec fn request_view(r: Result<WebhookRequest, String>) -> Result<
    WebhookRequestView,
    Seq<char>,
> {
    match r {
        Ok(request) => Ok(request@),
        Err(message) => Err(message@),
    }
}

/// The request that a configuration asks for, given the upper-case form of
/// its method: the method if it is allowed, the address and the body as
/// given, and the headers worked out from those supplied.
pub open spec fn request_of(config: WebhookActionConfig, upper: Seq<char>) -> Result<
    WebhookRequestView,
    Seq<char>,
> {
    match method_for(upper, config.method@) {
        Ok(method) => Ok(
            WebhookRequestView {
                method,
                url: config.url@,
                headers: headers_for(supplied_headers(config.headers), config.body is Some),
                body: opt_text(config.body),
            },
        ),
        Err(message) => Err(message),
    }
}

/// Puts together the request that `config` asks for.
pub fn request_for(config: &WebhookActionConfig) -> (r: Result<WebhookRequest, String>)
    ensures
        request_view(r) == request_of(*config, uppercase(config.method@)),
{
    match method_of(config.method.as_str()) {
        Ok(method) => Ok(
            WebhookRequest {
                method,
                url: config.url.clone(),
                headers: request_headers(config),
                body: crate::models::clone_opt_text(&config.body),
            },
        ),
        Err(message) => Err(message),
    }
}

/// Whether a status is a success: 200 to 299.
pub open spec fn is_success(status: int) -> bool {
    200 <= status <= 299
}

/// What an answer is recorded as: a success with exit code 0, the status
/// on the output and the body on the error stream; any other status as a
/// failure that carries status and body.
pub open spec fn response_result(status: int, body: Seq<char>) -> Result<
    (int, Seq<char>, Seq<char>),
    Seq<char>,
> {
    if is_success(status) {
        Ok((0int, "Webhook executed successfully (HTTP "@ + decimal(status) + ")"@, body))
    } else {
        Err("Webhook failed with HTTP "@ + decimal(status) + ": "@ + body)
    }
}

/// Turns the status and the body of an answer into the result of the
/// action.
pub fn classify_response(status: u16, body: String) -> (r: ActionResult)
    ensures
        result_view(r) == response_result(status as int, body@),
{
    if 200 <= status && status <= 299 {
        let mut out = String::from_str("Webhook executed successfully (HTTP ");
        push_decimal(&mut out, status as i128);
        out.append(")");
        Ok((0, out, body))
    } else {
        let mut message = String::from_str("Webhook failed with HTTP ");
        push_decimal(&mut message, status as i128);
        message.append(": ");
        message.append(body.as_str());
        Err(message)
    }
}

/// What stands for a body that could not be read.
pub fn unreadable_body() -> (r: String)
    ensures
        r@ == "(failed to read body)"@,
{
    String::from_str("(failed to read body)")
}

/// Where a request went wrong before an answer came.
#[derive(Clone, Copy, Debug, PartialEq, Eq, Structural)]
pub enum WebhookFailure {
    /// The configuration could not be read.
    Config,
    /// The HTTP client could not be set up.
    Client,
    /// The request could not be carried out.
    Transport,
}

impl WebhookFailure {
    /// What the failure is called in the record.
    pub open spec fn label(self) -> Seq<char> {
        match self {
            WebhookFailure::Config => "Failed to parse webhook config: "@,
            WebhookFailure::Client => "Failed to create HTTP client: "@,
            WebhookFailure::Transport => "Failed to execute webhook: "@,
        }
    }

    /// The message recorded for the failure: what it is called, then the
    /// detail that came with it.
    pub fn describe(&self, detail: &str) -> (r: String)
        ensures
            r@ == self.label() + detail@,
    {
        let mut out = String::from_str(
            match self {
                WebhookFailure::Config => "Failed to parse webhook config: ",
                WebhookFailure::Client => "Failed to create HTTP client: ",
                WebhookFailure::Transport => "Failed to execute webhook: ",
            },
        );
        out.append(detail);
        out
    }
}

/// The message recorded for a request that was not answered in time.
pub fn timed_out() -> (r: String)
    ensures
        r@ == "Webhook timeout (30s)"@,
{
    String::from_str("Webhook timeout (30s)")
}

} // verus!
