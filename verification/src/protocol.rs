//! The decisions of the agent-facing surfaces: the JSON-RPC adapter and the
//! HTTP service. Transport and JSON encoding stay outside; what is decided on
//! the values stands here.

use vstd::prelude::*;
use vstd::utf8::encode_utf8;
use crate::model::{RecallInput, TaskType, VerificationEvidence, VerificationResult, VerificationSource};
use crate::text::{char_is_whitespace, decimal, decimal_text, is_white_space, text_eq, trim, trim_back, trim_end, trimmed};

verus! {

/// The protocol version a request declares when it declares none.
pub fn jsonrpc_version() -> (r: String)
    ensures
        r@ == "2.0"@,
{
    String::from_str("2.0")
}

/// How many matches a recall returns when the request does not say.
pub fn default_top_k() -> (r: usize)
    ensures
        r == 3,
{
    3
}

/// What a JSON-RPC request asks for.
#[derive(Debug, Clone, Copy, PartialEq, Eq, Structural)]
pub enum RpcRoute {
    InvalidVersion,
    ProjectContext,
    Recall,
    Store,
    RecordAttempt,
    UnknownMethod,
}

/// The route of a request by its declared version and method.
pub open spec fn rpc_route_of(jsonrpc: Seq<char>, method: Seq<char>) -> RpcRoute {
    if jsonrpc != "2.0"@ {
        RpcRoute::InvalidVersion
    } else if method == "get_project_context"@ {
        RpcRoute::ProjectContext
    } else if method == "recall_context"@ {
        RpcRoute::Recall
    } else if method == "store_experience"@ {
        RpcRoute::Store
    } else if method == "record_attempt"@ {
        RpcRoute::RecordAttempt
    } else {
        RpcRoute::UnknownMethod
    }
}

/// Routes a JSON-RPC request: only version 2.0 is served, and only the four
/// methods of the adapter.
pub fn route_rpc(jsonrpc: &str, method: &str) -> (r: RpcRoute)
    ensures
        r == rpc_route_of(jsonrpc@, method@),
{
    if !text_eq(jsonrpc, "2.0") {
        RpcRoute::InvalidVersion
    } else if text_eq(method, "get_project_context") {
        RpcRoute::ProjectContext
    } else if text_eq(method, "recall_context") {
        RpcRoute::Recall
    } else if text_eq(method, "store_experience") {
        RpcRoute::Store
    } else if text_eq(method, "record_attempt") {
        RpcRoute::RecordAttempt
    } else {
        RpcRoute::UnknownMethod
    }
}

/// Why a JSON-RPC request failed.
#[derive(Debug, Clone, Copy, PartialEq, Eq, Structural)]
pub enum RpcFailure {
    Parse,
    InvalidVersion,
    UnknownMethod,
    Engine,
}

impl RpcFailure {
    /// The JSON-RPC error code of the failure.
    pub fn code(&self) -> (r: i32)
        ensures
            r == match *self {
                RpcFailure::Parse => -32700i32,
                RpcFailure::InvalidVersion => -32600i32,
                RpcFailure::UnknownMethod => -32601i32,
                RpcFailure::Engine => -32000i32,
            },
    {
        match self {
            RpcFailure::Parse => -32700,
            RpcFailure::InvalidVersion => -32600,
            RpcFailure::UnknownMethod => -32601,
            RpcFailure::Engine => -32000,
        }
    }
}

/// The fixed message of a refused route, if it has one.
pub fn route_failure(route: RpcRoute) -> (r: Option<(RpcFailure, &'static str)>)
    ensures
        route == RpcRoute::InvalidVersion ==> (r matches Some((f, m)) && f == RpcFailure::InvalidVersion && m@ == "jsonrpc must be 2.0"@),
        route == RpcRoute::UnknownMethod ==> (r matches Some((f, m)) && f == RpcFailure::UnknownMethod && m@ == "unknown method"@),
        route != RpcRoute::InvalidVersion && route != RpcRoute::UnknownMethod ==> r is None,
{
    match route {
        RpcRoute::InvalidVersion => Some((RpcFailure::InvalidVersion, "jsonrpc must be 2.0")),
        RpcRoute::UnknownMethod => Some((RpcFailure::UnknownMethod, "unknown method")),
        _ => None,
    }
}

/// What `record_attempt` answers: the attempt is not stored on its own.
pub fn record_attempt_message() -> (r: &'static str)
    ensures
        r@ == "record_attempt is accepted by the MCP surface; durable attempt logs are stored when store_experience is called"@,
{
    "record_attempt is accepted by the MCP surface; durable attempt logs are stored when store_experience is called"
}

/// The verification of an experience stored through an agent surface: the
/// request is itself the verification, so the result is passed, and an
/// unspecified source counts as custom.
pub fn stored_verification(v: VerificationEvidence) -> (r: VerificationEvidence)
    ensures
        r.source == (if v.source == VerificationSource::Unspecified {
            VerificationSource::Custom
        } else {
            v.source
        }),
        r.result == VerificationResult::Passed,
        r.command == v.command,
        r.reference == v.reference,
        r.run_id == v.run_id,
        r.test_id == v.test_id,
        r.target_url == v.target_url,
        r.dashboard_url == v.dashboard_url,
        r.files_changed == v.files_changed,
{
    let mut v = v;
    if v.source == VerificationSource::Unspecified {
        v.source = VerificationSource::Custom;
    }
    v.result = VerificationResult::Passed;
    v
}

/// The recall input of an HTTP request: the request's `stack` stands in for
/// its languages when it names none.
pub fn service_recall_input(
    task: String,
    task_type: Option<TaskType>,
    files: Vec<String>,
    stack: Vec<String>,
    languages: Vec<String>,
    frameworks: Vec<String>,
    top_k: usize,
) -> (r: RecallInput)
    ensures
        r.task == task,
        r.task_type == task_type,
        r.files == files,
        r.languages == (if languages@.len() == 0 { stack } else { languages }),
        r.frameworks == frameworks,
        r.top_k == top_k,
{
    let languages = if languages.len() == 0 { stack } else { languages };
    RecallInput { task, task_type, files, languages, frameworks, top_k }
}

/// What an HTTP request asks for.
#[derive(Debug, Clone, Copy, PartialEq, Eq, Structural)]
pub enum HttpRoute {
    Preflight,
    Health,
    ProjectContext,
    Recall,
    Store,
    NotFound,
}

/// The route of an HTTP request by method and path.
pub open spec fn http_route_of(method: Seq<char>, path: Seq<char>) -> HttpRoute {
    if method == "OPTIONS"@ {
        HttpRoute::Preflight
    } else if method == "GET"@ && path == "/health"@ {
        HttpRoute::Health
    } else if method == "GET"@ && path == "/project_context"@ {
        HttpRoute::ProjectContext
    } else if method == "POST"@ && path == "/recall_context"@ {
        HttpRoute::Recall
    } else if method == "POST"@ && path == "/store_experience"@ {
        HttpRoute::Store
    } else {
        HttpRoute::NotFound
    }
}

/// Routes an HTTP request.
pub fn route_http(method: &str, path: &str) -> (r: HttpRoute)
    ensures
        r == http_route_of(method@, path@),
{
    if text_eq(method, "OPTIONS") {
        HttpRoute::Preflight
    } else if text_eq(method, "GET") && text_eq(path, "/health") {
        HttpRoute::Health
    } else if text_eq(method, "GET") && text_eq(path, "/project_context") {
        HttpRoute::ProjectContext
    } else if text_eq(method, "POST") && text_eq(path, "/recall_context") {
        HttpRoute::Recall
    } else if text_eq(method, "POST") && text_eq(path, "/store_experience") {
        HttpRoute::Store
    } else {
        HttpRoute::NotFound
    }
}

/// The reason phrase of a status code the service answers with.
pub open spec fn status_text_of(status: u16) -> Seq<char> {
    if status == 200 {
        "OK"@
    } else if status == 204 {
        "No Content"@
    } else if status == 400 {
        "Bad Request"@
    } else if status == 404 {
        "Not Found"@
    } else {
        "Internal Server Error"@
    }
}

/// The reason phrase of a status code.
pub fn status_text(status: u16) -> (r: &'static str)
    ensures
        r@ == status_text_of(status),
{
    if status == 200 {
        "OK"
    } else if status == 204 {
        "No Content"
    } else if status == 400 {
        "Bad Request"
    } else if status == 404 {
        "Not Found"
    } else {
        "Internal Server Error"
    }
}

/// The full HTTP response for a status and a JSON body; a `204` carries no body.
pub open spec fn http_response_of(status: u16, json: Seq<char>) -> Seq<char> {
    let body = if status == 204 { Seq::empty() } else { json };
    "HTTP/1.1 "@ + decimal(status as nat) + " "@ + status_text_of(status)
        + "\r\nContent-Type: application/json\r\nAccess-Control-Allow-Origin: *\r\nAccess-Control-Allow-Methods: GET, POST, OPTIONS\r\nAccess-Control-Allow-Headers: content-type\r\nContent-Length: "@
        + decimal((encode_utf8(body).len() as usize) as nat) + "\r\nConnection: close\r\n\r\n"@ + body
}

/// Writes the HTTP response for a status and a rendered JSON body.
pub fn http_response(status: u16, json: &str) -> (r: String)
    ensures
        r@ == http_response_of(status, json@),
{
    let body: &str = if status == 204 { "" } else { json };
    proof {
        reveal_strlit("");
    }
    let mut out = String::from_str("HTTP/1.1 ");
    out.append(decimal_text(status as u64).as_str());
    out.append(" ");
    out.append(status_text(status));
    out.append("\r\nContent-Type: application/json\r\nAccess-Control-Allow-Origin: *\r\nAccess-Control-Allow-Methods: GET, POST, OPTIONS\r\nAccess-Control-Allow-Headers: content-type\r\nContent-Length: ");
    out.append(decimal_text(body.len() as u64).as_str());
    out.append("\r\nConnection: close\r\n\r\n");
    out.append(body);
    assert(out@ =~= http_response_of(status, json@));
    out
}

/// The address the service binds: `LOOPLENS_BIND` if set, else all
/// interfaces on `PORT` if set, else the local default.
pub open spec fn bind_address_of(bind: Option<String>, port: Option<String>) -> Seq<char> {
    match bind {
        Some(b) => b@,
        None => match port {
            Some(p) => "0.0.0.0:"@ + p@,
            None => "127.0.0.1:8787"@,
        },
    }
}

/// Chooses the address the service binds.
pub fn service_bind_address(bind: Option<String>, port: Option<String>) -> (r: String)
    ensures
        r@ == bind_address_of(bind, port),
{
    match bind {
        Some(b) => b,
        None => match port {
            Some(p) => {
                let mut out = String::from_str("0.0.0.0:");
                out.append(p.as_str());
                out
            },
            None => String::from_str("127.0.0.1:8787"),
        },
    }
}


/// The reading state of `str::split_whitespace` after a text: the words
/// closed so far, and the word still open.
pub open spec fn word_state(s: Seq<char>) -> (Seq<Seq<char>>, Seq<char>)
    decreases s.len(),
{
    if s.len() == 0 {
        (Seq::empty(), Seq::empty())
    } else {
        let (done, cur) = word_state(s.drop_last());
        if is_white_space(s.last()) {
            if cur.len() > 0 {
                (done.push(cur), Seq::empty())
            } else {
                (done, cur)
            }
        } else {
            (done, cur.push(s.last()))
        }
    }
}

/// The words of a text: its maximal runs of characters other than white space.
pub open spec fn words(s: Seq<char>) -> Seq<Seq<char>> {
    let (done, cur) = word_state(s);
    if cur.len() > 0 { done.push(cur) } else { done }
}

/// Splits a text into its words, as `str::split_whitespace` does.
pub fn split_words(s: &str) -> (r: Vec<String>)
    ensures
        crate::text::views(r@) == words(s@),
{
    let n = s.unicode_len();
    let mut out: Vec<String> = Vec::new();
    let mut start: usize = 0;
    let mut i: usize = 0;
    assert(s@.take(0) =~= Seq::<char>::empty());
    while i < n
        invariant
            n == s@.len(),
            start <= i <= n,
            crate::text::views(out@) == word_state(s@.take(i as int)).0,
            word_state(s@.take(i as int)).1 == s@.subrange(start as int, i as int),
        decreases n - i,
    {
        let c = s.get_char(i);
        proof {
            assert(s@.take(i + 1).drop_last() =~= s@.take(i as int));
            assert(s@.take(i + 1).last() == c);
        }
        if char_is_whitespace(c) {
            if start < i {
                out.push(String::from_str(s.substring_char(start, i)));
                proof {
                    assert(crate::text::views(out@) =~= word_state(s@.take(i + 1)).0);
                }
            }
            start = i + 1;
            proof {
                assert(word_state(s@.take(i + 1)).1 =~= s@.subrange(start as int, i + 1));
            }
        } else {
            proof {
                assert(s@.subrange(start as int, i + 1) =~= s@.subrange(start as int, i as int).push(c));
            }
        }
        i = i + 1;
    }
    proof {
        assert(s@.take(n as int) =~= s@);
    }
    if start < n {
        out.push(String::from_str(s.substring_char(start, n)));
    }
    proof {
        assert(crate::text::views(out@) =~= words(s@));
    }
    out
}

/// Why an HTTP request could not be read.
#[derive(Debug, Clone, Copy, PartialEq, Eq, Structural)]
pub enum RequestError {
    MissingRequestLine,
    InvalidContentLength,
    MissingMethod,
    MissingPath,
}

impl RequestError {
    /// The message of the error.
    pub fn message(&self) -> (r: &'static str)
        ensures
            r@ == match *self {
                RequestError::MissingRequestLine => "missing request line"@,
                RequestError::InvalidContentLength => "invalid Content-Length"@,
                RequestError::MissingMethod => "missing method"@,
                RequestError::MissingPath => "missing path"@,
            },
    {
        match self {
            RequestError::MissingRequestLine => "missing request line",
            RequestError::InvalidContentLength => "invalid Content-Length",
            RequestError::MissingMethod => "missing method",
            RequestError::MissingPath => "missing path",
        }
    }
}

/// The method and path of a request line: its first two words. A blank line
/// is no request line at all.
pub open spec fn request_line_of(line: Seq<char>) -> Result<(Seq<char>, Seq<char>), RequestError> {
    if trimmed(line).len() == 0 {
        Err(RequestError::MissingRequestLine)
    } else if words(line).len() == 0 {
        Err(RequestError::MissingMethod)
    } else if words(line).len() == 1 {
        Err(RequestError::MissingPath)
    } else {
        Ok((words(line)[0], words(line)[1]))
    }
}

/// Reads the method and path of an HTTP request line.
pub fn parse_request_line(line: &str) -> (r: Result<(String, String), RequestError>)
    ensures
        match request_line_of(line@) {
            Ok((m, p)) => r matches Ok((rm, rp)) && rm@ == m && rp@ == p,
            Err(e) => r == Err::<(String, String), RequestError>(e),
        },
{
    if trim(line).as_str().is_empty() {
        return Err(RequestError::MissingRequestLine);
    }
    let mut parts = split_words(line);
    let n = parts.len();
    if n == 0 {
        return Err(RequestError::MissingMethod);
    }
    if n == 1 {
        return Err(RequestError::MissingPath);
    }
    let ghost w = crate::text::views(parts@);
    parts.truncate(2);
    let path = parts.pop();
    let method = parts.pop();
    match (method, path) {
        (Some(m), Some(p)) => {
            assert(m@ == w[0] && p@ == w[1]);
            Ok((m, p))
        },
        _ => Err(RequestError::MissingMethod),
    }
}

/// The value of a run of decimal digits.
pub open spec fn digits_value(s: Seq<char>) -> nat
    decreases s.len(),
{
    if s.len() == 0 {
        0
    } else {
        digits_value(s.drop_last()) * 10 + ((s.last() as int) - ('0' as int)) as nat
    }
}

/// Every character is a decimal digit.
pub open spec fn all_digits(s: Seq<char>) -> bool {
    forall|i: int| 0 <= i < s.len() ==> '0' <= #[trigger] s[i] <= '9'
}

/// What `usize::from_str` reads from a text: an optional `+`, then one or
/// more decimal digits whose value fits in a `usize`.
pub open spec fn usize_of(s: Seq<char>) -> Option<usize> {
    let digits = if s.len() > 0 && s[0] == '+' { s.drop_first() } else { s };
    if digits.len() > 0 && all_digits(digits) && digits_value(digits) <= usize::MAX {
        Some(digits_value(digits) as usize)
    } else {
        None
    }
}

proof fn lemma_digits_value_grows(s: Seq<char>, k: int)
    requires
        0 <= k <= s.len(),
        all_digits(s),
    ensures
        digits_value(s.take(k)) <= digits_value(s),
    decreases s.len() - k,
{
    if k < s.len() {
        let t = s.take(k + 1);
        assert(t.drop_last() =~= s.take(k));
        assert('0' <= t.last() <= '9');
        lemma_digits_value_grows(s, k + 1);
    } else {
        assert(s.take(k) =~= s);
    }
}

/// Reads a `usize` as `usize::from_str` does.
pub fn parse_usize(text: &str) -> (r: Option<usize>)
    ensures
        r == usize_of(text@),
{
    let n = text.unicode_len();
    let mut i: usize = 0;
    if n > 0 && text.get_char(0) == '+' {
        i = 1;
    }
    let ghost digits = if text@.len() > 0 && text@[0] == '+' { text@.drop_first() } else { text@ };
    let ghost first = i;
    proof {
        assert(digits =~= text@.subrange(first as int, n as int));
    }
    if i == n {
        return None;
    }
    let mut value: usize = 0;
    while i < n
        invariant
            n == text@.len(),
            first <= i <= n,
            digits == text@.subrange(first as int, n as int),
            digits == (if text@.len() > 0 && text@[0] == '+' { text@.drop_first() } else { text@ }),
            all_digits(digits.take(i - first)),
            value == digits_value(digits.take(i - first)),
        decreases n - i,
    {
        let c = text.get_char(i);
        let ghost k = i - first;
        proof {
            assert(digits.take(k + 1).drop_last() =~= digits.take(k));
            assert(digits.take(k + 1).last() == c);
        }
        if c < '0' || c > '9' {
            proof {
                assert(digits[k] == text@[i as int]);
                assert(digits[k] == c);
                assert(!('0' <= digits[k] <= '9'));
                assert(!all_digits(digits));
            }
            return None;
        }
        let d = (c as u32 - '0' as u32) as usize;
        assert(d as int == (c as int) - ('0' as int));
        assert(digits_value(digits.take(k + 1)) == value * 10 + d);
        match value.checked_mul(10) {
            Some(tens) => match tens.checked_add(d) {
                Some(next) => {
                    value = next;
                },
                None => {
                    proof {
                        assert(all_digits(digits.take(k + 1)));
                        if all_digits(digits) {
                            lemma_digits_value_grows(digits, k + 1);
                        }
                    }
                    return None;
                },
            },
            None => {
                proof {
                    assert(all_digits(digits.take(k + 1)));
                    if all_digits(digits) {
                        lemma_digits_value_grows(digits, k + 1);
                    }
                }
                return None;
            },
        }
        i = i + 1;
    }
    proof {
        assert(digits.take((n - first) as int) =~= digits);
    }
    Some(value)
}

/// What a header line tells: the end of the headers, a content length, or nothing we use.
#[derive(Debug, Clone, Copy, PartialEq, Eq, Structural)]
pub enum HeaderLine {
    End,
    ContentLength(usize),
    InvalidContentLength,
    Other,
}

/// How a header line reads once its trailing white space is dropped: blank
/// ends the headers; `Content-Length:` gives the length that follows,
/// surrounding white space ignored.
pub open spec fn header_line_of(line: Seq<char>) -> HeaderLine {
    let t = trim_back(line);
    if t.len() == 0 {
        HeaderLine::End
    } else if t.len() >= 15 && t.take(15) == "Content-Length:"@ {
        match usize_of(trimmed(t.skip(15))) {
            Some(n) => HeaderLine::ContentLength(n),
            None => HeaderLine::InvalidContentLength,
        }
    } else {
        HeaderLine::Other
    }
}

/// Reads one header line of an HTTP request.
pub fn read_header_line(line: &str) -> (r: HeaderLine)
    ensures
        r == header_line_of(line@),
{
    let t = trim_end(line);
    let n = t.as_str().unicode_len();
    if n == 0 {
        return HeaderLine::End;
    }
    if n >= 15 && text_eq(t.as_str().substring_char(0, 15), "Content-Length:") {
        let value = trim(t.as_str().substring_char(15, n));
        proof {
            assert(t@.subrange(15, n as int) =~= t@.skip(15));
        }
        match parse_usize(value.as_str()) {
            Some(len) => HeaderLine::ContentLength(len),
            None => HeaderLine::InvalidContentLength,
        }
    } else {
        proof {
            if n >= 15 {
                assert(t@.subrange(0, 15) =~= t@.take(15));
            }
        }
        HeaderLine::Other
    }
}

} // verus!
