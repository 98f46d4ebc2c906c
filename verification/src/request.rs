//! Requests to Jito's JSON-RPC interface: what is sent, and what is made of the reply.

use vstd::prelude::*;
use vstd::string::StringExecFns;

verus! {

/// A reply of the JSON-RPC interface.
#[derive(Debug, PartialEq, Eq)]
pub struct JitoResponse<T> {
    pub result: T,
}

/// How serde_json writes a text: in quotes, with what needs it escaped.
pub uninterp spec fn json_string(text: Seq<char>) -> Seq<char>;

/// Nothing in a text needs escaping in JSON: it holds no quote, no backslash and nothing that comes
/// before the space.
pub open spec fn is_plain(text: Seq<char>) -> bool {
    forall|i: int|
        0 <= i < text.len() ==> (#[trigger] text[i]) as u32 >= 0x20 && text[i] != '"' && text[i]
            != '\\'
}

/// A text in quotes.
pub open spec fn quoted(text: Seq<char>) -> Seq<char> {
    seq!['"'] + text + seq!['"']
}

/// A text in quotes is the text with one quote before and one behind it, and two texts look the
/// same in quotes only if they are the same.
pub proof fn lemma_quotes_keep_text(text: Seq<char>, other: Seq<char>)
    ensures
        quoted(text).len() == text.len() + 2,
        quoted(text)[0] == '"',
        quoted(text).last() == '"',
        forall|i: int| 0 <= i < text.len() ==> quoted(text)[1 + i] == #[trigger] text[i],
        quoted(text) == quoted(other) <==> text == other,
{
    if quoted(text) == quoted(other) {
        assert(quoted(text).subrange(1, quoted(text).len() - 1) =~= text);
        assert(quoted(other).subrange(1, quoted(other).len() - 1) =~= other);
    }
}

/// Calls `to_string` on a `serde_json::Value` made of a text. Claimed of it: what it writes
/// depends on the text alone, and is the text in quotes where nothing needs escaping.
#[verifier::external_body]
fn write_json_string(text: &str) -> (r: String)
    ensures
        r@ == json_string(text@),
        is_plain(text@) ==> r@ == quoted(text@),
{
    serde_json::Value::from(text).to_string()
}

/// The body of a request, given the method and the parameters as JSON.
pub open spec fn body_text(method: Seq<char>, params: Seq<char>) -> Seq<char> {
    "{\"id\":1,\"jsonrpc\":\"2.0\",\"method\":"@ + method + ",\"params\":"@ + params + "}"@
}

/// The body of a request, given the method and the parameters as JSON.
pub fn body_of(method_json: &str, params_json: &str) -> (r: String)
    ensures
        r@ == body_text(method_json@, params_json@),
        r@ == "{\"id\":1,\"jsonrpc\":\"2.0\",\"method\":"@ + method_json@ + ",\"params\":"@
            + params_json@ + "}"@,
{
    "{\"id\":1,\"jsonrpc\":\"2.0\",\"method\":".to_owned().concat(method_json).concat(
        ",\"params\":",
    ).concat(params_json).concat("}")
}

/// The body of a request for `method` with parameters that are JSON already.
pub fn request_body(method: &str, params_json: &str) -> (r: String)
    ensures
        r@ == body_text(json_string(method@), params_json@),
        is_plain(method@) ==> r@ == body_text(quoted(method@), params_json@),
        r@ == "{\"id\":1,\"jsonrpc\":\"2.0\",\"method\":"@ + json_string(method@)
            + ",\"params\":"@ + params_json@ + "}"@,
{
    let method_json = write_json_string(method);
    body_of(method_json.as_str(), params_json)
}

/// What came of sending a request.
pub enum HttpReply {
    /// It could not be sent, for this reason.
    Unsent { error: String },
    /// It was answered with this status, but the answer could not be read, for this reason.
    Unread { status: u16, error: String },
    /// It was answered with this status and this text.
    Answered { status: u16, text: String },
}

/// Why a request came to nothing.
#[derive(Debug, PartialEq, Eq)]
pub enum RequestError {
    /// It could not be sent, for this reason.
    Unsent { error: String },
    /// The answer could not be read, for this reason.
    Unread { error: String },
    /// The status of the answer is not one of success.
    Status { status: String, text: String },
    /// The answer is not what was asked for, for this reason.
    Unparsed { error: String, text: String, status: String },
}

/// What a [`RequestError`] says, as a mathematical value.
pub enum RequestErrorView {
    Unsent { error: Seq<char> },
    Unread { error: Seq<char> },
    Status { status: Seq<char>, text: Seq<char> },
    Unparsed { error: Seq<char>, text: Seq<char>, status: Seq<char> },
}

impl View for RequestError {
    type V = RequestErrorView;

    open spec fn view(&self) -> RequestErrorView {
        match *self {
            RequestError::Unsent { error } => RequestErrorView::Unsent { error: error@ },
            RequestError::Unread { error } => RequestErrorView::Unread { error: error@ },
            RequestError::Status { status, text } => RequestErrorView::Status {
                status: status@,
                text: text@,
            },
            RequestError::Unparsed { error, text, status } => RequestErrorView::Unparsed {
                error: error@,
                text: text@,
                status: status@,
            },
        }
    }
}

/// How a failed request is reported.
pub open spec fn request_error_text(error: RequestErrorView) -> Seq<char> {
    match error {
        RequestErrorView::Unsent { error } => "fail to send request: "@ + error,
        RequestErrorView::Unread { error } => "fail to read response content: "@ + error,
        RequestErrorView::Status { status, text } => "status code: "@ + status + ", response: "@
            + text,
        RequestErrorView::Unparsed { error, text, status } => "fail to deserialize response: "@
            + error + ", response: "@ + text + ", status: "@ + status,
    }
}

impl RequestError {
    /// How the failed request is reported.
    pub fn text(&self) -> (r: String)
        ensures
            r@ == request_error_text(self@),
            match *self {
                RequestError::Unsent { error } => r@ == "fail to send request: "@ + error@,
                RequestError::Unread { error } => r@ == "fail to read response content: "@ + error@,
                RequestError::Status { status, text } => r@ == "status code: "@ + status@
                    + ", response: "@ + text@,
                RequestError::Unparsed { error, text, status } => r@
                    == "fail to deserialize response: "@ + error@ + ", response: "@ + text@
                    + ", status: "@ + status@,
            },
    {
        match self {
            RequestError::Unsent { error } => "fail to send request: ".to_owned().concat(
                error.as_str(),
            ),
            RequestError::Unread { error } => "fail to read response content: ".to_owned().concat(
                error.as_str(),
            ),
            RequestError::Status { status, text } => "status code: ".to_owned().concat(
                status.as_str(),
            ).concat(", response: ").concat(text.as_str()),
            RequestError::Unparsed { error, text, status } =>
                "fail to deserialize response: ".to_owned().concat(error.as_str()).concat(
                    ", response: ",
                ).concat(text.as_str()).concat(", status: ").concat(status.as_str()),
        }
    }
}

/// A number that HTTP takes for a status.
pub open spec fn is_status(status: u16) -> bool {
    100 <= status < 1000
}

/// The numbers of three digits are the ones that HTTP takes for a status.
pub proof fn lemma_status_has_three_digits(status: u16)
    ensures
        is_status(status) <==> crate::text::decimal(status as nat).len() == 3,
{
    reveal_with_fuel(crate::text::decimal, 6);
    assert(status as nat / 10 / 10 / 10 / 10 < 10);
}

/// How a status is written: the number and what it stands for.
pub uninterp spec fn status_text(status: u16) -> Seq<char>;

/// Calls `to_string` on a `reqwest::StatusCode` made of a number. Claimed of it: what it writes
/// depends on the number alone.
#[verifier::external_body]
fn write_status(status: u16) -> (r: String)
    requires
        is_status(status),
    ensures
        r@ == status_text(status),
{
    reqwest::StatusCode::from_u16(status).unwrap().to_string()
}

/// The text of an answer that reports success.
#[derive(Debug, PartialEq, Eq)]
pub struct Answer {
    pub text: String,
    pub status: String,
}

/// What the answer to a request amounts to: its text if the status is one of success.
pub fn make_jito_request(reply: HttpReply) -> (r: Result<Answer, RequestError>)
    requires
        reply matches HttpReply::Answered { status, .. } ==> is_status(status),
    ensures
        reply matches HttpReply::Unsent { error } ==> (r matches Err(
            RequestError::Unsent { error: told },
        ) && told@ == error@),
        reply matches HttpReply::Unread { status: _, error } ==> (r matches Err(
            RequestError::Unread { error: told },
        ) && told@ == error@),
        reply matches HttpReply::Answered { status, text } ==> (r is Ok <==> 200 <= status < 300),
        reply matches HttpReply::Answered { status, text } ==> (r matches Ok(answer)
            ==> answer.text@ == text@ && answer.status@ == status_text(status)),
        reply matches HttpReply::Answered { status, text } ==> (r matches Err(error) ==> (
        error matches RequestError::Status { status: told, text: body } && told@ == status_text(
            status,
        ) && body@ == text@)),
        match reply {
            HttpReply::Unsent { error } => r is Err && r->Err_0@ == (RequestErrorView::Unsent {
                error: error@,
            }),
            HttpReply::Unread { error, .. } => r is Err && r->Err_0@ == (
            RequestErrorView::Unread { error: error@ }),
            HttpReply::Answered { status, text } => if 200 <= status < 300 {
                r is Ok && r->Ok_0.text@ == text@ && r->Ok_0.status@ == status_text(status)
            } else {
                r is Err && r->Err_0@ == (RequestErrorView::Status {
                    status: status_text(status),
                    text: text@,
                })
            },
        },
{
    match reply {
        HttpReply::Unsent { error } => Err(RequestError::Unsent { error }),
        HttpReply::Unread { status: _, error } => Err(RequestError::Unread { error }),
        HttpReply::Answered { status, text } => {
            let written = write_status(status);
            if 200 <= status && status < 300 {
                Ok(Answer { text, status: written })
            } else {
                Err(RequestError::Status { status: written, text })
            }
        },
    }
}

impl Answer {
    /// The error to report when the text is not what was asked for.
    pub fn unparsed(self, error: String) -> (r: RequestError)
        ensures
            r@ == (RequestErrorView::Unparsed {
                error: error@,
                text: self.text@,
                status: self.status@,
            }),
            r matches RequestError::Unparsed { error: told, text, status } && told@ == error@
                && text@ == self.text@ && status@ == self.status@,
    {
        RequestError::Unparsed { error, text: self.text, status: self.status }
    }
}

} // verus!
