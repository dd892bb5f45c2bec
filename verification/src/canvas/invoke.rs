//! Requests to the canvas object and the answers it gives.
use vstd::prelude::*;
use vstd::string::*;
use vstd::utf8::encode_utf8;
use crate::text::chars::{bytes_of, same};
use crate::text::number::{decimal, to_decimal};

verus! {

/// How an invocation ended.
#[derive(Debug, Clone, Copy, PartialEq, Eq, Structural)]
pub enum ResponseStatus {
    Okay,
    InvalidRequest,
    SystemError,
}

/// A header of a request or an answer.
#[derive(Debug)]
pub struct KeyValue {
    pub key: String,
    pub value: String,
}

/// The answer to an invocation.
#[derive(Debug)]
pub struct InvocationResponse {
    pub status: ResponseStatus,
    pub payload: Option<Vec<u8>>,
    pub headers: Vec<KeyValue>,
}

/// The model of an answer.
#[verifier::ext_equal]
pub struct ResponseView {
    pub status: ResponseStatus,
    pub payload: Option<Seq<u8>>,
    pub headers: Seq<(Seq<char>, Seq<char>)>,
}

impl View for InvocationResponse {
    type V = ResponseView;

    open spec fn view(&self) -> ResponseView {
        ResponseView {
            status: self.status,
            payload: match self.payload {
                Some(p) => Some(p@),
                None => None,
            },
            headers: Seq::new(
                self.headers@.len(),
                |i: int| (self.headers@[i].key@, self.headers@[i].value@),
            ),
        }
    }
}

/// The answer with a status, a text as its payload and no header.
pub open spec fn text_answer(status: ResponseStatus, text: Seq<char>) -> ResponseView {
    ResponseView { status, payload: Some(encode_utf8(text)), headers: seq![] }
}

impl InvocationResponse {
    /// Whether this is the answer with a status, a text as its payload and no header.
    pub open spec fn says(self, status: ResponseStatus, text: Seq<char>) -> bool {
        self@ == text_answer(status, text)
    }
}

/// An answer with a text as its payload and no header.
fn text_response(status: ResponseStatus, text: &str) -> (r: InvocationResponse)
    ensures
        r.says(status, text@),
{
    let r = InvocationResponse { status, payload: Some(bytes_of(text)), headers: Vec::new() };
    assert(r@.headers =~= seq![]);
    r
}

/// Decides on a call by the name of its function: `golStep` is served, and any other name is
/// answered at once.
pub fn on_invoke(function_name: &str) -> (r: Option<InvocationResponse>)
    ensures
        r is None <==> function_name@ == "golStep"@,
        r matches Some(a) ==> a.says(
            ResponseStatus::InvalidRequest,
            "Unknown function: "@ + function_name@,
        ),
{
    if same(function_name, "golStep") {
        None
    } else {
        let mut text: String = "Unknown function: ".to_owned();
        text.append(function_name);
        Some(text_response(ResponseStatus::InvalidRequest, text.as_str()))
    }
}

/// The answer to a step without a payload.
pub fn missing_payload() -> (r: InvocationResponse)
    ensures
        r.says(
            ResponseStatus::InvalidRequest,
            "Missing payload: {\"cols\": N, \"rows\": N}"@,
        ),
{
    text_response(ResponseStatus::InvalidRequest, "Missing payload: {\"cols\": N, \"rows\": N}")
}

/// The answer to a step whose payload cannot be read.
pub fn invalid_json(error: &str) -> (r: InvocationResponse)
    ensures
        r.says(ResponseStatus::InvalidRequest, "Invalid JSON: "@ + error@),
{
    let mut text: String = "Invalid JSON: ".to_owned();
    text.append(error);
    text_response(ResponseStatus::InvalidRequest, text.as_str())
}

/// The column and the row of a tile as text.
pub open spec fn place_text(cx: int, cy: int) -> Seq<char> {
    decimal(cx as nat) + "-"@ + decimal(cy as nat)
}

/// Writes the column and the row of a tile.
fn write_place(cx: usize, cy: usize) -> (r: String)
    ensures
        r@ == place_text(cx as int, cy as int),
{
    let mut r: String = to_decimal(cx as u64);
    r.append("-");
    r.append(to_decimal(cy as u64).as_str());
    r
}

/// The identity of the object that stores a tile.
pub open spec fn tile_id(cx: int, cy: int) -> Seq<char> {
    "canvas-"@ + place_text(cx, cy)
}

/// Names the object that stores a tile.
pub(crate) fn write_tile_id(cx: usize, cy: usize) -> (r: String)
    ensures
        r@ == tile_id(cx as int, cy as int),
{
    let mut r: String = "canvas-".to_owned();
    r.append(write_place(cx, cy).as_str());
    r
}

/// What is said of a tile that failed.
pub open spec fn failure_text(what: Seq<char>, cx: int, cy: int, error: Seq<char>) -> Seq<char> {
    what + place_text(cx, cy) + ": "@ + error
}

/// The answer when the object of a tile cannot be reached.
pub fn object_failed(cx: usize, cy: usize, error: &str) -> (r: InvocationResponse)
    ensures
        r.says(
            ResponseStatus::SystemError,
            failure_text("Failed to get proxy for canvas-"@, cx as int, cy as int, error@),
        ),
{
    let mut text: String = "Failed to get proxy for canvas-".to_owned();
    text.append(write_place(cx, cy).as_str());
    text.append(": ");
    text.append(error);
    text_response(ResponseStatus::SystemError, text.as_str())
}

/// The answer when the fields of a tile cannot be read.
pub fn data_failed(cx: usize, cy: usize, error: &str) -> (r: InvocationResponse)
    ensures
        r.says(
            ResponseStatus::SystemError,
            failure_text("Failed to get data for canvas-"@, cx as int, cy as int, error@),
        ),
{
    let mut text: String = "Failed to get data for canvas-".to_owned();
    text.append(write_place(cx, cy).as_str());
    text.append(": ");
    text.append(error);
    text_response(ResponseStatus::SystemError, text.as_str())
}

/// The answer when the fields of a tile cannot be written.
pub fn write_failed(cx: usize, cy: usize, error: &str) -> (r: InvocationResponse)
    ensures
        r.says(
            ResponseStatus::SystemError,
            failure_text("Failed to write tile "@, cx as int, cy as int, error@),
        ),
{
    let mut text: String = "Failed to write tile ".to_owned();
    text.append(write_place(cx, cy).as_str());
    text.append(": ");
    text.append(error);
    text_response(ResponseStatus::SystemError, text.as_str())
}

/// The result of a step as a JSON document: how many cells were born and died.
pub open spec fn result_text(births: nat, deaths: nat) -> Seq<char> {
    "{\"births\":"@ + decimal(births) + ",\"deaths\":"@ + decimal(deaths) + "}"@
}

/// Writes the result of a step as a JSON document.
pub fn step_payload(births: u32, deaths: u32) -> (r: Vec<u8>)
    ensures
        r@ == encode_utf8(result_text(births as nat, deaths as nat)),
{
    let mut text: String = "{\"births\":".to_owned();
    text.append(to_decimal(births as u64).as_str());
    text.append(",\"deaths\":");
    text.append(to_decimal(deaths as u64).as_str());
    text.append("}");
    bytes_of(text.as_str())
}

/// The answer that a step was done, with its result.
pub open spec fn done_answer(births: nat, deaths: nat) -> ResponseView {
    ResponseView {
        status: ResponseStatus::Okay,
        payload: Some(encode_utf8(result_text(births, deaths))),
        headers: seq![("content-type"@, "application/json"@)],
    }
}

/// The answer to a step that was done: its result as a JSON document.
pub fn step_done(births: u32, deaths: u32) -> (r: InvocationResponse)
    ensures
        r@ == done_answer(births as nat, deaths as nat),
{
    let mut headers: Vec<KeyValue> = Vec::new();
    headers.push(
        KeyValue { key: "content-type".to_owned(), value: "application/json".to_owned() },
    );
    let r = InvocationResponse {
        status: ResponseStatus::Okay,
        payload: Some(step_payload(births, deaths)),
        headers,
    };
    assert(r@.headers =~= seq![("content-type"@, "application/json"@)]);
    r
}

} // verus!
