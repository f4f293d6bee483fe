//! The response assembled from the chain's outcome, and the entry points
//! that take the input as encoded text.
use vstd::prelude::*;
use crate::encoding::{
    base64_decoded, decode_base64, decode_hex, hex_decoded, invalid_base64_prefix, invalid_hex_prefix,
    is_hex_text,
};
use crate::pipeline::{
    parse_batch_from_bytes, parse_outcome, BatchReportEventDto, BatchReportEventParseResult, RecordCodec,
};

verus! {

/// A response: whether it succeeded, a human-readable message, and the
/// payload on success.
#[derive(Debug)]
pub struct CallResult<T> {
    pub success: bool,
    pub message: String,
    pub data: Option<T>,
}

impl<T> CallResult<T> {
    /// A successful response carrying `data`.
    pub fn ok(message: String, data: T) -> (r: Self)
        ensures
            r.success,
            r.message@ == message@,
            r.data == Some(data),
    {
        CallResult { success: true, message, data: Some(data) }
    }

    /// A failed response carrying no payload.
    pub fn fail(message: String) -> (r: Self)
        ensures
            !r.success,
            r.message@ == message@,
            r.data is None,
    {
        CallResult { success: false, message, data: None }
    }
}

/// Texts joined in order, with `sep` between neighbours.
pub open spec fn joined(parts: Seq<Seq<char>>, sep: Seq<char>) -> Seq<char>
    decreases parts.len(),
{
    if parts.len() == 0 {
        Seq::empty()
    } else if parts.len() == 1 {
        parts[0]
    } else {
        joined(parts.drop_last(), sep) + sep + parts.last()
    }
}

/// The views of a sequence of strings.
pub open spec fn views(v: Seq<String>) -> Seq<Seq<char>> {
    Seq::new(v.len(), |i: int| v[i]@)
}

/// Joins texts in order with `sep` between neighbours.
pub fn join(parts: &Vec<String>, sep: &str) -> (r: String)
    ensures
        r@ == joined(views(parts@), sep@),
{
    let mut out = String::new();
    let mut i: usize = 0;
    while i < parts.len()
        invariant
            i <= parts@.len(),
            out@ == joined(views(parts@.subrange(0, i as int)), sep@),
        decreases parts@.len() - i,
    {
        let ghost prev = parts@.subrange(0, i as int);
        let ghost next = parts@.subrange(0, i as int + 1);
        assert(views(next).drop_last() =~= views(prev));
        if i == 0 {
            out = out.concat(parts[i].as_str());
            assert(views(next) =~= seq![parts@[0]@]);
        } else {
            out = out.concat(sep).concat(parts[i].as_str());
        }
        i += 1;
    }
    assert(parts@.subrange(0, parts@.len() as int) =~= parts@);
    out
}

/// The separator of the rendered trace.
pub open spec fn trace_separator() -> Seq<char> {
    " -> "@
}

/// The message of a successful response: a prefix and the rendered trace.
pub open spec fn success_message(steps: Seq<String>) -> Seq<char> {
    "解析成功，尝试步骤："@ + joined(views(steps), trace_separator())
}

/// The message of a failed response: a prefix and the rendered trace.
pub open spec fn failure_message(steps: Seq<String>) -> Seq<char> {
    "解析失败，尝试步骤："@ + joined(views(steps), trace_separator())
}

/// Turns the chain's outcome into a response: the record on success, and in
/// either case a message that embeds the whole trace.
pub fn respond_with_parse_result(result: BatchReportEventParseResult) -> (r: CallResult<
    BatchReportEventDto,
>)
    ensures
        r.success == result.parsed is Some,
        r.data == result.parsed,
        r.success ==> r.message@ == success_message(result.steps@),
        !r.success ==> r.message@ == failure_message(result.steps@),
{
    let trace = join(&result.steps, " -> ");
    match result.parsed {
        Some(parsed) => CallResult::ok(
            String::from_str("解析成功，尝试步骤：").concat(trace.as_str()),
            parsed,
        ),
        None => CallResult::fail(String::from_str("解析失败，尝试步骤：").concat(trace.as_str())),
    }
}

/// The request of the Base64 entry point.
pub struct ParseBase64Request {
    pub base64_data: String,
}

/// The request of the hexadecimal entry point.
pub struct ParseHexRequest {
    pub hex_data: String,
}

/// The request of the file entry point.
pub struct ParseFileRequest {
    pub path: String,
}

/// The response owed for the chain's outcome `o` on some input.
pub open spec fn response_for(r: CallResult<BatchReportEventDto>, o: BatchReportEventParseResult) -> bool {
    &&& r.success == o.parsed is Some
    &&& r.data == o.parsed
    &&& (r.success ==> r.message@ == success_message(o.steps@))
    &&& (!r.success ==> r.message@ == failure_message(o.steps@))
}

/// A response that fails before any strategy runs, with a message that
/// starts with `prefix`.
pub open spec fn rejected_with(r: CallResult<BatchReportEventDto>, prefix: Seq<char>) -> bool {
    &&& !r.success
    &&& r.data is None
    &&& r.message@.len() >= prefix.len()
    &&& r.message@.subrange(0, prefix.len() as int) == prefix
}

/// Runs the chain on bytes that arrive as Base64 text; text that does not
/// decode fails before any strategy is tried. The error is the chain's fatal
/// one.
pub fn parse_batch_from_base64<C: RecordCodec>(codec: &C, request: &ParseBase64Request) -> (r: Result<
    CallResult<BatchReportEventDto>,
    String,
>)
    ensures
        base64_decoded(request.base64_data@) is None ==> (r matches Ok(c) && rejected_with(
            c,
            invalid_base64_prefix(),
        )),
        base64_decoded(request.base64_data@) is Some ==> exists|o: Result<BatchReportEventParseResult, String>|
            #[trigger] parse_outcome(codec, o, base64_decoded(request.base64_data@)->0) && (
            r is Err <==> o is Err) && (r matches Err(m) ==> m == o->Err_0) && (r matches Ok(c)
                ==> response_for(c, o->Ok_0)),
{
    match decode_base64(request.base64_data.as_str()) {
        Ok(bytes) => {
            let outcome = parse_batch_from_bytes(codec, bytes);
            let ghost o = outcome;
            assert(base64_decoded(request.base64_data@) == Some(bytes@));
            assert(parse_outcome(codec, o, base64_decoded(request.base64_data@)->0));
            match outcome {
                Ok(result) => Ok(respond_with_parse_result(result)),
                Err(m) => Err(m),
            }
        },
        Err(message) => Ok(CallResult::fail(message)),
    }
}

/// Runs the chain on bytes that arrive as hexadecimal text; text that does
/// not decode fails before any strategy is tried. The error is the chain's
/// fatal one.
pub fn parse_batch_from_hex<C: RecordCodec>(codec: &C, request: &ParseHexRequest) -> (r: Result<
    CallResult<BatchReportEventDto>,
    String,
>)
    ensures
        !is_hex_text(request.hex_data@) ==> (r matches Ok(c) && rejected_with(c, invalid_hex_prefix())),
        is_hex_text(request.hex_data@) ==> exists|o: Result<BatchReportEventParseResult, String>|
            #[trigger] parse_outcome(codec, o, hex_decoded(request.hex_data@)) && (r is Err <==> o is Err)
                && (r matches Err(m) ==> m == o->Err_0) && (r matches Ok(c) ==> response_for(
                c,
                o->Ok_0,
            )),
{
    match decode_hex(request.hex_data.as_str()) {
        Ok(bytes) => {
            let outcome = parse_batch_from_bytes(codec, bytes);
            let ghost o = outcome;
            match outcome {
                Ok(result) => Ok(respond_with_parse_result(result)),
                Err(m) => Err(m),
            }
        },
        Err(message) => Ok(CallResult::fail(message)),
    }
}

} // verus!
