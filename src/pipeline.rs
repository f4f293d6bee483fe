//! The strategy chain, the integrity verdict and the assembled result.
use vstd::prelude::*;
use crate::digest::{digests_match, eq_ignore_ascii_case, fold_case};
use crate::encoding::{bytes_to_hex, lower_hex, md5_of, md5_upper_hex, upper_digits, upper_hex};
use crate::json::{strip_nulls, stripped, Json, JsonView};
use crate::transform::{strategy_at, strategy_name, transformed, Strategy, STRATEGY_COUNT};

verus! {

/// The model of a byte string, as the codec's spec functions take it.
pub type ByteSeq = Seq<u8>;

/// The schema of the structured records: it decodes bytes into a record,
/// serializes a record back into bytes, and presents a record as a value.
/// Each operation is a function of its arguments, named by a spec function.
pub trait RecordCodec {
    type Record;

    /// The record that `bytes` decode into, if they decode.
    spec fn decoded(&self, bytes: ByteSeq) -> Option<Self::Record>;

    /// The bytes that a record serializes into.
    spec fn encoded(&self, record: Self::Record) -> ByteSeq;

    /// The value that presents a record, if it can be presented.
    spec fn presented(&self, record: Self::Record) -> Option<JsonView>;

    fn decode(&self, bytes: &[u8]) -> (r: Option<Self::Record>)
        ensures
            r == self.decoded(bytes@),
    ;

    fn encode(&self, record: &Self::Record) -> (r: Vec<u8>)
        ensures
            r@ == self.encoded(*record),
    ;

    fn to_json(&self, record: &Self::Record) -> (r: Option<Json>)
        ensures
            r is Some <==> self.presented(*record) is Some,
            r matches Some(j) ==> self.presented(*record) == Some(j@),
    ;
}

/// How one attempted strategy ended.
#[derive(PartialEq, Eq, Structural, Clone, Copy, Debug)]
pub enum Outcome {
    /// The transforms succeeded and the schema decoded the result.
    Succeeded,
    /// The transforms succeeded and the schema rejected the result.
    DecodeFailed,
    /// A transform of the strategy failed; nothing was decoded.
    TransformFailed,
}

/// One entry of the decode trace.
#[derive(PartialEq, Eq, Structural, Clone, Copy, Debug)]
pub struct Attempt {
    pub strategy: Strategy,
    pub outcome: Outcome,
}

/// The human-readable text of a trace entry.
pub open spec fn step_text(a: Attempt) -> Seq<char> {
    match a.outcome {
        Outcome::Succeeded => "步骤成功："@ + strategy_name(a.strategy),
        Outcome::DecodeFailed => "步骤失败："@ + strategy_name(a.strategy) + " (protobuf 解析失败)"@,
        Outcome::TransformFailed => "步骤失败："@ + strategy_name(a.strategy) + " (处理错误)"@,
    }
}

/// A decoded record as presented, with its integrity verdict.
#[derive(Debug)]
pub struct BatchReportEventDto {
    pub data: Json,
    pub decompressed_hex: String,
    pub input_md5: String,
    pub result_md5: String,
    pub is_match: bool,
}

/// The presentation of a record whose value is `json`, decoded from
/// `decompressed`, recovered from `original`, and serialized back as
/// `reencoded`.
pub open spec fn dto_of(
    d: BatchReportEventDto,
    json: JsonView,
    decompressed: Seq<u8>,
    original: Seq<u8>,
    reencoded: Seq<u8>,
) -> bool {
    &&& d.data@ == stripped(json)
    &&& d.decompressed_hex@ == lower_hex(decompressed)
    &&& d.input_md5@ == upper_hex(md5_of(original))
    &&& d.result_md5@ == upper_hex(md5_of(reencoded))
    &&& d.input_md5@.len() == 32
    &&& d.result_md5@.len() == 32
    &&& d.is_match == eq_ignore_ascii_case(d.input_md5@, d.result_md5@)
}

impl BatchReportEventDto {
    /// Presents a decoded record and computes its integrity verdict from the
    /// digests of the original input and of the record serialized again.
    pub fn from_parts(data: &Json, decompressed: &[u8], original: &[u8], reencoded: &[u8]) -> (r: Self)
        ensures
            dto_of(r, data@, decompressed@, original@, reencoded@),
    {
        let data = strip_nulls(data);
        let decompressed_hex = bytes_to_hex(decompressed);
        let input_md5 = md5_upper_hex(original);
        let result_md5 = md5_upper_hex(reencoded);
        let is_match = digests_match(input_md5.as_str(), result_md5.as_str());
        BatchReportEventDto { data, decompressed_hex, input_md5, result_md5, is_match }
    }

    /// Presents a record that `codec` decoded from `decompressed`; fails
    /// where the codec cannot present the record.
    pub fn from_parsed<C: RecordCodec>(
        codec: &C,
        event: &C::Record,
        decompressed: &[u8],
        original: &[u8],
    ) -> (r: Option<Self>)
        ensures
            r is Some <==> codec.presented(*event) is Some,
            r matches Some(d) ==> dto_of(
                d,
                codec.presented(*event)->0,
                decompressed@,
                original@,
                codec.encoded(*event),
            ),
    {
        match codec.to_json(event) {
            Some(json) => {
                let reencoded = codec.encode(event);
                Some(Self::from_parts(&json, decompressed, original, reencoded.as_slice()))
            },
            None => None,
        }
    }
}

/// The outcome of the strategy chain: the record if one strategy succeeded,
/// and the trace of every attempt, as entries and as text.
#[derive(Debug)]
pub struct BatchReportEventParseResult {
    pub parsed: Option<BatchReportEventDto>,
    pub attempts: Vec<Attempt>,
    pub steps: Vec<String>,
}

/// Whether the strategy at position `i` turns the input into bytes that the
/// codec decodes.
pub open spec fn accepted<C: RecordCodec>(codec: &C, i: int, input: Seq<u8>) -> bool {
    &&& transformed(strategy_at(i), input) is Some
    &&& codec.decoded(transformed(strategy_at(i), input)->0) is Some
}

/// How the attempt of the strategy at position `i` ends on the input.
pub open spec fn expected_outcome<C: RecordCodec>(codec: &C, i: int, input: Seq<u8>) -> Outcome {
    if transformed(strategy_at(i), input) is None {
        Outcome::TransformFailed
    } else if accepted(codec, i, input) {
        Outcome::Succeeded
    } else {
        Outcome::DecodeFailed
    }
}

/// The record that the strategy at position `i` recovers from the input.
pub open spec fn record_at<C: RecordCodec>(codec: &C, i: int, input: Seq<u8>) -> C::Record {
    codec.decoded(transformed(strategy_at(i), input)->0)->0
}

/// The position of the first strategy that recovers a record, if any.
pub open spec fn first_accepted<C: RecordCodec>(codec: &C, input: Seq<u8>) -> Option<int> {
    if accepted(codec, 0, input) {
        Some(0)
    } else if accepted(codec, 1, input) {
        Some(1)
    } else if accepted(codec, 2, input) {
        Some(2)
    } else {
        None
    }
}

/// What the chain owes on an input once the record, if any, is presented:
/// the strategies are tried in the fixed order, each attempt ends as the
/// transforms and the codec decide, the chain halts at the first strategy
/// that recovers a record and presents that record, and all strategies are
/// tried when none does.
pub open spec fn chain_result<C: RecordCodec>(
    codec: &C,
    r: BatchReportEventParseResult,
    input: Seq<u8>,
) -> bool {
    let n = r.attempts@.len();
    &&& 1 <= n <= STRATEGY_COUNT
    &&& r.steps@.len() == n
    &&& forall|i: int|
        0 <= i < n ==> {
            &&& #[trigger] r.attempts@[i] == Attempt {
                strategy: strategy_at(i),
                outcome: expected_outcome(codec, i, input),
            }
            &&& r.steps@[i]@ == step_text(r.attempts@[i])
        }
    &&& forall|i: int| 0 <= i < n - 1 ==> !#[trigger] accepted(codec, i, input)
    &&& (accepted(codec, n - 1, input) || n == STRATEGY_COUNT)
    &&& (r.parsed is Some <==> accepted(codec, n - 1, input))
    &&& (r.parsed matches Some(d) ==> dto_of(
        d,
        codec.presented(record_at(codec, n - 1, input))->0,
        transformed(strategy_at(n - 1), input)->0,
        input,
        codec.encoded(record_at(codec, n - 1, input)),
    ))
}

/// The message of the one fatal failure: a recovered record that cannot be
/// presented.
pub open spec fn serialization_failed() -> Seq<char> {
    "序列化失败"@
}

/// What running the chain on an input yields: a fatal error exactly when the
/// first strategy that recovers a record recovers one that the codec cannot
/// present, and otherwise the outcome that `chain_result` describes.
pub open spec fn parse_outcome<C: RecordCodec>(
    codec: &C,
    r: Result<BatchReportEventParseResult, String>,
    input: Seq<u8>,
) -> bool {
    &&& (r is Err <==> (first_accepted(codec, input) matches Some(k) && codec.presented(
        record_at(codec, k, input),
    ) is None))
    &&& (r matches Err(m) ==> m@ == serialization_failed())
    &&& (r matches Ok(res) ==> chain_result(codec, res, input))
}

fn step_message(a: Attempt) -> (r: String)
    ensures
        r@ == step_text(a),
{
    let name = a.strategy.name();
    match a.outcome {
        Outcome::Succeeded => String::from_str("步骤成功：").concat(name),
        Outcome::DecodeFailed => String::from_str("步骤失败：").concat(name).concat(
            " (protobuf 解析失败)",
        ),
        Outcome::TransformFailed => String::from_str("步骤失败：").concat(name).concat(" (处理错误)"),
    }
}

/// Tries each strategy in the fixed order on the input: applies its
/// transforms to a copy, decodes the result with `codec`, and stops at the
/// first record decoded, which it presents.
pub fn parse_batch_from_bytes<C: RecordCodec>(codec: &C, bytes: Vec<u8>) -> (r: Result<
    BatchReportEventParseResult,
    String,
>)
    ensures
        parse_outcome(codec, r, bytes@),
{
    let mut attempts: Vec<Attempt> = Vec::new();
    let mut steps: Vec<String> = Vec::new();
    let mut i: usize = 0;
    while i < STRATEGY_COUNT
        invariant
            i <= STRATEGY_COUNT,
            attempts@.len() == i,
            steps@.len() == i,
            forall|j: int|
                0 <= j < i ==> {
                    &&& #[trigger] attempts@[j] == Attempt {
                        strategy: strategy_at(j),
                        outcome: expected_outcome(codec, j, bytes@),
                    }
                    &&& steps@[j]@ == step_text(attempts@[j])
                },
            forall|j: int| 0 <= j < i ==> !#[trigger] accepted(codec, j, bytes@),
        decreases STRATEGY_COUNT - i,
    {
        let strategy = Strategy::at(i);
        let outcome = match strategy.apply(bytes.as_slice()) {
            Some(data) => match codec.decode(data.as_slice()) {
                Some(event) => {
                    assert(accepted(codec, i as int, bytes@));
                    assert(first_accepted(codec, bytes@) == Some(i as int));
                    let dto = match BatchReportEventDto::from_parsed(
                        codec,
                        &event,
                        data.as_slice(),
                        bytes.as_slice(),
                    ) {
                        Some(dto) => dto,
                        None => {
                            return Err(String::from_str("序列化失败"));
                        },
                    };
                    let attempt = Attempt { strategy, outcome: Outcome::Succeeded };
                    attempts.push(attempt);
                    steps.push(step_message(attempt));
                    let r = BatchReportEventParseResult { parsed: Some(dto), attempts, steps };
                    assert(r.attempts@[i as int] == attempt);
                    return Ok(r);
                },
                None => Outcome::DecodeFailed,
            },
            None => Outcome::TransformFailed,
        };
        let attempt = Attempt { strategy, outcome };
        attempts.push(attempt);
        steps.push(step_message(attempt));
        i += 1;
    }
    assert(first_accepted(codec, bytes@) is None);
    Ok(BatchReportEventParseResult { parsed: None, attempts, steps })
}

proof fn lemma_upper_digit_fold(x: int)
    requires
        0 <= x < 16,
    ensures
        fold_case(upper_digits()[x]) == if x < 10 {
            48 + x
        } else {
            87 + x
        },
{
    let d = upper_digits();
    assert(d[0] == '0' && d[1] == '1' && d[2] == '2' && d[3] == '3');
    assert(d[4] == '4' && d[5] == '5' && d[6] == '6' && d[7] == '7');
    assert(d[8] == '8' && d[9] == '9' && d[10] == 'A' && d[11] == 'B');
    assert(d[12] == 'C' && d[13] == 'D' && d[14] == 'E' && d[15] == 'F');
}

proof fn lemma_upper_hex_injective(a: Seq<u8>, b: Seq<u8>)
    requires
        eq_ignore_ascii_case(upper_hex(a), upper_hex(b)),
    ensures
        a == b,
{
    let ha = upper_hex(a);
    let hb = upper_hex(b);
    assert(a.len() == b.len());
    assert forall|k: int| 0 <= k < a.len() implies a[k] == b[k] by {
        assert(fold_case(ha[2 * k]) == fold_case(hb[2 * k]));
        assert(fold_case(ha[2 * k + 1]) == fold_case(hb[2 * k + 1]));
        lemma_upper_digit_fold(a[k] as int / 16);
        lemma_upper_digit_fold(b[k] as int / 16);
        lemma_upper_digit_fold(a[k] as int % 16);
        lemma_upper_digit_fold(b[k] as int % 16);
    }
    assert(a =~= b);
}

/// The integrity verdict of a decoded record: the result digest is the
/// digest of the record serialized again, and the verdict is a match exactly
/// when the two digests are equal; in particular whenever the original input
/// and the serialized record are the same bytes.
pub proof fn lemma_round_trip_verdict(
    d: BatchReportEventDto,
    json: JsonView,
    decompressed: Seq<u8>,
    original: Seq<u8>,
    reencoded: Seq<u8>,
)
    requires
        dto_of(d, json, decompressed, original, reencoded),
    ensures
        d.result_md5@ == upper_hex(md5_of(reencoded)),
        d.is_match <==> md5_of(original) == md5_of(reencoded),
        original == reencoded ==> d.is_match,
{
    if d.is_match {
        lemma_upper_hex_injective(md5_of(original), md5_of(reencoded));
    }
}

/// The first strategy that recovers a record is selected, the chain halts
/// there, and every earlier attempt is recorded as failed.
pub proof fn lemma_first_accepted_selected<C: RecordCodec>(
    codec: &C,
    r: BatchReportEventParseResult,
    input: Seq<u8>,
    k: int,
)
    requires
        chain_result(codec, r, input),
        0 <= k < STRATEGY_COUNT,
        accepted(codec, k, input),
        forall|j: int| 0 <= j < k ==> !#[trigger] accepted(codec, j, input),
    ensures
        r.attempts@.len() == k + 1,
        r.parsed is Some,
        r.attempts@[k] == (Attempt { strategy: strategy_at(k), outcome: Outcome::Succeeded }),
        forall|j: int| 0 <= j < k ==> (#[trigger] r.attempts@[j]).outcome != Outcome::Succeeded,
{
    let n = r.attempts@.len();
    if n - 1 < k {
        assert(!accepted(codec, n - 1, input));
    }
    if n - 1 > k {
        assert(!accepted(codec, k, input));
    }
    assert(r.attempts@[k] == Attempt { strategy: strategy_at(k), outcome: expected_outcome(codec, k, input) });
    assert forall|j: int| 0 <= j < k implies (#[trigger] r.attempts@[j]).outcome != Outcome::Succeeded by {
        assert(r.attempts@[j] == Attempt { strategy: strategy_at(j), outcome: expected_outcome(codec, j, input) });
    }
}

/// When no strategy recovers a record, every strategy was tried, in the
/// fixed order, and every one of them is recorded as failed.
pub proof fn lemma_exhaustion_tries_all<C: RecordCodec>(
    codec: &C,
    r: BatchReportEventParseResult,
    input: Seq<u8>,
)
    requires
        chain_result(codec, r, input),
        forall|j: int| 0 <= j < STRATEGY_COUNT ==> !#[trigger] accepted(codec, j, input),
    ensures
        r.parsed is None,
        r.attempts@.len() == STRATEGY_COUNT,
        r.steps@.len() == STRATEGY_COUNT,
        forall|i: int|
            0 <= i < STRATEGY_COUNT ==> (#[trigger] r.attempts@[i]).strategy == strategy_at(i)
                && r.attempts@[i].outcome != Outcome::Succeeded,
{
    let n = r.attempts@.len();
    assert(!accepted(codec, n - 1, input));
    assert forall|i: int| 0 <= i < STRATEGY_COUNT implies (#[trigger] r.attempts@[i]).strategy
        == strategy_at(i) && r.attempts@[i].outcome != Outcome::Succeeded by {
        assert(r.attempts@[i] == Attempt { strategy: strategy_at(i), outcome: expected_outcome(codec, i, input) });
    }
}

/// Running the chain twice on the same input gives the same outcome: the
/// same fatal error, or the same trace, the same messages and the same
/// presented record with the same verdict.
pub proof fn lemma_chain_idempotent<C: RecordCodec>(
    codec: &C,
    r1: Result<BatchReportEventParseResult, String>,
    r2: Result<BatchReportEventParseResult, String>,
    input: Seq<u8>,
)
    requires
        parse_outcome(codec, r1, input),
        parse_outcome(codec, r2, input),
    ensures
        r1 is Err <==> r2 is Err,
        r1 matches Err(m1) ==> m1@ == r2->Err_0@,
        r1 matches Ok(a) ==> {
            let b = r2->Ok_0;
            &&& a.attempts@ == b.attempts@
            &&& a.steps@.len() == b.steps@.len()
            &&& forall|i: int| 0 <= i < a.steps@.len() ==> (#[trigger] a.steps@[i])@ == b.steps@[i]@
            &&& (a.parsed is Some <==> b.parsed is Some)
            &&& (a.parsed matches Some(d1) ==> {
                let d2 = b.parsed->0;
                &&& d1.data@ == d2.data@
                &&& d1.decompressed_hex@ == d2.decompressed_hex@
                &&& d1.input_md5@ == d2.input_md5@
                &&& d1.result_md5@ == d2.result_md5@
                &&& d1.is_match == d2.is_match
            })
        },
{
    if r1 is Ok && r2 is Ok {
        let a = r1->Ok_0;
        let b = r2->Ok_0;
        let n1 = a.attempts@.len();
        let n2 = b.attempts@.len();
        if n1 < n2 {
            assert(!accepted(codec, n1 - 1, input));
        }
        if n2 < n1 {
            assert(!accepted(codec, n2 - 1, input));
        }
        assert forall|i: int| 0 <= i < n1 implies a.attempts@[i] == b.attempts@[i] by {
            assert(a.attempts@[i] == Attempt { strategy: strategy_at(i), outcome: expected_outcome(codec, i, input) });
            assert(b.attempts@[i] == Attempt { strategy: strategy_at(i), outcome: expected_outcome(codec, i, input) });
        }
        assert(a.attempts@ =~= b.attempts@);
        assert forall|i: int| 0 <= i < a.steps@.len() implies (#[trigger] a.steps@[i])@ == b.steps@[i]@ by {
            assert(a.steps@[i]@ == step_text(a.attempts@[i]));
            assert(b.steps@[i]@ == step_text(b.attempts@[i]));
        }
    }
}

} // verus!
