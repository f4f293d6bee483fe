use std::io::Write;

use cbc::cipher::{BlockEncryptMut, KeyIvInit};
use kk_toolkit::digest::digests_match;
use kk_toolkit::encoding::{decode_base64, decode_hex};
use kk_toolkit::json::{strip_nulls, Json, JsonView};
use kk_toolkit::pipeline::{
    parse_batch_from_bytes, Attempt, ByteSeq, BatchReportEventDto, BatchReportEventParseResult, Outcome, RecordCodec,
};
use kk_toolkit::report::{
    parse_batch_from_base64, parse_batch_from_hex, respond_with_parse_result, CallResult,
    ParseBase64Request, ParseHexRequest,
};
use kk_toolkit::transform::{decrypt_legacy, gzip2_decompress, gzip_decompress, Strategy};

const KEY: &[u8; 16] = b"46a8qpMw6643TDiV";
const IV: &[u8; 16] = b"W3HaJGyGrfOVRb42";

/// A small schema: `EVT:` followed by `key=value` fields separated by `;`.
struct TextSchema;

impl RecordCodec for TextSchema {
    type Record = Vec<(String, String)>;

    // Spec-only items of the trait: the verifier reads them, nothing runs them.
    fn decoded(&self, _bytes: ByteSeq) -> Option<Self::Record> {
        unreachable!()
    }

    fn encoded(&self, _record: Self::Record) -> ByteSeq {
        unreachable!()
    }

    fn presented(&self, _record: Self::Record) -> Option<JsonView> {
        unreachable!()
    }

    fn decode(&self, bytes: &[u8]) -> Option<Self::Record> {
        let text = std::str::from_utf8(bytes).ok()?;
        let body = text.strip_prefix("EVT:")?;
        let mut fields = Vec::new();
        for part in body.split(';').filter(|p| !p.is_empty()) {
            let (k, v) = part.split_once('=')?;
            fields.push((k.to_string(), v.to_string()));
        }
        Some(fields)
    }

    fn encode(&self, record: &Self::Record) -> Vec<u8> {
        let parts: Vec<String> = record.iter().map(|(k, v)| format!("{k}={v}")).collect();
        format!("EVT:{}", parts.join(";")).into_bytes()
    }

    fn to_json(&self, record: &Self::Record) -> Option<Json> {
        let fields = record
            .iter()
            .map(|(k, v)| (k.clone(), Json::Str(v.clone())))
            .collect();
        Some(Json::Object(vec![
            ("kind".to_string(), Json::Str("event".to_string())),
            ("fields".to_string(), Json::Object(fields)),
            ("extra".to_string(), Json::Null),
        ]))
    }
}

/// The same schema, except that no record can be presented.
struct OpaqueSchema;

impl RecordCodec for OpaqueSchema {
    type Record = Vec<(String, String)>;

    // Spec-only items of the trait: the verifier reads them, nothing runs them.
    fn decoded(&self, _bytes: ByteSeq) -> Option<Self::Record> {
        unreachable!()
    }

    fn encoded(&self, _record: Self::Record) -> ByteSeq {
        unreachable!()
    }

    fn presented(&self, _record: Self::Record) -> Option<JsonView> {
        unreachable!()
    }

    fn decode(&self, bytes: &[u8]) -> Option<Self::Record> {
        TextSchema.decode(bytes)
    }

    fn encode(&self, record: &Self::Record) -> Vec<u8> {
        TextSchema.encode(record)
    }

    fn to_json(&self, _record: &Self::Record) -> Option<Json> {
        None
    }
}

fn run(input: Vec<u8>) -> BatchReportEventParseResult {
    parse_batch_from_bytes(&TextSchema, input).unwrap()
}

fn gzip(data: &[u8]) -> Vec<u8> {
    let mut enc = flate2::write::GzEncoder::new(Vec::new(), flate2::Compression::default());
    enc.write_all(data).unwrap();
    enc.finish().unwrap()
}

fn encrypt(data: &[u8]) -> Vec<u8> {
    cbc::Encryptor::<aes::Aes128>::new(KEY.into(), IV.into())
        .encrypt_padded_vec_mut::<cbc::cipher::block_padding::Pkcs7>(data)
}

fn md5_upper(data: &[u8]) -> String {
    format!("{:X}", md5::compute(data))
}

const RECORD: &[u8] = b"EVT:a=1;b=2";

#[test]
fn gzip_input_selects_gzip_strategy() {
    let input = gzip(RECORD);
    let r = run(input);
    assert_eq!(
        r.attempts,
        vec![Attempt { strategy: Strategy::Gzip, outcome: Outcome::Succeeded }]
    );
    assert_eq!(r.steps, vec!["步骤成功：CommonUtility::GzipDecompress".to_string()]);
    let dto = r.parsed.unwrap();
    assert_eq!(dto.decompressed_hex, hex::encode(RECORD));
}

#[test]
fn encrypted_gzip_input_selects_gzip2_strategy() {
    let input = encrypt(&gzip(RECORD));
    let r = run(input);
    assert_eq!(r.attempts.len(), 2);
    assert_eq!(r.attempts[0].outcome, Outcome::TransformFailed);
    assert_eq!(
        r.attempts[1],
        Attempt { strategy: Strategy::Gzip2, outcome: Outcome::Succeeded }
    );
    assert_eq!(r.steps[1], "步骤成功：AppSecurity::Gzip2Decompress");
    assert_eq!(r.parsed.unwrap().decompressed_hex, hex::encode(RECORD));
}

#[test]
fn plain_record_selects_direct_strategy() {
    let r = run(RECORD.to_vec());
    assert_eq!(r.attempts.len(), 3);
    assert_eq!(r.attempts[0].outcome, Outcome::TransformFailed);
    assert_eq!(r.attempts[1].outcome, Outcome::TransformFailed);
    assert_eq!(
        r.attempts[2],
        Attempt { strategy: Strategy::Direct, outcome: Outcome::Succeeded }
    );
    assert_eq!(r.steps[2], "步骤成功：直接解析");
    assert!(r.parsed.is_some());
}

#[test]
fn unparseable_input_tries_all_strategies() {
    let r = run(vec![1, 2, 3]);
    assert!(r.parsed.is_none());
    assert_eq!(
        r.steps,
        vec![
            "步骤失败：CommonUtility::GzipDecompress (处理错误)".to_string(),
            "步骤失败：AppSecurity::Gzip2Decompress (处理错误)".to_string(),
            "步骤失败：直接解析 (protobuf 解析失败)".to_string(),
        ]
    );
    let response = respond_with_parse_result(r);
    assert!(!response.success);
    assert!(response.data.is_none());
    assert_eq!(
        response.message,
        "解析失败，尝试步骤：步骤失败：CommonUtility::GzipDecompress (处理错误) -> \
         步骤失败：AppSecurity::Gzip2Decompress (处理错误) -> 步骤失败：直接解析 (protobuf 解析失败)"
    );
}

#[test]
fn gzip_of_non_record_fails_at_decode() {
    let r = run(gzip(b"not a record"));
    assert!(r.parsed.is_none());
    assert_eq!(r.attempts[0].outcome, Outcome::DecodeFailed);
    assert_eq!(r.steps[0], "步骤失败：CommonUtility::GzipDecompress (protobuf 解析失败)");
    assert_eq!(r.attempts.len(), 3);
}

#[test]
fn round_trip_of_canonical_record_matches() {
    let r = run(RECORD.to_vec());
    let dto = r.parsed.unwrap();
    assert_eq!(dto.result_md5, md5_upper(RECORD));
    assert_eq!(dto.input_md5, md5_upper(RECORD));
    assert!(dto.is_match);
}

#[test]
fn round_trip_of_non_canonical_record_does_not_match() {
    let input = b"EVT:a=1;;b=2".to_vec();
    let r = run(input.clone());
    let dto = r.parsed.unwrap();
    assert_eq!(dto.input_md5, md5_upper(&input));
    assert_eq!(dto.result_md5, md5_upper(RECORD));
    assert!(!dto.is_match);
}

#[test]
fn compressed_input_is_not_a_match() {
    let input = gzip(RECORD);
    let dto = run(input.clone()).parsed.unwrap();
    assert_eq!(dto.input_md5, md5_upper(&input));
    assert_eq!(dto.result_md5, md5_upper(RECORD));
    assert!(!dto.is_match);
}

#[test]
fn digests_of_known_inputs() {
    let dto = BatchReportEventDto::from_parts(&Json::Null, &[0xab, 0x01], b"", b"abc");
    assert_eq!(dto.input_md5, "D41D8CD98F00B204E9800998ECF8427E");
    assert_eq!(dto.result_md5, "900150983CD24FB0D6963F7D28E17F72");
    assert_eq!(dto.decompressed_hex, "ab01");
    assert!(!dto.is_match);
    assert_eq!(dto.data, Json::Null);
}

#[test]
fn decrypt_reproduces_plaintext() {
    let plain = b"some plaintext that spans more than one block".to_vec();
    assert_eq!(decrypt_legacy(&encrypt(&plain)), Some(plain.clone()));
    let block = b"0123456789abcdef".to_vec();
    assert_eq!(decrypt_legacy(&encrypt(&block)), Some(block));
}

#[test]
fn truncated_ciphertext_fails() {
    let cipher = encrypt(b"some plaintext");
    assert_eq!(cipher.len() % 16, 0);
    assert_eq!(decrypt_legacy(&cipher[..cipher.len() - 1]), None);
    assert_eq!(decrypt_legacy(&[]), None);
}

#[test]
fn gzip2_reverses_encrypt_then_compress() {
    assert_eq!(gzip2_decompress(&encrypt(&gzip(RECORD))), Some(RECORD.to_vec()));
    assert_eq!(gzip2_decompress(&gzip(RECORD)[1..]), None);
    assert_eq!(gzip_decompress(&gzip(RECORD)), Some(RECORD.to_vec()));
    assert_eq!(gzip_decompress(b"plain"), None);
}

#[test]
fn strip_removes_nested_blank_fields() {
    let value = Json::Object(vec![
        (
            "outer".to_string(),
            Json::Object(vec![
                ("empty".to_string(), Json::Str(String::new())),
                ("missing".to_string(), Json::Null),
                ("kept".to_string(), Json::Str("v".to_string())),
                ("flag".to_string(), Json::Bool(false)),
                ("list".to_string(), Json::Array(vec![Json::Null, Json::Object(vec![])])),
            ]),
        ),
        ("gone".to_string(), Json::Object(vec![("x".to_string(), Json::Null)])),
    ]);
    let expected = Json::Object(vec![(
        "outer".to_string(),
        Json::Object(vec![
            ("kept".to_string(), Json::Str("v".to_string())),
            ("flag".to_string(), Json::Bool(false)),
        ]),
    )]);
    assert_eq!(strip_nulls(&value), expected);
}

#[test]
fn strip_keeps_array_elements_in_order() {
    let value = Json::Array(vec![
        Json::Number("1".to_string()),
        Json::Null,
        Json::Number("2".to_string()),
    ]);
    let expected = Json::Array(vec![Json::Number("1".to_string()), Json::Number("2".to_string())]);
    assert_eq!(strip_nulls(&value), expected);
    assert_eq!(strip_nulls(&Json::Null), Json::Null);
}

#[test]
fn decoded_record_omits_blank_fields() {
    let dto = run(b"EVT:a=1;b=".to_vec()).parsed.unwrap();
    let expected = Json::Object(vec![
        ("kind".to_string(), Json::Str("event".to_string())),
        (
            "fields".to_string(),
            Json::Object(vec![("a".to_string(), Json::Str("1".to_string()))]),
        ),
    ]);
    assert_eq!(dto.data, expected);
}

#[test]
fn pipeline_is_idempotent() {
    let input = encrypt(&gzip(RECORD));
    let a = respond_with_parse_result(run(input.clone()));
    let b = respond_with_parse_result(run(input));
    assert_eq!(a.success, b.success);
    assert_eq!(a.message, b.message);
    let (da, db) = (a.data.unwrap(), b.data.unwrap());
    assert_eq!(da.data, db.data);
    assert_eq!(da.decompressed_hex, db.decompressed_hex);
    assert_eq!(da.input_md5, db.input_md5);
    assert_eq!(da.result_md5, db.result_md5);
    assert_eq!(da.is_match, db.is_match);
}

#[test]
fn digests_differing_in_case_match() {
    assert!(digests_match("D41D8CD98F00B204E9800998ECF8427E", "d41d8cd98f00b204e9800998ecf8427e"));
    assert!(digests_match("AbC", "aBc"));
    assert!(!digests_match("ABC", "ABD"));
    assert!(!digests_match("ABC", "ABCD"));
    assert!(!digests_match("[", "{"));
}

#[test]
fn success_message_joins_trace() {
    let r = respond_with_parse_result(run(RECORD.to_vec()));
    assert!(r.success);
    assert_eq!(
        r.message,
        "解析成功，尝试步骤：步骤失败：CommonUtility::GzipDecompress (处理错误) -> \
         步骤失败：AppSecurity::Gzip2Decompress (处理错误) -> 步骤成功：直接解析"
    );
}

#[test]
fn call_result_constructors() {
    let ok = CallResult::ok("fine".to_string(), 7u8);
    assert!(ok.success);
    assert_eq!(ok.message, "fine");
    assert_eq!(ok.data, Some(7));
    let fail = CallResult::<u8>::fail("bad".to_string());
    assert!(!fail.success);
    assert_eq!(fail.message, "bad");
    assert_eq!(fail.data, None);
}

#[test]
fn hex_text_decodes() {
    assert_eq!(decode_hex("0aFf10"), Ok(vec![0x0a, 0xff, 0x10]));
    assert_eq!(decode_hex(""), Ok(vec![]));
    assert!(decode_hex("abc").unwrap_err().starts_with("输入不是有效的十六进制编码："));
    assert!(decode_hex("zz").unwrap_err().starts_with("输入不是有效的十六进制编码："));
}

#[test]
fn base64_text_decodes() {
    assert_eq!(decode_base64("aGVsbG8="), Ok(b"hello".to_vec()));
    assert!(decode_base64("@@@").unwrap_err().starts_with("输入不是有效的 Base64 编码："));
}

#[test]
fn text_entry_points() {
    let hex_req = ParseHexRequest { hex_data: hex::encode(RECORD) };
    let r = parse_batch_from_hex(&TextSchema, &hex_req).unwrap();
    assert!(r.success);
    let bad = ParseHexRequest { hex_data: "xyz".to_string() };
    let r = parse_batch_from_hex(&TextSchema, &bad).unwrap();
    assert!(!r.success);
    assert!(r.data.is_none());
    assert!(r.message.starts_with("输入不是有效的十六进制编码："));

    let b64 = ParseBase64Request { base64_data: "RVZUOmE9MQ==".to_string() };
    let r = parse_batch_from_base64(&TextSchema, &b64).unwrap();
    assert!(r.success);
    assert_eq!(r.data.unwrap().decompressed_hex, hex::encode(b"EVT:a=1"));
    let bad = ParseBase64Request { base64_data: "!!".to_string() };
    let r = parse_batch_from_base64(&TextSchema, &bad).unwrap();
    assert!(!r.success);
    assert!(r.message.starts_with("输入不是有效的 Base64 编码："));
}

#[test]
fn unpresentable_record_is_fatal() {
    let r = parse_batch_from_bytes(&OpaqueSchema, RECORD.to_vec());
    assert_eq!(r.unwrap_err(), "序列化失败");
    let r = parse_batch_from_bytes(&OpaqueSchema, vec![0xff]);
    assert!(r.unwrap().parsed.is_none());
}

#[test]
fn single_byte_input_is_exhausted() {
    let r = run(vec![0xff]);
    assert!(r.parsed.is_none());
    assert_eq!(r.steps.len(), 3);
    assert_eq!(r.attempts[2], Attempt { strategy: Strategy::Direct, outcome: Outcome::DecodeFailed });
    assert!(r.steps.iter().all(|s| s.starts_with("步骤失败：")));
}

#[test]
fn empty_input_fails_decryption() {
    assert_eq!(gzip2_decompress(&[]), None);
}
