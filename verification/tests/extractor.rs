use atlantic_sdk::document::{DecodeError, FieldName, ProofDocument};
use atlantic_sdk::extract::{process_proof_text, ExtractError};
use atlantic_sdk::felt::{chain_hash, FieldElement};

const GOOD_DOC: &str = r#"{
    "cairoVersion": 0,
    "programOutputHash": "0x4",
    "memorySegments": [
        {"name": "program",
         "values": ["0x193641eb151b0f41674641089952e60bc3aded26e3cf42793655c562b8c3aa0"]},
        {"name": "output", "values": ["0x1", "0x2"]}
    ]
}"#;

#[test]
fn extract_happy_path() {
    let doc = ProofDocument::parse(GOOD_DOC).unwrap();
    let result = doc.extract().unwrap();
    assert_eq!(
        result.program_hash,
        FieldElement::parse("0x193641eb151b0f41674641089952e60bc3aded26e3cf42793655c562b8c3aa0")
            .unwrap()
    );
    assert_eq!(
        result.program_output,
        vec![FieldElement::from_u64(1), FieldElement::from_u64(2)]
    );
    // the hash is recomputed from the output, and equals the claim
    assert_eq!(result.program_output_hash, chain_hash(&result.program_output));
    assert_eq!(result.program_output_hash, FieldElement::from_u64(4));
    // serialized proof: every segment's values flattened in order
    assert_eq!(result.serialized_proof.len(), 3);
    assert_eq!(result.serialized_proof[0], result.program_hash);
    assert_eq!(result.serialized_proof[1], FieldElement::from_u64(1));
    assert_eq!(result.serialized_proof[2], FieldElement::from_u64(2));
    assert_eq!(result.proof_text, GOOD_DOC);
}

#[test]
fn extract_is_deterministic() {
    let r1 = process_proof_text(GOOD_DOC).unwrap();
    let r2 = process_proof_text(GOOD_DOC).unwrap();
    assert_eq!(r1, r2);
}

#[test]
fn extract_rejects_hash_mismatch() {
    let doc_text = GOOD_DOC.replace("\"0x4\"", "\"0x5\"");
    let doc = ProofDocument::parse(&doc_text).unwrap();
    assert_eq!(doc.extract(), Err(ExtractError::OutputHashMismatch));
}

#[test]
fn extract_rejects_unknown_cairo_version() {
    let doc_text = GOOD_DOC.replace("\"cairoVersion\": 0", "\"cairoVersion\": 7");
    let doc = ProofDocument::parse(&doc_text).unwrap();
    assert_eq!(doc.extract(), Err(ExtractError::UnsupportedCairoVersion(7)));
}

#[test]
fn extract_names_the_missing_output_segment() {
    // artifact fetched fine, but the output-segment annotation is absent:
    // the failure names the step, it is not a generic decode error
    let doc_text = r#"{
        "cairoVersion": 0,
        "programOutputHash": "0x0",
        "memorySegments": [
            {"name": "program", "values": ["0x1"]}
        ]
    }"#;
    let doc = ProofDocument::parse(doc_text).unwrap();
    assert_eq!(doc.extract(), Err(ExtractError::MissingOutputSegment));
}

#[test]
fn extract_rejects_missing_program_segment() {
    let doc_text = r#"{
        "cairoVersion": 0,
        "programOutputHash": "0x0",
        "memorySegments": [
            {"name": "output", "values": []}
        ]
    }"#;
    let doc = ProofDocument::parse(doc_text).unwrap();
    assert_eq!(doc.extract(), Err(ExtractError::MissingProgramSegment));
}

#[test]
fn extract_rejects_empty_program_segment() {
    let doc_text = r#"{
        "cairoVersion": 0,
        "programOutputHash": "0x0",
        "memorySegments": [
            {"name": "program", "values": []},
            {"name": "output", "values": []}
        ]
    }"#;
    let doc = ProofDocument::parse(doc_text).unwrap();
    assert_eq!(doc.extract(), Err(ExtractError::EmptyProgramSegment));
}

#[test]
fn parse_names_missing_fields() {
    let no_hash = r#"{"cairoVersion": 0, "memorySegments": []}"#;
    assert_eq!(
        ProofDocument::parse(no_hash),
        Err(DecodeError::MissingField(FieldName::ProgramOutputHash))
    );
    let no_version = r#"{"programOutputHash": "0x0", "memorySegments": []}"#;
    assert_eq!(
        ProofDocument::parse(no_version),
        Err(DecodeError::MissingField(FieldName::CairoVersion))
    );
    let no_segments = r#"{"cairoVersion": 0, "programOutputHash": "0x0"}"#;
    assert_eq!(
        ProofDocument::parse(no_segments),
        Err(DecodeError::MissingField(FieldName::MemorySegments))
    );
    assert_eq!(
        FieldName::ProgramOutputHash.as_text(),
        "programOutputHash"
    );
}

#[test]
fn parse_rejects_bad_values() {
    let bad_hash = r#"{"cairoVersion": 0, "programOutputHash": "zz", "memorySegments": []}"#;
    assert_eq!(
        ProofDocument::parse(bad_hash),
        Err(DecodeError::BadValue(FieldName::ProgramOutputHash))
    );
    let bad_felt = r#"{
        "cairoVersion": 0,
        "programOutputHash": "0x0",
        "memorySegments": [{"name": "program", "values": ["not-a-felt"]}]
    }"#;
    assert_eq!(
        ProofDocument::parse(bad_felt),
        Err(DecodeError::BadValue(FieldName::SegmentValues))
    );
    assert_eq!(
        ProofDocument::parse("this is not json"),
        Err(DecodeError::InvalidJson)
    );
}

#[test]
fn parse_ignores_unknown_fields() {
    let doc_text = r#"{
        "cairoVersion": 0,
        "someFutureField": {"nested": [1, 2.5, -3e8, true, null]},
        "programOutputHash": "0x1",
        "memorySegments": [
            {"name": "program", "values": ["0x7"], "extra": "ignored"},
            {"name": "output", "values": ["0x1"]}
        ]
    }"#;
    let doc = ProofDocument::parse(doc_text).unwrap();
    let result = doc.extract().unwrap();
    assert_eq!(result.program_output_hash, FieldElement::from_u64(1));
}
