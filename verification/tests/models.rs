use atlantic_sdk::document::{DecodeError, FieldName};
use atlantic_sdk::endpoints::AtlanticSdk;
use atlantic_sdk::error::AtlanticSdkError;
use atlantic_sdk::models::{
    FactHashResponse, JobResponse, Layout, ProverVersion, QueryResponse, SharpQueriesResponse,
    SharpQueryResponse, StageContext, StageName,
};

#[test]
fn test_new() {
    let api_key = "api_key".to_string();
    let base_url = "http://test_url:8080";
    let sdk = AtlanticSdk::new(api_key.clone(), base_url).unwrap();
    assert_eq!(sdk.api_key, api_key);
    assert_eq!(sdk.l1.atlantic_query, "http://test_url:8080/v1/l1/atlantic-query");
}

#[test]
fn test_new_with_slash() {
    let api_key = "api_key".to_string();
    let base_url = "http://test_url:8080/";
    let sdk = AtlanticSdk::new(api_key.clone(), base_url).unwrap();
    assert_eq!(sdk.api_key, api_key);
    assert_eq!(sdk.l1.atlantic_query, "http://test_url:8080/v1/l1/atlantic-query");
}

#[test]
fn new_rejects_unusable_base() {
    assert_eq!(
        AtlanticSdk::new("k".to_string(), "ftp://somewhere"),
        Err(AtlanticSdkError::InvalidConfiguration)
    );
    assert_eq!(
        AtlanticSdk::new("k".to_string(), "http:///no-host"),
        Err(AtlanticSdkError::InvalidConfiguration)
    );
}

#[test]
fn test_deserialize_jobs() {
    let response = r#"{
        "jobs": [
            {
            "id": "f01b3b3c-a35b-4ffb-a7ee-1c14334ab95c",
            "sharpQueryId": "01JDKQF9VY2NDBFZAFNFXZC17Z",
            "status": "COMPLETED",
            "jobName": "TRACE_GENERATION",
            "createdAt": "2024-11-26T07:55:21.151Z",
            "completedAt": "2024-11-26T08:04:18.275Z",
            "context": {
                "cairoVersion": 0,
                "piePath": "sharp_queries/query_01JDKQF9VY2NDBFZAFNFXZC17Z/pie.zip",
                "inputPath": "sharp_queries/query_01JDKQF9VY2NDBFZAFNFXZC17Z/input.json",
                "programPath": "sharp_queries/query_01JDKQF9VY2NDBFZAFNFXZC17Z/program.json",
                "layout": "recursive_with_poseidon"
            }
            },
            {
            "id": "92584ec3-a0c2-44e3-a044-a864485080ab",
            "sharpQueryId": "01JDKQF9VY2NDBFZAFNFXZC17Z",
            "status": "COMPLETED",
            "jobName": "PROOF_GENERATION",
            "createdAt": "2024-11-26T08:04:18.598Z",
            "completedAt": "2024-11-26T08:32:26.411Z",
            "context": {
                "proofPath": "sharp_queries/query_01JDKQF9VY2NDBFZAFNFXZC17Z/proof.json"
            }
            },
            {
            "id": "1ebba79a-2286-4cd4-85fa-5628bddd04b9",
            "sharpQueryId": "01JDKQF9VY2NDBFZAFNFXZC17Z",
            "status": "COMPLETED",
            "jobName": "FACT_HASH_GENERATION",
            "createdAt": "2024-11-26T08:32:26.471Z",
            "completedAt": "2024-11-26T08:36:04.738Z",
            "context": {
                "child_program_hash": "0x193641eb151b0f41674641089952e60bc3aded26e3cf42793655c562b8c3aa0",
                "child_output": [
                "0x5ab580b04e3532b6b18f81cfa654a05e29dd8e2352d88df1e765a84072db07",
                "0x74f69aa694b52f25bac8892c49500deffd5efa54b9c067ce067f0ff81de21fc"
                ],
                "bootloader_output": [
                "0x1",
                "0x4",
                "0x193641eb151b0f41674641089952e60bc3aded26e3cf42793655c562b8c3aa0",
                "0x5ab580b04e3532b6b18f81cfa654a05e29dd8e2352d88df1e765a84072db07",
                "0x74f69aa694b52f25bac8892c49500deffd5efa54b9c067ce067f0ff81de21fc"
                ],
                "bootloader_output_hash": "0x6bcea6d3c698d3ed3836bef8952bfd4e4c077a2ea3e21fa286c2651da341583",
                "bootloader_program_hash": "0x5ab580b04e3532b6b18f81cfa654a05e29dd8e2352d88df1e765a84072db07",
                "fact_hash": "0x46997b155c917870ee90724b9d0a42d2fac9bb60f6ebbe2c700aa7495d028bf"
            }
            },
            {
            "id": "97e54a9c-ee03-49e1-8840-7323d3e02ab2",
            "sharpQueryId": "01JDKQF9VY2NDBFZAFNFXZC17Z",
            "status": "COMPLETED",
            "jobName": "PROOF_VERIFICATION",
            "createdAt": "2024-11-26T08:36:04.771Z",
            "completedAt": "2024-11-26T08:46:05.365Z",
            "context": {
                "numberOfSteps": 16777216,
                "hasher": "keccak_160_lsb",
                "initial": {
                "transactionHash": "0x3fde27ac92a8a46f0d77817c8ef8358b06581ff36b077de7a7501a6b309e818",
                "price": 0.47,
                "gasAmount": 8543
                },
                "step1": {
                "transactionHash": "0x2b29294a8152cb4e4a05e8b8a06fa36c3927f4bc0bd62416b70f1d0f94930d7",
                "price": 0.09,
                "gasAmount": 1568
                },
                "step2": {
                "transactionHash": "0x49b8c5e1778a8a016c80da6039592fef4784a623a525d43462f1f205926bce8",
                "price": 0.07,
                "gasAmount": 1223
                },
                "step3": {
                "transactionHash": "0x743e13775587c32f647f5523fb65cf67796fea4e84e68dbb474490ebc26e086",
                "price": 0.06,
                "gasAmount": 920
                },
                "step4": {
                "transactionHash": "0xacddfae337e941a8264c94864dee15518bdd8e90edc4aea6fe79b932e98e32",
                "price": 0.04,
                "gasAmount": 558
                },
                "step5": {
                "transactionHash": "0xc2e89ecbf65a7bbfa0e69da034f2eaa283b0486e8fef9bbfde734303f78197",
                "price": 0.03,
                "gasAmount": 494
                },
                "step6": {
                "transactionHash": "0x68755fa1b60ef08dee4058d71a1049238a337093eeabf937f5b00ebb2b72cd4",
                "price": 0.03,
                "gasAmount": 459
                },
                "step7": {
                "transactionHash": "0x2ba659d0a0fcb53226f3564e6d71d8921e5f8460a796f2b6b5d0407497acd3f",
                "price": 0.02,
                "gasAmount": 335
                },
                "step8": {
                "transactionHash": "0x24e0378f2c2a9e8dc84a742e0edeec5e8576f6304db243230aa065433166663",
                "price": 0.02,
                "gasAmount": 293
                },
                "final": {
                "transactionHash": "0x2a4a05ccecc281ef1f3ba56a442c7f152f893123da37eaad254ba9b15c528f5",
                "price": 0.02,
                "gasAmount": 212
                }
            }
            }
        ],
        "steps": [
            "TRACE_GENERATION",
            "PROOF_GENERATION",
            "FACT_HASH_GENERATION",
            "PROOF_VERIFICATION"
        ]
    }"#;
    let job_response: JobResponse = JobResponse::parse(response).unwrap();
    assert_eq!(job_response.jobs.len(), 4);
    assert_eq!(job_response.steps.len(), 4);
}

#[test]
fn test_deserialize_query() {
    let query = r#"
        {
            "atlanticQuery": {
                "id": "01JDKQF9VY2NDBFZAFNFXZC17Z",
                "submittedByClient": "01J8M351V7NV7QRQYCS54RKFYD",
                "status": "DONE",
                "step": "PROOF_VERIFICATION",
                "programHash": "0x193641eb151b0f41674641089952e60bc3aded26e3cf42793655c562b8c3aa0",
                "layout": "recursive_with_poseidon",
                "programFactHash": "0x46997b155c917870ee90724b9d0a42d2fac9bb60f6ebbe2c700aa7495d028bf",
                "price": "0.85",
                "gasUsed": 14605,
                "creditsUsed": 0,
                "traceCreditsUsed": 0,
                "isFactMocked": false,
                "chain": "L2",
                "prover": "STARKWARE_SHARP",
                "steps": [
                "TRACE_GENERATION",
                "PROOF_GENERATION",
                "FACT_HASH_GENERATION",
                "PROOF_VERIFICATION"
                ],
                "createdAt": "2024-11-26T07:55:21.124Z",
                "completedAt": "2024-11-26T08:46:05.375Z"
            }
        }
    "#;
    let query_response: SharpQueryResponse = SharpQueryResponse::parse(query).unwrap();
    assert_eq!(query_response.sharp_query.id, "01JDKQF9VY2NDBFZAFNFXZC17Z");
    println!("{:#?}", query_response);
}

#[test]
fn test_deserialize_atlantic_queries() {
    let queries = r#"
    {
        "sharpQueries": [
            {
            "id": "01JDKQF9VY2NDBFZAFNFXZC17Z",
            "submittedByClient": "01J8M351V7NV7QRQYCS54RKFYD",
            "status": "DONE",
            "step": "PROOF_VERIFICATION",
            "programHash": "0x193641eb151b0f41674641089952e60bc3aded26e3cf42793655c562b8c3aa0",
            "layout": "recursive_with_poseidon",
            "programFactHash": "0x46997b155c917870ee90724b9d0a42d2fac9bb60f6ebbe2c700aa7495d028bf",
            "price": "0.85",
            "gasUsed": 14605,
            "creditsUsed": 0,
            "traceCreditsUsed": 0,
            "isFactMocked": false,
            "chain": "L2",
            "prover": "STARKWARE_SHARP",
            "steps": [
                "TRACE_GENERATION",
                "PROOF_GENERATION",
                "FACT_HASH_GENERATION",
                "PROOF_VERIFICATION"
            ],
            "createdAt": "2024-11-26T07:55:21.124Z",
            "completedAt": "2024-11-26T08:46:05.375Z"
            },
            {
            "id": "01JDKQF21NWMENSXK96E3N7CE8",
            "submittedByClient": "01J8M351V7NV7QRQYCS54RKFYD",
            "status": "DONE",
            "step": "PROOF_VERIFICATION",
            "programHash": "0x193641eb151b0f41674641089952e60bc3aded26e3cf42793655c562b8c3aa0",
            "layout": "recursive_with_poseidon",
            "programFactHash": "0x373061fa6164c9ba2c437ce1e9e148045a8b1d9373bd161a078973f5c8c568a",
            "price": "0.91",
            "gasUsed": 14839,
            "creditsUsed": 0,
            "traceCreditsUsed": 0,
            "isFactMocked": false,
            "chain": "L2",
            "prover": "STARKWARE_SHARP",
            "steps": [
                "TRACE_GENERATION",
                "PROOF_GENERATION",
                "FACT_HASH_GENERATION",
                "PROOF_VERIFICATION"
            ],
            "createdAt": "2024-11-26T07:55:13.273Z",
            "completedAt": "2024-11-26T08:56:00.861Z"
            }
        ],
        "total": 148
    }"#;
    let queries_response: SharpQueriesResponse = SharpQueriesResponse::parse(queries).unwrap();
    println!("{:#?}", queries_response);
}

#[test]
fn stage_contexts_are_tagged_by_stage() {
    let text = r#"{
        "jobs": [
            {"id": "a", "sharpQueryId": "Q", "status": "COMPLETED",
             "jobName": "PROOF_GENERATION", "createdAt": "t",
             "context": {"proofPath": "q/proof.json"}},
            {"id": "b", "sharpQueryId": "Q", "status": "COMPLETED",
             "jobName": "FACT_HASH_GENERATION", "createdAt": "t",
             "context": {
                "fact_hash": "0x46997b",
                "child_output": ["0x5ab5", "0x74f6"],
                "bootloader_output": ["0x1", "0x4"]
             }},
            {"id": "c", "sharpQueryId": "Q", "status": "COMPLETED",
             "jobName": "PROOF_VERIFICATION", "createdAt": "t",
             "context": {
                "numberOfSteps": 16777216,
                "hasher": "keccak_160_lsb",
                "initial": {"transactionHash": "0x3fde", "price": 0.47, "gasAmount": 8543},
                "step1": {"transactionHash": "0x2b29", "price": 0.09, "gasAmount": 1568},
                "final": {"transactionHash": "0x2a4a", "price": 0.02, "gasAmount": 212}
             }}
        ],
        "steps": ["PROOF_GENERATION", "FACT_HASH_GENERATION", "PROOF_VERIFICATION"]
    }"#;
    let jr = JobResponse::parse(text).unwrap();
    match jr.jobs[0].stage_context.as_ref().unwrap() {
        StageContext::ProofGeneration { proof_path } => {
            assert_eq!(proof_path.as_deref(), Some("q/proof.json"));
        }
        other => panic!("wrong variant: {:?}", other),
    }
    match jr.jobs[1].stage_context.as_ref().unwrap() {
        StageContext::FactHash { fact_hash, child_output, .. } => {
            assert_eq!(fact_hash.as_deref(), Some("0x46997b"));
            assert_eq!(
                child_output.as_ref().unwrap(),
                &vec!["0x5ab5".to_string(), "0x74f6".to_string()]
            );
        }
        other => panic!("wrong variant: {:?}", other),
    }
    match jr.jobs[2].stage_context.as_ref().unwrap() {
        StageContext::Verification { number_of_steps, hasher, records } => {
            assert_eq!(*number_of_steps, Some(16777216));
            assert_eq!(hasher.as_deref(), Some("keccak_160_lsb"));
            assert_eq!(records.len(), 3);
            assert_eq!(records[0].label, "initial");
            assert_eq!(records[0].transaction_hash, "0x3fde");
            assert_eq!(records[0].price, "0.47");
            assert_eq!(records[0].gas_amount, 8543);
            assert_eq!(records[2].label, "final");
        }
        other => panic!("wrong variant: {:?}", other),
    }
}

#[test]
fn query_response_parse() {
    let ok = QueryResponse::parse(r#"{"atlanticQueryId": "01JD"}"#).unwrap();
    assert_eq!(ok.atlantic_query_id, "01JD");
    assert_eq!(
        QueryResponse::parse(r#"{"somethingElse": 1}"#),
        Err(DecodeError::MissingField(FieldName::AtlanticQueryId))
    );
    assert_eq!(
        QueryResponse::parse("no json"),
        Err(DecodeError::InvalidJson)
    );
}

#[test]
fn fact_hash_response_parse() {
    let ok = FactHashResponse::parse(r#"{"factHash": "0x46997b"}"#).unwrap();
    assert_eq!(ok.fact_hash, "0x46997b");
    assert_eq!(
        FactHashResponse::parse("{}"),
        Err(DecodeError::MissingField(FieldName::FactHash))
    );
}

#[test]
fn job_response_parse_names_bad_fields() {
    let missing_status = r#"{
        "jobs": [{"id": "a", "sharpQueryId": "Q", "jobName": "TRACE_GENERATION",
                  "createdAt": "t"}],
        "steps": []
    }"#;
    assert_eq!(
        JobResponse::parse(missing_status),
        Err(DecodeError::MissingField(FieldName::JobStatus))
    );
    let unknown_stage = r#"{
        "jobs": [{"id": "a", "sharpQueryId": "Q", "status": "PENDING",
                  "jobName": "SOMETHING_NEW", "createdAt": "t"}],
        "steps": []
    }"#;
    assert_eq!(
        JobResponse::parse(unknown_stage),
        Err(DecodeError::BadValue(FieldName::JobName))
    );
    let unknown_step = r#"{"jobs": [], "steps": ["NOT_A_STAGE"]}"#;
    assert_eq!(
        JobResponse::parse(unknown_step),
        Err(DecodeError::BadValue(FieldName::Steps))
    );
}

#[test]
fn duplicate_keys_first_wins() {
    let q = QueryResponse::parse(
        r#"{"atlanticQueryId": "first", "atlanticQueryId": "second"}"#,
    )
    .unwrap();
    assert_eq!(q.atlantic_query_id, "first");
}

#[test]
fn queries_response_requires_total() {
    let no_total = r#"{"sharpQueries": []}"#;
    assert_eq!(
        SharpQueriesResponse::parse(no_total),
        Err(DecodeError::MissingField(FieldName::Total))
    );
}

#[test]
fn stage_text_round_trip() {
    for s in [
        StageName::TraceGeneration,
        StageName::ProofGeneration,
        StageName::FactHashGeneration,
        StageName::ProofVerification,
    ] {
        assert_eq!(StageName::parse(s.as_text()), Some(s));
    }
    assert_eq!(StageName::parse("SOMETHING_ELSE"), None);
}

#[test]
fn layout_text_round_trip() {
    for l in [
        Layout::StarknetWithKeccak,
        Layout::Recursive,
        Layout::Starknet,
        Layout::RecursiveWithPoseidon,
        Layout::Dex,
        Layout::Small,
        Layout::Auto,
        Layout::Dynamic,
    ] {
        assert_eq!(Layout::parse(l.as_text()), Ok(l));
    }
    assert_eq!(
        Layout::parse("starknet_with_kekkac"),
        Err(AtlanticSdkError::InvalidLayout)
    );
    assert_eq!(ProverVersion::Starkware.as_text(), "starkware_sharp");
}
