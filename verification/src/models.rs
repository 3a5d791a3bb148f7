//! Data models of the service's documents: pipeline stages, jobs,
//! queries, and the closed enumerations the service speaks in text.
//!
//! Stage names, layouts, prover and cairo versions are closed
//! enumerations with exhaustive text codecs: unrecognized text is a
//! typed error, never a silently-kept string.

use vstd::prelude::*;
use crate::document::DecodeError;
use crate::document::FieldName;
use crate::error::AtlanticSdkError;
use crate::json::JsonModel;
use crate::json::JsonValue;
use crate::json::sp_arr_model;
use crate::json::sp_get;
use crate::json::sp_obj_model;
use crate::json::sp_get_arr;
use crate::json::sp_get_num;
use crate::json::sp_get_str;
use crate::json::sp_get_u64;
use crate::json::sp_parse;
use crate::json::str_eq;

verus! {

/// One named phase of the pipeline, in its canonical order.
#[derive(Clone, Copy, Debug, PartialEq, Eq, Structural, Hash)]
pub enum StageName {
    TraceGeneration,
    ProofGeneration,
    FactHashGeneration,
    ProofVerification,
}

/// The service's text for a stage.
pub open spec fn sp_stage_text(s: StageName) -> Seq<char> {
    match s {
        StageName::TraceGeneration => "TRACE_GENERATION"@,
        StageName::ProofGeneration => "PROOF_GENERATION"@,
        StageName::FactHashGeneration => "FACT_HASH_GENERATION"@,
        StageName::ProofVerification => "PROOF_VERIFICATION"@,
    }
}

impl StageName {
    /// The service's text for this stage.
    pub fn as_text(&self) -> (r: &'static str)
        ensures
            r@ == sp_stage_text(*self),
    {
        match self {
            StageName::TraceGeneration => "TRACE_GENERATION",
            StageName::ProofGeneration => "PROOF_GENERATION",
            StageName::FactHashGeneration => "FACT_HASH_GENERATION",
            StageName::ProofVerification => "PROOF_VERIFICATION",
        }
    }

    /// The stage the given text names, if any.
    pub fn parse(text: &str) -> (r: Option<StageName>)
        ensures
            match r {
                Some(s) => sp_stage_text(s) == text@,
                None => forall|s: StageName| sp_stage_text(s) != text@,
            },
    {
        if str_eq(text, "TRACE_GENERATION") {
            Some(StageName::TraceGeneration)
        } else if str_eq(text, "PROOF_GENERATION") {
            Some(StageName::ProofGeneration)
        } else if str_eq(text, "FACT_HASH_GENERATION") {
            Some(StageName::FactHashGeneration)
        } else if str_eq(text, "PROOF_VERIFICATION") {
            Some(StageName::ProofVerification)
        } else {
            proof {
                assert forall|s: StageName| sp_stage_text(s) != text@ by {
                    match s {
                        StageName::TraceGeneration => {},
                        StageName::ProofGeneration => {},
                        StageName::FactHashGeneration => {},
                        StageName::ProofVerification => {},
                    }
                }
            }
            None
        }
    }
}

/// Which prover backend a submission asks for.
#[derive(Clone, Copy, Debug, PartialEq, Eq, Structural, Hash)]
pub enum ProverVersion {
    Starkware,
}

/// The service's text for a prover choice.
pub open spec fn sp_prover_text(p: ProverVersion) -> Seq<char> {
    match p {
        ProverVersion::Starkware => "starkware_sharp"@,
    }
}

impl ProverVersion {
    /// The service's text for this prover choice.
    pub fn as_text(&self) -> (r: &'static str)
        ensures
            r@ == sp_prover_text(*self),
    {
        match self {
            ProverVersion::Starkware => "starkware_sharp",
        }
    }
}

/// Which memory layout a trace runs under.
#[derive(Clone, Copy, Debug, PartialEq, Eq, Structural, Hash)]
pub enum Layout {
    StarknetWithKeccak,
    Recursive,
    Starknet,
    RecursiveWithPoseidon,
    Dex,
    Small,
    Auto,
    Dynamic,
}

/// The service's text for a layout.
pub open spec fn sp_layout_text(l: Layout) -> Seq<char> {
    match l {
        Layout::StarknetWithKeccak => "starknet_with_keccak"@,
        Layout::Recursive => "recursive"@,
        Layout::Starknet => "starknet"@,
        Layout::RecursiveWithPoseidon => "recursive_with_poseidon"@,
        Layout::Dex => "dex"@,
        Layout::Small => "small"@,
        Layout::Auto => "auto"@,
        Layout::Dynamic => "dynamic"@,
    }
}

impl Layout {
    /// The service's text for this layout.
    pub fn as_text(&self) -> (r: &'static str)
        ensures
            r@ == sp_layout_text(*self),
    {
        match self {
            Layout::StarknetWithKeccak => "starknet_with_keccak",
            Layout::Recursive => "recursive",
            Layout::Starknet => "starknet",
            Layout::RecursiveWithPoseidon => "recursive_with_poseidon",
            Layout::Dex => "dex",
            Layout::Small => "small",
            Layout::Auto => "auto",
            Layout::Dynamic => "dynamic",
        }
    }

    /// The layout the given text names; unrecognized text is a typed
    /// error, never a successfully-kept typo.
    pub fn parse(text: &str) -> (r: Result<Layout, AtlanticSdkError>)
        ensures
            match r {
                Ok(l) => sp_layout_text(l) == text@,
                Err(e) => e == AtlanticSdkError::InvalidLayout
                    && forall|l: Layout| sp_layout_text(l) != text@,
            },
    {
        if str_eq(text, "starknet_with_keccak") {
            Ok(Layout::StarknetWithKeccak)
        } else if str_eq(text, "recursive") {
            Ok(Layout::Recursive)
        } else if str_eq(text, "starknet") {
            Ok(Layout::Starknet)
        } else if str_eq(text, "recursive_with_poseidon") {
            Ok(Layout::RecursiveWithPoseidon)
        } else if str_eq(text, "dex") {
            Ok(Layout::Dex)
        } else if str_eq(text, "small") {
            Ok(Layout::Small)
        } else if str_eq(text, "auto") {
            Ok(Layout::Auto)
        } else if str_eq(text, "dynamic") {
            Ok(Layout::Dynamic)
        } else {
            proof {
                assert forall|l: Layout| sp_layout_text(l) != text@ by {
                    match l {
                        Layout::StarknetWithKeccak => {},
                        Layout::Recursive => {},
                        Layout::Starknet => {},
                        Layout::RecursiveWithPoseidon => {},
                        Layout::Dex => {},
                        Layout::Small => {},
                        Layout::Auto => {},
                        Layout::Dynamic => {},
                    }
                }
            }
            Err(AtlanticSdkError::InvalidLayout)
        }
    }
}

/// Which cairo toolchain a submitted program targets.
#[derive(Clone, Copy, Debug, PartialEq, Eq, Structural, Hash)]
pub enum CairoVersion {
    Zero,
}

/// The service's text for a cairo version.
pub open spec fn sp_cairo_text(c: CairoVersion) -> Seq<char> {
    match c {
        CairoVersion::Zero => "0"@,
    }
}

impl CairoVersion {
    /// The service's text for this cairo version.
    pub fn as_text(&self) -> (r: &'static str)
        ensures
            r@ == sp_cairo_text(*self),
    {
        match self {
            CairoVersion::Zero => "0",
        }
    }
}

/// One pipeline run's caller-supplied configuration.
pub struct Args {
    pub api_key: String,
    pub pie_file_path: String,
    pub layout: String,
    pub is_offchain_proof: bool,
}

/// Does the optional string reflect the optional text?
pub open spec fn sp_opt_str_matches(o: Option<String>, v: Option<Seq<char>>) -> bool {
    match o {
        Some(p) => v == Some(p@),
        None => v is None,
    }
}

/// Does the optional number reflect the optional value?
pub open spec fn sp_opt_u64_matches(o: Option<u64>, v: Option<int>) -> bool {
    match o {
        Some(x) => v == Some(x as int),
        None => v is None,
    }
}

/// Stage-specific context the service attaches to a job.  Every field
/// is optional: absence means the stage has not produced it yet, or the
/// pipeline variant never will — the service does not distinguish the
/// two, so neither does this type.
#[derive(Debug, Clone, PartialEq, Eq)]
pub struct Context {
    pub proof_path: Option<String>,
    pub pie_path: Option<String>,
    pub layout: Option<String>,
    pub cairo_version: Option<u64>,
    pub input_path: Option<String>,
    pub program_path: Option<String>,
}

/// How a `Context` reflects its JSON object.
pub open spec fn sp_ctx_matches(c: Context, m: JsonModel) -> bool {
    &&& sp_opt_str_matches(c.proof_path, sp_get_str(m, "proofPath"@))
    &&& sp_opt_str_matches(c.pie_path, sp_get_str(m, "piePath"@))
    &&& sp_opt_str_matches(c.layout, sp_get_str(m, "layout"@))
    &&& sp_opt_u64_matches(c.cairo_version, sp_get_u64(m, "cairoVersion"@))
    &&& sp_opt_str_matches(c.input_path, sp_get_str(m, "inputPath"@))
    &&& sp_opt_str_matches(c.program_path, sp_get_str(m, "programPath"@))
}

impl Context {
    /// Read a context object; every field is optional, and fields of an
    /// unexpected type count as absent.
    pub fn parse(v: &JsonValue) -> (r: Context)
        ensures
            sp_ctx_matches(r, v.model()),
    {
        Context {
            proof_path: match v.get_str("proofPath") {
                Some(t) => Some(t.clone()),
                None => None,
            },
            pie_path: match v.get_str("piePath") {
                Some(t) => Some(t.clone()),
                None => None,
            },
            layout: match v.get_str("layout") {
                Some(t) => Some(t.clone()),
                None => None,
            },
            cairo_version: v.get_u64("cairoVersion"),
            input_path: match v.get_str("inputPath") {
                Some(t) => Some(t.clone()),
                None => None,
            },
            program_path: match v.get_str("programPath") {
                Some(t) => Some(t.clone()),
                None => None,
            },
        }
    }
}

/// One verification step's transaction record.
#[derive(Debug, Clone, PartialEq, Eq)]
pub struct StepRecord {
    /// The step's label in the document: `initial`, `step1`, …, `final`.
    pub label: String,
    pub transaction_hash: String,
    /// The step's price, kept as the raw decimal text of the document;
    /// this crate never interprets it numerically.
    pub price: String,
    pub gas_amount: u64,
}

/// Stage-specific context as a tagged union keyed by the stage, each
/// variant carrying only its relevant fields.  A field is present only
/// once the stage has produced it; absence does not distinguish "not
/// yet" from "not applicable to this pipeline variant".
#[derive(Debug, Clone, PartialEq, Eq)]
pub enum StageContext {
    Trace {
        pie_path: Option<String>,
        input_path: Option<String>,
        program_path: Option<String>,
        layout: Option<String>,
        cairo_version: Option<u64>,
    },
    ProofGeneration {
        proof_path: Option<String>,
    },
    FactHash {
        fact_hash: Option<String>,
        child_program_hash: Option<String>,
        child_output: Option<Vec<String>>,
        bootloader_output: Option<Vec<String>>,
        bootloader_output_hash: Option<String>,
        bootloader_program_hash: Option<String>,
    },
    Verification {
        number_of_steps: Option<u64>,
        hasher: Option<String>,
        records: Vec<StepRecord>,
    },
}

/// Does the optional string list reflect the optional array member?
/// An array holding a non-string, like a missing member, counts as
/// absent.
pub open spec fn sp_opt_strs_matches(
    o: Option<Vec<String>>,
    v: Option<Seq<JsonModel>>,
) -> bool {
    match v {
        Some(si) => if sp_strs_err(si) is None {
            o matches Some(ss) && sp_strs_match(ss@, si)
        } else {
            o is None
        },
        None => o is None,
    }
}

/// A member holding one verification transaction record.
pub open spec fn sp_is_record(m: JsonModel) -> bool {
    &&& sp_get_str(m, "transactionHash"@) is Some
    &&& sp_get_num(m, "price"@) is Some
    &&& sp_get_u64(m, "gasAmount"@) is Some
}

/// The members carrying verification records, in document order.
pub open spec fn sp_records(ms: Seq<(Seq<char>, JsonModel)>) -> Seq<(Seq<char>, JsonModel)>
    decreases ms.len(),
{
    if ms.len() == 0 {
        Seq::empty()
    } else if sp_is_record(ms.first().1) {
        seq![ms.first()] + sp_records(ms.drop_first())
    } else {
        sp_records(ms.drop_first())
    }
}

/// Does the record reflect its member?
pub open spec fn sp_record_matches(r: StepRecord, kv: (Seq<char>, JsonModel)) -> bool {
    &&& r.label@ == kv.0
    &&& sp_get_str(kv.1, "transactionHash"@) == Some(r.transaction_hash@)
    &&& sp_get_num(kv.1, "price"@) == Some(r.price@)
    &&& sp_get_u64(kv.1, "gasAmount"@) == Some(r.gas_amount as int)
}

/// Do the records reflect the record-carrying members elementwise?
pub open spec fn sp_records_match(rs: Seq<StepRecord>, ms: Seq<(Seq<char>, JsonModel)>) -> bool {
    rs.len() == sp_records(ms).len()
        && forall|i: int| 0 <= i < rs.len()
            ==> sp_record_matches(rs[i], #[trigger] sp_records(ms)[i])
}

/// How a `StageContext` reflects the context object of its stage.
pub open spec fn sp_stage_ctx_matches(c: StageContext, stage: StageName, m: JsonModel) -> bool {
    match c {
        StageContext::Trace {
            pie_path,
            input_path,
            program_path,
            layout,
            cairo_version,
        } => {
            &&& stage == StageName::TraceGeneration
            &&& sp_opt_str_matches(pie_path, sp_get_str(m, "piePath"@))
            &&& sp_opt_str_matches(input_path, sp_get_str(m, "inputPath"@))
            &&& sp_opt_str_matches(program_path, sp_get_str(m, "programPath"@))
            &&& sp_opt_str_matches(layout, sp_get_str(m, "layout"@))
            &&& sp_opt_u64_matches(cairo_version, sp_get_u64(m, "cairoVersion"@))
        },
        StageContext::ProofGeneration { proof_path } => {
            &&& stage == StageName::ProofGeneration
            &&& sp_opt_str_matches(proof_path, sp_get_str(m, "proofPath"@))
        },
        StageContext::FactHash {
            fact_hash,
            child_program_hash,
            child_output,
            bootloader_output,
            bootloader_output_hash,
            bootloader_program_hash,
        } => {
            &&& stage == StageName::FactHashGeneration
            &&& sp_opt_str_matches(fact_hash, sp_get_str(m, "fact_hash"@))
            &&& sp_opt_str_matches(child_program_hash, sp_get_str(m, "child_program_hash"@))
            &&& sp_opt_strs_matches(child_output, sp_get_arr(m, "child_output"@))
            &&& sp_opt_strs_matches(bootloader_output, sp_get_arr(m, "bootloader_output"@))
            &&& sp_opt_str_matches(bootloader_output_hash,
                sp_get_str(m, "bootloader_output_hash"@))
            &&& sp_opt_str_matches(bootloader_program_hash,
                sp_get_str(m, "bootloader_program_hash"@))
        },
        StageContext::Verification { number_of_steps, hasher, records } => {
            &&& stage == StageName::ProofVerification
            &&& sp_opt_u64_matches(number_of_steps, sp_get_u64(m, "numberOfSteps"@))
            &&& sp_opt_str_matches(hasher, sp_get_str(m, "hasher"@))
            &&& (m matches JsonModel::Obj(ms) ==> sp_records_match(records@, ms))
            &&& (!(m is Obj) ==> records@.len() == 0)
        },
    }
}

fn get_opt_strings(v: &JsonValue, key: &str) -> (r: Option<Vec<String>>)
    ensures
        sp_opt_strs_matches(r, sp_get_arr(v.model(), key@)),
{
    match v.get_arr(key) {
        Some(items) => match parse_string_array(items) {
            Ok(ss) => Some(ss),
            Err(_) => None,
        },
        None => None,
    }
}

/// Read the verification records out of a context object's members.
#[verifier::loop_isolation(false)]
fn parse_records(members: &Vec<(String, JsonValue)>) -> (r: Vec<StepRecord>)
    ensures
        sp_records_match(r@, sp_obj_model(members@)),
{
    let ghost ms: Seq<(Seq<char>, JsonModel)> = sp_obj_model(members@);
    proof {
        crate::json::lemma_obj_model_index(members@);
        assert(ms.skip(0) =~= ms);
    }
    let mut out: Vec<StepRecord> = Vec::new();
    let ghost mut done: Seq<(Seq<char>, JsonModel)> = Seq::empty();
    proof {
        assert(done + sp_records(ms.skip(0)) =~= sp_records(ms));
    }
    let mut i: usize = 0;
    while i < members.len()
        invariant
            0 <= i <= members@.len(),
            ms == sp_obj_model(members@),
            ms.len() == members@.len(),
            forall|k: int| 0 <= k < members@.len()
                ==> #[trigger] ms[k] == (members@[k].0@, members@[k].1.model()),
            sp_records(ms) == done + sp_records(ms.skip(i as int)),
            out@.len() == done.len(),
            forall|k: int| 0 <= k < done.len()
                ==> sp_record_matches(out@[k], #[trigger] done[k]),
        decreases members@.len() - i,
    {
        proof {
            assert(ms.skip(i as int).first() == ms[i as int]);
            assert(ms.skip(i as int).drop_first() =~= ms.skip(i + 1));
        }
        let entry: &(String, JsonValue) = &members[i];
        match entry.1.get_str("transactionHash") {
            Some(tx) => match entry.1.get_num("price") {
                Some(pr) => match entry.1.get_u64("gasAmount") {
                    Some(g) => {
                        let rec = StepRecord {
                            label: entry.0.clone(),
                            transaction_hash: tx.clone(),
                            price: pr.clone(),
                            gas_amount: g,
                        };
                        out.push(rec);
                        proof {
                            let done0: Seq<(Seq<char>, JsonModel)> = done;
                            done = done.push(ms[i as int]);
                            assert(done =~= done0 + seq![ms[i as int]]);
                            assert(done0 + (seq![ms[i as int]] + sp_records(ms.skip(i + 1)))
                                =~= done + sp_records(ms.skip(i + 1)));
                        }
                    },
                    None => {},
                },
                None => {},
            },
            _ => {},
        }
        i += 1;
    }
    proof {
        assert(ms.skip(ms.len() as int).len() == 0);
        assert(done + sp_records(ms.skip(ms.len() as int)) =~= done);
    }
    out
}

impl StageContext {
    /// Read the context object of the given stage into its tagged
    /// variant; every field is optional.
    pub fn parse(stage: StageName, v: &JsonValue) -> (r: StageContext)
        ensures
            sp_stage_ctx_matches(r, stage, v.model()),
    {
        match stage {
            StageName::TraceGeneration => StageContext::Trace {
                pie_path: get_opt_string(v, "piePath"),
                input_path: get_opt_string(v, "inputPath"),
                program_path: get_opt_string(v, "programPath"),
                layout: get_opt_string(v, "layout"),
                cairo_version: v.get_u64("cairoVersion"),
            },
            StageName::ProofGeneration => StageContext::ProofGeneration {
                proof_path: get_opt_string(v, "proofPath"),
            },
            StageName::FactHashGeneration => StageContext::FactHash {
                fact_hash: get_opt_string(v, "fact_hash"),
                child_program_hash: get_opt_string(v, "child_program_hash"),
                child_output: get_opt_strings(v, "child_output"),
                bootloader_output: get_opt_strings(v, "bootloader_output"),
                bootloader_output_hash: get_opt_string(v, "bootloader_output_hash"),
                bootloader_program_hash: get_opt_string(v, "bootloader_program_hash"),
            },
            StageName::ProofVerification => {
                let records: Vec<StepRecord> = match v {
                    JsonValue::Obj(members) => parse_records(members),
                    _ => Vec::new(),
                };
                StageContext::Verification {
                    number_of_steps: v.get_u64("numberOfSteps"),
                    hasher: get_opt_string(v, "hasher"),
                    records,
                }
            },
        }
    }
}

/// One execution of one stage for one query.  The status is the
/// service's free-form text; the tracker recognizes exactly the
/// terminal-success token `COMPLETED` and treats every other value as
/// still pending.
#[derive(Debug, Clone, PartialEq, Eq)]
pub struct Job {
    pub id: String,
    pub sharp_query_id: String,
    pub status: String,
    pub job_name: StageName,
    pub created_at: String,
    pub completed_at: Option<String>,
    /// The raw loosely-typed context, as the service sends it.
    pub context: Option<Context>,
    /// The same context read as the stage's tagged variant.
    pub stage_context: Option<StageContext>,
}

/// The first reason a job object fails to read, if any.
pub open spec fn sp_job_err(m: JsonModel) -> Option<DecodeError> {
    if sp_get_str(m, "id"@) is None {
        Some(DecodeError::MissingField(FieldName::JobId))
    } else if sp_get_str(m, "sharpQueryId"@) is None {
        Some(DecodeError::MissingField(FieldName::JobQueryId))
    } else if sp_get_str(m, "status"@) is None {
        Some(DecodeError::MissingField(FieldName::JobStatus))
    } else if sp_get_str(m, "jobName"@) is None {
        Some(DecodeError::MissingField(FieldName::JobName))
    } else if forall|s: StageName| sp_stage_text(s) != sp_get_str(m, "jobName"@).unwrap() {
        Some(DecodeError::BadValue(FieldName::JobName))
    } else if sp_get_str(m, "createdAt"@) is None {
        Some(DecodeError::MissingField(FieldName::JobCreatedAt))
    } else {
        None
    }
}

/// How a `Job` reflects its JSON object.
pub open spec fn sp_job_matches(j: Job, m: JsonModel) -> bool {
    &&& sp_get_str(m, "id"@) == Some(j.id@)
    &&& sp_get_str(m, "sharpQueryId"@) == Some(j.sharp_query_id@)
    &&& sp_get_str(m, "status"@) == Some(j.status@)
    &&& sp_get_str(m, "jobName"@) == Some(sp_stage_text(j.job_name))
    &&& sp_get_str(m, "createdAt"@) == Some(j.created_at@)
    &&& sp_opt_str_matches(j.completed_at, sp_get_str(m, "completedAt"@))
    &&& (match sp_get(m, "context"@) {
        Some(cm) => if cm is Null {
            j.context is None && j.stage_context is None
        } else {
            (j.context matches Some(c) && sp_ctx_matches(c, cm))
                && (j.stage_context matches Some(sc)
                    && sp_stage_ctx_matches(sc, j.job_name, cm))
        },
        None => j.context is None && j.stage_context is None,
    })
}

impl Job {
    /// Read one job object.
    pub fn parse(v: &JsonValue) -> (r: Result<Job, DecodeError>)
        ensures
            match r {
                Ok(j) => sp_job_err(v.model()) is None && sp_job_matches(j, v.model()),
                Err(e) => sp_job_err(v.model()) == Some(e),
            },
    {
        let id: String = match v.get_str("id") {
            Some(t) => t.clone(),
            None => {
                return Err(DecodeError::MissingField(FieldName::JobId));
            },
        };
        let sharp_query_id: String = match v.get_str("sharpQueryId") {
            Some(t) => t.clone(),
            None => {
                return Err(DecodeError::MissingField(FieldName::JobQueryId));
            },
        };
        let status: String = match v.get_str("status") {
            Some(t) => t.clone(),
            None => {
                return Err(DecodeError::MissingField(FieldName::JobStatus));
            },
        };
        let stage_text: &String = match v.get_str("jobName") {
            Some(t) => t,
            None => {
                return Err(DecodeError::MissingField(FieldName::JobName));
            },
        };
        let job_name: StageName = match StageName::parse(stage_text.as_str()) {
            Some(s) => s,
            None => {
                return Err(DecodeError::BadValue(FieldName::JobName));
            },
        };
        let created_at: String = match v.get_str("createdAt") {
            Some(t) => t.clone(),
            None => {
                return Err(DecodeError::MissingField(FieldName::JobCreatedAt));
            },
        };
        let completed_at: Option<String> = match v.get_str("completedAt") {
            Some(t) => Some(t.clone()),
            None => None,
        };
        let mut context: Option<Context> = None;
        let mut stage_context: Option<StageContext> = None;
        match v.get("context") {
            Some(cv) => match cv {
                JsonValue::Null => {},
                _ => {
                    context = Some(Context::parse(cv));
                    stage_context = Some(StageContext::parse(job_name, cv));
                },
            },
            None => {},
        };
        Ok(Job {
            id,
            sharp_query_id,
            status,
            job_name,
            created_at,
            completed_at,
            context,
            stage_context,
        })
    }
}

/// The full job list for one query plus the declared stage order.
/// Replaced wholesale by every fresh poll; never mutated in place.
#[derive(Debug, Clone, PartialEq, Eq)]
pub struct JobResponse {
    pub jobs: Vec<Job>,
    pub steps: Vec<StageName>,
}

/// The first reason the `jobs` array fails to read, if any.
pub open spec fn sp_jobs_err(items: Seq<JsonModel>) -> Option<DecodeError>
    decreases items.len(),
{
    if items.len() == 0 {
        None
    } else if sp_jobs_err(items.drop_last()) is Some {
        sp_jobs_err(items.drop_last())
    } else {
        sp_job_err(items.last())
    }
}

/// Do the jobs reflect the array elementwise?
pub open spec fn sp_jobs_match(jobs: Seq<Job>, items: Seq<JsonModel>) -> bool {
    jobs.len() == items.len()
        && forall|i: int| 0 <= i < items.len() ==> sp_job_matches(jobs[i], #[trigger] items[i])
}

/// The first reason the `steps` array fails to read, if any: every
/// element must be the text of a known stage.
pub open spec fn sp_steps_err(items: Seq<JsonModel>) -> Option<DecodeError>
    decreases items.len(),
{
    if items.len() == 0 {
        None
    } else if sp_steps_err(items.drop_last()) is Some {
        sp_steps_err(items.drop_last())
    } else {
        match items.last() {
            JsonModel::Str(t) => if exists|s: StageName| sp_stage_text(s) == t {
                None
            } else {
                Some(DecodeError::BadValue(FieldName::Steps))
            },
            _ => Some(DecodeError::BadValue(FieldName::Steps)),
        }
    }
}

/// Do the stages reflect the array elementwise?
pub open spec fn sp_steps_match(steps: Seq<StageName>, items: Seq<JsonModel>) -> bool {
    steps.len() == items.len()
        && forall|i: int| 0 <= i < items.len()
            ==> ((#[trigger] items[i]) matches JsonModel::Str(t)
                && sp_stage_text(steps[i]) == t)
}

/// The first reason job-status text fails to read, if any.
pub open spec fn sp_job_response_err(s: Seq<char>) -> Option<DecodeError> {
    match sp_parse(s) {
        Some(m) => match sp_get_arr(m, "jobs"@) {
            Some(ji) => match sp_jobs_err(ji) {
                Some(e) => Some(e),
                None => match sp_get_arr(m, "steps"@) {
                    Some(si) => sp_steps_err(si),
                    None => Some(DecodeError::MissingField(FieldName::Steps)),
                },
            },
            None => Some(DecodeError::MissingField(FieldName::Jobs)),
        },
        None => Some(DecodeError::InvalidJson),
    }
}

/// How a `JobResponse` reflects job-status text.
pub open spec fn sp_job_response_matches(jr: JobResponse, s: Seq<char>) -> bool {
    &&& sp_parse(s) matches Some(m)
    &&& sp_get_arr(sp_parse(s).unwrap(), "jobs"@) matches Some(ji) && sp_jobs_match(jr.jobs@, ji)
    &&& sp_get_arr(sp_parse(s).unwrap(), "steps"@) matches Some(si)
        && sp_steps_match(jr.steps@, si)
}

/// The service's answer to an accepted submission.
#[derive(Debug, Clone, PartialEq, Eq)]
pub struct QueryResponse {
    pub atlantic_query_id: String,
}

/// The query id submission-answer text holds, when it holds one.
pub open spec fn sp_query_id_of(s: Seq<char>) -> Option<Seq<char>> {
    match sp_parse(s) {
        Some(m) => sp_get_str(m, "atlanticQueryId"@),
        None => None,
    }
}

impl QueryResponse {
    /// Parse the submission answer document.
    pub fn parse(text: &str) -> (r: Result<QueryResponse, DecodeError>)
        requires
            text@.len() < usize::MAX,
        ensures
            match r {
                Ok(q) => sp_query_id_of(text@) == Some(q.atlantic_query_id@),
                Err(e) => sp_query_id_of(text@) is None
                    && e == (if sp_parse(text@) is None {
                        DecodeError::InvalidJson
                    } else {
                        DecodeError::MissingField(FieldName::AtlanticQueryId)
                    }),
            },
    {
        match JsonValue::parse(text) {
            Some(j) => match j.get_str("atlanticQueryId") {
                Some(t) => Ok(QueryResponse { atlantic_query_id: t.clone() }),
                None => Err(DecodeError::MissingField(FieldName::AtlanticQueryId)),
            },
            None => Err(DecodeError::InvalidJson),
        }
    }
}

/// The service's answer to a fact-hash calculation.
#[derive(Debug, Clone, PartialEq, Eq)]
pub struct FactHashResponse {
    pub fact_hash: String,
}

/// The fact hash fact-hash-answer text holds, when it holds one.
pub open spec fn sp_fact_hash_of(s: Seq<char>) -> Option<Seq<char>> {
    match sp_parse(s) {
        Some(m) => sp_get_str(m, "factHash"@),
        None => None,
    }
}

impl FactHashResponse {
    /// Parse the fact-hash answer document.
    pub fn parse(text: &str) -> (r: Result<FactHashResponse, DecodeError>)
        requires
            text@.len() < usize::MAX,
        ensures
            match r {
                Ok(q) => sp_fact_hash_of(text@) == Some(q.fact_hash@),
                Err(e) => sp_fact_hash_of(text@) is None
                    && e == (if sp_parse(text@) is None {
                        DecodeError::InvalidJson
                    } else {
                        DecodeError::MissingField(FieldName::FactHash)
                    }),
            },
    {
        match JsonValue::parse(text) {
            Some(j) => match j.get_str("factHash") {
                Some(t) => Ok(FactHashResponse { fact_hash: t.clone() }),
                None => Err(DecodeError::MissingField(FieldName::FactHash)),
            },
            None => Err(DecodeError::InvalidJson),
        }
    }
}

/// Does the optional boolean reflect the member?
pub open spec fn sp_opt_bool_matches(o: Option<bool>, v: Option<bool>) -> bool {
    o == v
}

/// One submitted query as the service reports it.
#[derive(Debug, Clone, PartialEq, Eq)]
pub struct SharpQueryDetails {
    pub id: String,
    pub external_id: Option<String>,
    pub submitted_by_client: String,
    pub status: String,
    pub step: Option<String>,
    pub program_hash: Option<String>,
    pub layout: Option<String>,
    pub program_fact_hash: Option<String>,
    pub price: String,
    pub gas_used: u64,
    pub credits_used: u64,
    pub trace_credits_used: u64,
    pub is_fact_mocked: Option<bool>,
    pub prover: Option<String>,
    pub chain: Option<String>,
    pub steps: Vec<String>,
    pub created_at: String,
    pub completed_at: Option<String>,
}

/// The first reason a string array fails to read, if any.
pub open spec fn sp_strs_err(items: Seq<JsonModel>) -> Option<DecodeError>
    decreases items.len(),
{
    if items.len() == 0 {
        None
    } else if sp_strs_err(items.drop_last()) is Some {
        sp_strs_err(items.drop_last())
    } else {
        match items.last() {
            JsonModel::Str(_) => None,
            _ => Some(DecodeError::BadValue(FieldName::Steps)),
        }
    }
}

/// Do the strings reflect the array elementwise?
pub open spec fn sp_strs_match(ss: Seq<String>, items: Seq<JsonModel>) -> bool {
    ss.len() == items.len()
        && forall|i: int| 0 <= i < items.len()
            ==> ((#[trigger] items[i]) matches JsonModel::Str(t) && ss[i]@ == t)
}

proof fn lemma_strs_first_err(items: Seq<JsonModel>, i: int)
    requires
        0 <= i < items.len(),
        sp_strs_err(items.take(i)) is None,
        !(items[i] is Str),
    ensures
        sp_strs_err(items) == Some(DecodeError::BadValue(FieldName::Steps)),
    decreases items.len(),
{
    if i == items.len() - 1 {
        assert(items.drop_last() =~= items.take(i));
    } else {
        assert(items.drop_last().take(i) =~= items.take(i));
        lemma_strs_first_err(items.drop_last(), i);
    }
}

/// Read an array of strings.
#[verifier::loop_isolation(false)]
fn parse_string_array(items: &Vec<JsonValue>) -> (r: Result<Vec<String>, DecodeError>)
    ensures
        match r {
            Ok(ss) => sp_strs_err(sp_arr_model(items@)) is None
                && sp_strs_match(ss@, sp_arr_model(items@)),
            Err(e) => sp_strs_err(sp_arr_model(items@)) == Some(e),
        },
{
    let ghost m: Seq<JsonModel> = sp_arr_model(items@);
    proof {
        crate::json::lemma_arr_model_index(items@);
        assert(m.take(0) =~= Seq::<JsonModel>::empty());
    }
    let mut out: Vec<String> = Vec::new();
    let mut i: usize = 0;
    while i < items.len()
        invariant
            0 <= i <= items@.len(),
            m == sp_arr_model(items@),
            m.len() == items@.len(),
            forall|k: int| 0 <= k < items@.len() ==> #[trigger] m[k] == items@[k].model(),
            sp_strs_err(m.take(i as int)) is None,
            out@.len() == i,
            forall|k: int| 0 <= k < i
                ==> ((#[trigger] m[k]) matches JsonModel::Str(t) && out@[k]@ == t),
        decreases items@.len() - i,
    {
        proof {
            assert(m.take(i + 1).drop_last() =~= m.take(i as int));
            assert(m.take(i + 1).last() == m[i as int]);
        }
        match &items[i] {
            JsonValue::Str(t) => {
                out.push(t.clone());
            },
            _ => {
                proof {
                    lemma_strs_first_err(m, i as int);
                }
                return Err(DecodeError::BadValue(FieldName::Steps));
            },
        }
        i += 1;
    }
    proof {
        assert(m.take(m.len() as int) =~= m);
    }
    Ok(out)
}

/// The first reason a query-details object fails to read, if any.
pub open spec fn sp_details_err(m: JsonModel) -> Option<DecodeError> {
    if sp_get_str(m, "id"@) is None {
        Some(DecodeError::MissingField(FieldName::QueryId))
    } else if sp_get_str(m, "submittedByClient"@) is None {
        Some(DecodeError::MissingField(FieldName::SubmittedByClient))
    } else if sp_get_str(m, "status"@) is None {
        Some(DecodeError::MissingField(FieldName::QueryStatus))
    } else if sp_get_str(m, "price"@) is None {
        Some(DecodeError::MissingField(FieldName::Price))
    } else if sp_get_num(m, "gasUsed"@) is None {
        Some(DecodeError::MissingField(FieldName::GasUsed))
    } else if sp_get_u64(m, "gasUsed"@) is None {
        Some(DecodeError::BadValue(FieldName::GasUsed))
    } else if sp_get_num(m, "creditsUsed"@) is None {
        Some(DecodeError::MissingField(FieldName::CreditsUsed))
    } else if sp_get_u64(m, "creditsUsed"@) is None {
        Some(DecodeError::BadValue(FieldName::CreditsUsed))
    } else if sp_get_num(m, "traceCreditsUsed"@) is None {
        Some(DecodeError::MissingField(FieldName::TraceCreditsUsed))
    } else if sp_get_u64(m, "traceCreditsUsed"@) is None {
        Some(DecodeError::BadValue(FieldName::TraceCreditsUsed))
    } else if sp_get_arr(m, "steps"@) is None {
        Some(DecodeError::MissingField(FieldName::Steps))
    } else if sp_strs_err(sp_get_arr(m, "steps"@).unwrap()) is Some {
        sp_strs_err(sp_get_arr(m, "steps"@).unwrap())
    } else if sp_get_str(m, "createdAt"@) is None {
        Some(DecodeError::MissingField(FieldName::QueryCreatedAt))
    } else {
        None
    }
}

/// How a `SharpQueryDetails` reflects its JSON object.
pub open spec fn sp_details_matches(d: SharpQueryDetails, m: JsonModel) -> bool {
    &&& sp_get_str(m, "id"@) == Some(d.id@)
    &&& sp_opt_str_matches(d.external_id, sp_get_str(m, "externalId"@))
    &&& sp_get_str(m, "submittedByClient"@) == Some(d.submitted_by_client@)
    &&& sp_get_str(m, "status"@) == Some(d.status@)
    &&& sp_opt_str_matches(d.step, sp_get_str(m, "step"@))
    &&& sp_opt_str_matches(d.program_hash, sp_get_str(m, "programHash"@))
    &&& sp_opt_str_matches(d.layout, sp_get_str(m, "layout"@))
    &&& sp_opt_str_matches(d.program_fact_hash, sp_get_str(m, "programFactHash"@))
    &&& sp_get_str(m, "price"@) == Some(d.price@)
    &&& sp_get_u64(m, "gasUsed"@) == Some(d.gas_used as int)
    &&& sp_get_u64(m, "creditsUsed"@) == Some(d.credits_used as int)
    &&& sp_get_u64(m, "traceCreditsUsed"@) == Some(d.trace_credits_used as int)
    &&& sp_opt_bool_matches(d.is_fact_mocked, crate::json::sp_get_bool(m, "isFactMocked"@))
    &&& sp_opt_str_matches(d.prover, sp_get_str(m, "prover"@))
    &&& sp_opt_str_matches(d.chain, sp_get_str(m, "chain"@))
    &&& (sp_get_arr(m, "steps"@) matches Some(si) && sp_strs_match(d.steps@, si))
    &&& sp_get_str(m, "createdAt"@) == Some(d.created_at@)
    &&& sp_opt_str_matches(d.completed_at, sp_get_str(m, "completedAt"@))
}

fn get_opt_string(v: &JsonValue, key: &str) -> (r: Option<String>)
    ensures
        sp_opt_str_matches(r, sp_get_str(v.model(), key@)),
{
    match v.get_str(key) {
        Some(t) => Some(t.clone()),
        None => None,
    }
}

fn get_req_u64(v: &JsonValue, key: &str, f: crate::document::FieldName) -> (r: Result<
    u64,
    DecodeError,
>)
    ensures
        match r {
            Ok(x) => sp_get_u64(v.model(), key@) == Some(x as int),
            Err(e) => e == (if sp_get_num(v.model(), key@) is None {
                DecodeError::MissingField(f)
            } else {
                DecodeError::BadValue(f)
            }) && sp_get_u64(v.model(), key@) is None,
        },
{
    match v.get_num(key) {
        Some(t) => match crate::json::parse_u64(t.as_str()) {
            Some(x) => Ok(x),
            None => Err(DecodeError::BadValue(f)),
        },
        None => Err(DecodeError::MissingField(f)),
    }
}

impl SharpQueryDetails {
    /// Read one query-details object.
    pub fn parse(v: &JsonValue) -> (r: Result<SharpQueryDetails, DecodeError>)
        ensures
            match r {
                Ok(d) => sp_details_err(v.model()) is None && sp_details_matches(d, v.model()),
                Err(e) => sp_details_err(v.model()) == Some(e),
            },
    {
        let id: String = match v.get_str("id") {
            Some(t) => t.clone(),
            None => {
                return Err(DecodeError::MissingField(FieldName::QueryId));
            },
        };
        let submitted_by_client: String = match v.get_str("submittedByClient") {
            Some(t) => t.clone(),
            None => {
                return Err(DecodeError::MissingField(FieldName::SubmittedByClient));
            },
        };
        let status: String = match v.get_str("status") {
            Some(t) => t.clone(),
            None => {
                return Err(DecodeError::MissingField(FieldName::QueryStatus));
            },
        };
        let price: String = match v.get_str("price") {
            Some(t) => t.clone(),
            None => {
                return Err(DecodeError::MissingField(FieldName::Price));
            },
        };
        let gas_used: u64 = match get_req_u64(v, "gasUsed", FieldName::GasUsed) {
            Ok(x) => x,
            Err(e) => {
                return Err(e);
            },
        };
        let credits_used: u64 = match get_req_u64(v, "creditsUsed", FieldName::CreditsUsed) {
            Ok(x) => x,
            Err(e) => {
                return Err(e);
            },
        };
        let trace_credits_used: u64 = match get_req_u64(v, "traceCreditsUsed",
            FieldName::TraceCreditsUsed) {
            Ok(x) => x,
            Err(e) => {
                return Err(e);
            },
        };
        let step_items: &Vec<JsonValue> = match v.get_arr("steps") {
            Some(items) => items,
            None => {
                return Err(DecodeError::MissingField(FieldName::Steps));
            },
        };
        let steps: Vec<String> = match parse_string_array(step_items) {
            Ok(ss) => ss,
            Err(e) => {
                return Err(e);
            },
        };
        let created_at: String = match v.get_str("createdAt") {
            Some(t) => t.clone(),
            None => {
                return Err(DecodeError::MissingField(FieldName::QueryCreatedAt));
            },
        };
        Ok(SharpQueryDetails {
            id,
            external_id: get_opt_string(v, "externalId"),
            submitted_by_client,
            status,
            step: get_opt_string(v, "step"),
            program_hash: get_opt_string(v, "programHash"),
            layout: get_opt_string(v, "layout"),
            program_fact_hash: get_opt_string(v, "programFactHash"),
            price,
            gas_used,
            credits_used,
            trace_credits_used,
            is_fact_mocked: v.get_bool("isFactMocked"),
            prover: get_opt_string(v, "prover"),
            chain: get_opt_string(v, "chain"),
            steps,
            created_at,
            completed_at: get_opt_string(v, "completedAt"),
        })
    }
}

/// One query's status document.
#[derive(Debug, Clone, PartialEq, Eq)]
pub struct SharpQueryResponse {
    pub sharp_query: SharpQueryDetails,
}

/// The first reason a query-status document fails to read, if any.
pub open spec fn sp_query_response_err(s: Seq<char>) -> Option<DecodeError> {
    match sp_parse(s) {
        Some(m) => match sp_get(m, "atlanticQuery"@) {
            Some(qm) => sp_details_err(qm),
            None => Some(DecodeError::MissingField(FieldName::AtlanticQuery)),
        },
        None => Some(DecodeError::InvalidJson),
    }
}

/// How a `SharpQueryResponse` reflects query-status text.
pub open spec fn sp_query_response_matches(q: SharpQueryResponse, s: Seq<char>) -> bool {
    &&& sp_parse(s) matches Some(m)
    &&& sp_get(sp_parse(s).unwrap(), "atlanticQuery"@) matches Some(qm)
        && sp_details_matches(q.sharp_query, qm)
}

impl SharpQueryResponse {
    /// Parse a query-status document.
    pub fn parse(text: &str) -> (r: Result<SharpQueryResponse, DecodeError>)
        requires
            text@.len() < usize::MAX,
        ensures
            match r {
                Ok(q) => sp_query_response_err(text@) is None
                    && sp_query_response_matches(q, text@),
                Err(e) => sp_query_response_err(text@) == Some(e),
            },
    {
        let root: JsonValue = match JsonValue::parse(text) {
            Some(j) => j,
            None => {
                return Err(DecodeError::InvalidJson);
            },
        };
        let qv: &JsonValue = match root.get("atlanticQuery") {
            Some(qv) => qv,
            None => {
                return Err(DecodeError::MissingField(FieldName::AtlanticQuery));
            },
        };
        match SharpQueryDetails::parse(qv) {
            Ok(d) => Ok(SharpQueryResponse { sharp_query: d }),
            Err(e) => Err(e),
        }
    }
}

/// A page of queries plus the total count.
#[derive(Debug, Clone, PartialEq, Eq)]
pub struct SharpQueriesResponse {
    pub sharp_queries: Vec<SharpQueryDetails>,
    pub total: u64,
}

/// The first reason the query array fails to read, if any.
pub open spec fn sp_queries_err(items: Seq<JsonModel>) -> Option<DecodeError>
    decreases items.len(),
{
    if items.len() == 0 {
        None
    } else if sp_queries_err(items.drop_last()) is Some {
        sp_queries_err(items.drop_last())
    } else {
        sp_details_err(items.last())
    }
}

/// Do the query details reflect the array elementwise?
pub open spec fn sp_queries_match(ds: Seq<SharpQueryDetails>, items: Seq<JsonModel>) -> bool {
    ds.len() == items.len()
        && forall|i: int| 0 <= i < items.len()
            ==> sp_details_matches(ds[i], #[trigger] items[i])
}

/// The first reason a query-listing document fails to read, if any.
pub open spec fn sp_queries_response_err(s: Seq<char>) -> Option<DecodeError> {
    match sp_parse(s) {
        Some(m) => match sp_get_arr(m, "sharpQueries"@) {
            Some(qi) => match sp_queries_err(qi) {
                Some(e) => Some(e),
                None => if sp_get_num(m, "total"@) is None {
                    Some(DecodeError::MissingField(FieldName::Total))
                } else if sp_get_u64(m, "total"@) is None {
                    Some(DecodeError::BadValue(FieldName::Total))
                } else {
                    None
                },
            },
            None => Some(DecodeError::MissingField(FieldName::SharpQueries)),
        },
        None => Some(DecodeError::InvalidJson),
    }
}

/// How a `SharpQueriesResponse` reflects query-listing text.
pub open spec fn sp_queries_response_matches(q: SharpQueriesResponse, s: Seq<char>) -> bool {
    &&& sp_parse(s) matches Some(m)
    &&& sp_get_arr(sp_parse(s).unwrap(), "sharpQueries"@) matches Some(qi)
        && sp_queries_match(q.sharp_queries@, qi)
    &&& sp_get_u64(sp_parse(s).unwrap(), "total"@) == Some(q.total as int)
}

proof fn lemma_queries_first_err(items: Seq<JsonModel>, i: int, e: DecodeError)
    requires
        0 <= i < items.len(),
        sp_queries_err(items.take(i)) is None,
        sp_details_err(items[i]) == Some(e),
    ensures
        sp_queries_err(items) == Some(e),
    decreases items.len(),
{
    if i == items.len() - 1 {
        assert(items.drop_last() =~= items.take(i));
    } else {
        assert(items.drop_last().take(i) =~= items.take(i));
        lemma_queries_first_err(items.drop_last(), i, e);
    }
}

impl SharpQueriesResponse {
    /// Parse a query-listing document.
    #[verifier::loop_isolation(false)]
    pub fn parse(text: &str) -> (r: Result<SharpQueriesResponse, DecodeError>)
        requires
            text@.len() < usize::MAX,
        ensures
            match r {
                Ok(q) => sp_queries_response_err(text@) is None
                    && sp_queries_response_matches(q, text@),
                Err(e) => sp_queries_response_err(text@) == Some(e),
            },
    {
        let root: JsonValue = match JsonValue::parse(text) {
            Some(j) => j,
            None => {
                return Err(DecodeError::InvalidJson);
            },
        };
        let items: &Vec<JsonValue> = match root.get_arr("sharpQueries") {
            Some(items) => items,
            None => {
                return Err(DecodeError::MissingField(FieldName::SharpQueries));
            },
        };
        let ghost m: Seq<JsonModel> = sp_arr_model(items@);
        proof {
            crate::json::lemma_arr_model_index(items@);
            assert(m.take(0) =~= Seq::<JsonModel>::empty());
        }
        let mut ds: Vec<SharpQueryDetails> = Vec::new();
        let mut i: usize = 0;
        while i < items.len()
            invariant
                0 <= i <= items@.len(),
                m == sp_arr_model(items@),
                m.len() == items@.len(),
                forall|k: int| 0 <= k < items@.len() ==> #[trigger] m[k] == items@[k].model(),
                sp_queries_err(m.take(i as int)) is None,
                ds@.len() == i,
                forall|k: int| 0 <= k < i ==> sp_details_matches(ds@[k], #[trigger] m[k]),
            decreases items@.len() - i,
        {
            proof {
                assert(m.take(i + 1).drop_last() =~= m.take(i as int));
                assert(m.take(i + 1).last() == m[i as int]);
            }
            match SharpQueryDetails::parse(&items[i]) {
                Ok(d) => {
                    ds.push(d);
                },
                Err(e) => {
                    proof {
                        lemma_queries_first_err(m, i as int, e);
                    }
                    return Err(e);
                },
            }
            i += 1;
        }
        proof {
            assert(m.take(m.len() as int) =~= m);
        }
        let total: u64 = match get_req_u64(&root, "total", FieldName::Total) {
            Ok(x) => x,
            Err(e) => {
                return Err(e);
            },
        };
        Ok(SharpQueriesResponse { sharp_queries: ds, total })
    }
}

proof fn lemma_jobs_first_err(items: Seq<JsonModel>, i: int, e: DecodeError)
    requires
        0 <= i < items.len(),
        sp_jobs_err(items.take(i)) is None,
        sp_job_err(items[i]) == Some(e),
    ensures
        sp_jobs_err(items) == Some(e),
    decreases items.len(),
{
    if i == items.len() - 1 {
        assert(items.drop_last() =~= items.take(i));
    } else {
        assert(items.drop_last().take(i) =~= items.take(i));
        lemma_jobs_first_err(items.drop_last(), i, e);
    }
}

proof fn lemma_steps_first_err(items: Seq<JsonModel>, i: int)
    requires
        0 <= i < items.len(),
        sp_steps_err(items.take(i)) is None,
        (match items[i] {
            JsonModel::Str(t) => forall|s: StageName| sp_stage_text(s) != t,
            _ => true,
        }),
    ensures
        sp_steps_err(items) == Some(DecodeError::BadValue(FieldName::Steps)),
    decreases items.len(),
{
    if i == items.len() - 1 {
        assert(items.drop_last() =~= items.take(i));
    } else {
        assert(items.drop_last().take(i) =~= items.take(i));
        lemma_steps_first_err(items.drop_last(), i);
    }
}

impl JobResponse {
    /// Parse a job-status document: the `jobs` list and the declared
    /// `steps` order.
    #[verifier::loop_isolation(false)]
    pub fn parse(text: &str) -> (r: Result<JobResponse, DecodeError>)
        requires
            text@.len() < usize::MAX,
        ensures
            match r {
                Ok(jr) => sp_job_response_err(text@) is None
                    && sp_job_response_matches(jr, text@),
                Err(e) => sp_job_response_err(text@) == Some(e),
            },
    {
        let root: JsonValue = match JsonValue::parse(text) {
            Some(j) => j,
            None => {
                return Err(DecodeError::InvalidJson);
            },
        };
        let job_items: &Vec<JsonValue> = match root.get_arr("jobs") {
            Some(items) => items,
            None => {
                return Err(DecodeError::MissingField(FieldName::Jobs));
            },
        };
        let ghost jm: Seq<JsonModel> = sp_arr_model(job_items@);
        proof {
            crate::json::lemma_arr_model_index(job_items@);
            assert(jm.take(0) =~= Seq::<JsonModel>::empty());
        }
        let mut jobs: Vec<Job> = Vec::new();
        let mut i: usize = 0;
        while i < job_items.len()
            invariant
                0 <= i <= job_items@.len(),
                jm == sp_arr_model(job_items@),
                jm.len() == job_items@.len(),
                forall|k: int| 0 <= k < job_items@.len()
                    ==> #[trigger] jm[k] == job_items@[k].model(),
                sp_jobs_err(jm.take(i as int)) is None,
                jobs@.len() == i,
                forall|k: int| 0 <= k < i ==> sp_job_matches(jobs@[k], #[trigger] jm[k]),
            decreases job_items@.len() - i,
        {
            proof {
                assert(jm.take(i + 1).drop_last() =~= jm.take(i as int));
                assert(jm.take(i + 1).last() == jm[i as int]);
            }
            match Job::parse(&job_items[i]) {
                Ok(j) => {
                    jobs.push(j);
                },
                Err(e) => {
                    proof {
                        lemma_jobs_first_err(jm, i as int, e);
                    }
                    return Err(e);
                },
            }
            i += 1;
        }
        proof {
            assert(jm.take(jm.len() as int) =~= jm);
        }
        let step_items: &Vec<JsonValue> = match root.get_arr("steps") {
            Some(items) => items,
            None => {
                return Err(DecodeError::MissingField(FieldName::Steps));
            },
        };
        let ghost sm: Seq<JsonModel> = sp_arr_model(step_items@);
        proof {
            crate::json::lemma_arr_model_index(step_items@);
            assert(sm.take(0) =~= Seq::<JsonModel>::empty());
        }
        let mut steps: Vec<StageName> = Vec::new();
        let mut k: usize = 0;
        while k < step_items.len()
            invariant
                0 <= k <= step_items@.len(),
                sm == sp_arr_model(step_items@),
                sm.len() == step_items@.len(),
                forall|k2: int| 0 <= k2 < step_items@.len()
                    ==> #[trigger] sm[k2] == step_items@[k2].model(),
                sp_steps_err(sm.take(k as int)) is None,
                steps@.len() == k,
                forall|k2: int| 0 <= k2 < k
                    ==> ((#[trigger] sm[k2]) matches JsonModel::Str(t)
                        && sp_stage_text(steps@[k2]) == t),
            decreases step_items@.len() - k,
        {
            proof {
                assert(sm.take(k + 1).drop_last() =~= sm.take(k as int));
                assert(sm.take(k + 1).last() == sm[k as int]);
            }
            let sv: StageName = match &step_items[k] {
                JsonValue::Str(t) => match StageName::parse(t.as_str()) {
                    Some(s) => s,
                    None => {
                        proof {
                            lemma_steps_first_err(sm, k as int);
                        }
                        return Err(DecodeError::BadValue(FieldName::Steps));
                    },
                },
                _ => {
                    proof {
                        lemma_steps_first_err(sm, k as int);
                    }
                    return Err(DecodeError::BadValue(FieldName::Steps));
                },
            };
            steps.push(sv);
            k += 1;
        }
        proof {
            assert(sm.take(sm.len() as int) =~= sm);
        }
        Ok(JobResponse { jobs, steps })
    }
}

} // verus!
