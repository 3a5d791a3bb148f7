//! Endpoint resolution: one table from logical operation to relative
//! path, parameterized by an API version tag and resolved once, at
//! construction, against a configured base URL.
//!
//! A base URL is modeled as plain text with an invariant: an `http` or
//! `https` scheme and a non-empty authority.  Joining an absolute path
//! keeps the scheme and authority and replaces everything after them.

use vstd::prelude::*;
use vstd::string::StrSliceExecFns;
use vstd::string::StringExecFns;
use crate::error::AtlanticSdkError;
use crate::json::str_eq;

verus! {

/// The length of a scheme prefix this client speaks, else zero.
pub open spec fn sp_scheme_len(s: Seq<char>) -> int {
    if s.len() >= 7 && s.take(7) == "http://"@ {
        7
    } else if s.len() >= 8 && s.take(8) == "https://"@ {
        8
    } else {
        0
    }
}

/// A usable base URL: a known scheme and a non-empty authority.
pub open spec fn sp_url_ok(s: Seq<char>) -> bool {
    sp_scheme_len(s) > 0 && sp_scheme_len(s) < s.len() && s[sp_scheme_len(s)] != '/'
}

/// The first `/` at or after `i`, else the end of the text.
pub open spec fn sp_slash_end(s: Seq<char>, i: int) -> int
    decreases s.len() - i,
{
    if 0 <= i && i < s.len() && s[i] != '/' {
        sp_slash_end(s, i + 1)
    } else {
        i
    }
}

/// Join an absolute path onto a base URL: scheme and authority kept,
/// everything after them replaced by the path.
pub open spec fn sp_join(base: Seq<char>, path: Seq<char>) -> Seq<char> {
    base.take(sp_slash_end(base, sp_scheme_len(base))) + path
}

/// Does the text begin with the given prefix?
fn has_prefix(s: &str, p: &str) -> (r: bool)
    ensures
        r == (p@.len() <= s@.len() && s@.take(p@.len() as int) == p@),
{
    let n: usize = s.unicode_len();
    let np: usize = p.unicode_len();
    if np > n {
        return false;
    }
    let head: &str = s.substring_char(0, np);
    proof {
        assert(head@ =~= s@.take(np as int));
    }
    str_eq(head, p)
}

/// Resolve an absolute path against a usable base URL.
fn join_url(base: &str, path: &str) -> (r: String)
    requires
        sp_url_ok(base@),
    ensures
        r@ == sp_join(base@, path@),
{
    let n: usize = base.unicode_len();
    proof {
        reveal_strlit("http://");
        reveal_strlit("https://");
    }
    let sl: usize = if has_prefix(base, "http://") {
        7
    } else {
        8
    };
    proof {
        assert(sl == sp_scheme_len(base@));
    }
    let mut e: usize = sl;
    while e < n && base.get_char(e) != '/'
        invariant
            sl <= e <= n,
            n == base@.len(),
            sp_slash_end(base@, sl as int) == sp_slash_end(base@, e as int),
        decreases n - e,
    {
        e += 1;
    }
    proof {
        assert(e as int == sp_slash_end(base@, sl as int));
    }
    let prefix: &str = base.substring_char(0, e);
    let mut out: String = String::from_str(prefix);
    out.append(path);
    proof {
        assert(prefix@ =~= base@.take(e as int));
    }
    out
}

/// Check a base URL against the model's invariant.
pub fn url_ok(base: &str) -> (r: bool)
    ensures
        r == sp_url_ok(base@),
{
    let n: usize = base.unicode_len();
    proof {
        reveal_strlit("http://");
        reveal_strlit("https://");
    }
    if has_prefix(base, "http://") {
        n > 7 && base.get_char(7) != '/'
    } else if has_prefix(base, "https://") {
        n > 8 && base.get_char(8) != '/'
    } else {
        false
    }
}

/// A logical operation of the service's API.
#[derive(Clone, Copy, Debug, PartialEq, Eq, Structural)]
pub enum Operation {
    L1AtlanticQuery,
    L1ProofGenerationVerification,
    L1FactHashCalculation,
    L2AtlanticQuery,
    L2ProofGenerationToProofVerification,
    L2ProofVerification,
    L2FactHashCalculation,
    TraceGeneration,
    ProofGeneration,
    TraceGenToProofGen,
    GetQueries,
    GetQuery,
    GetQueryJobs,
    IsAlive,
    SubmitProgram,
}

/// The API version tag paths are resolved under.
#[derive(Clone, Copy, Debug, PartialEq, Eq, Structural)]
pub enum ApiVersion {
    V1,
}

/// The relative path of an operation under a version.
pub open spec fn sp_endpoint_path(v: ApiVersion, op: Operation) -> Seq<char> {
    match v {
        ApiVersion::V1 => match op {
            Operation::L1AtlanticQuery => "/v1/l1/atlantic-query"@,
            Operation::L1ProofGenerationVerification =>
                "/v1/l1/atlantic-query/proof-generation-verification"@,
            Operation::L1FactHashCalculation => "/v1/l1/fact-hash-calculation"@,
            Operation::L2AtlanticQuery => "/v1/l2/atlantic-query"@,
            Operation::L2ProofGenerationToProofVerification =>
                "/v1/l2/atlantic-query/proof-generation-verification"@,
            Operation::L2ProofVerification => "/v1/l2/atlantic-query/proof-verification"@,
            Operation::L2FactHashCalculation => "/v1/l2/fact-hash-calculation"@,
            Operation::TraceGeneration => "/v1/trace-generation"@,
            Operation::ProofGeneration => "/v1/proof-generation"@,
            Operation::TraceGenToProofGen => "/v1/trace-generation-proof-generation"@,
            Operation::GetQueries => "/v1/atlantic-queries"@,
            Operation::GetQuery => "/v1/atlantic-query/"@,
            Operation::GetQueryJobs => "/v1/atlantic-query-jobs/"@,
            Operation::IsAlive => "/v1/is-alive"@,
            Operation::SubmitProgram => "/v1/submit-program"@,
        },
    }
}

/// The relative path of an operation under a version.
pub fn endpoint_path(v: ApiVersion, op: Operation) -> (r: &'static str)
    ensures
        r@ == sp_endpoint_path(v, op),
{
    match v {
        ApiVersion::V1 => match op {
            Operation::L1AtlanticQuery => "/v1/l1/atlantic-query",
            Operation::L1ProofGenerationVerification =>
                "/v1/l1/atlantic-query/proof-generation-verification",
            Operation::L1FactHashCalculation => "/v1/l1/fact-hash-calculation",
            Operation::L2AtlanticQuery => "/v1/l2/atlantic-query",
            Operation::L2ProofGenerationToProofVerification =>
                "/v1/l2/atlantic-query/proof-generation-verification",
            Operation::L2ProofVerification => "/v1/l2/atlantic-query/proof-verification",
            Operation::L2FactHashCalculation => "/v1/l2/fact-hash-calculation",
            Operation::TraceGeneration => "/v1/trace-generation",
            Operation::ProofGeneration => "/v1/proof-generation",
            Operation::TraceGenToProofGen => "/v1/trace-generation-proof-generation",
            Operation::GetQueries => "/v1/atlantic-queries",
            Operation::GetQuery => "/v1/atlantic-query/",
            Operation::GetQueryJobs => "/v1/atlantic-query-jobs/",
            Operation::IsAlive => "/v1/is-alive",
            Operation::SubmitProgram => "/v1/submit-program",
        },
    }
}

/// The L1 submission endpoints, resolved.
#[derive(Debug, Clone, PartialEq, Eq)]
pub struct L1Endpoints {
    pub atlantic_query: String,
    pub proof_generation_verification: String,
    pub fact_hash_calculation: String,
}

/// The L2 submission endpoints, resolved.
#[derive(Debug, Clone, PartialEq, Eq)]
pub struct L2Endpoints {
    pub atlantic_query: String,
    pub from_proof_generation_to_proof_verification: String,
    pub proof_verification: String,
    pub fact_hash_calculation: String,
}

/// The trace/proof generation endpoints, resolved.
#[derive(Debug, Clone, PartialEq, Eq)]
pub struct ProofGenTraceGenEndpoints {
    pub trace_generation: String,
    pub proof_generation: String,
    pub trace_gen_to_proof_gen: String,
}

/// The query listing and status endpoints, resolved.
#[derive(Debug, Clone, PartialEq, Eq)]
pub struct AtlanticQueriesEndpoints {
    pub get_queries: String,
    pub get_query: String,
    pub get_query_jobs: String,
}

/// The liveness endpoint, resolved.
#[derive(Debug, Clone, PartialEq, Eq)]
pub struct HealthCheckEndpoint {
    pub is_alive: String,
}

/// The program registry endpoint, resolved.
#[derive(Debug, Clone, PartialEq, Eq)]
pub struct ProgramRegistryEndpoint {
    pub submit_program: String,
}

/// One configured client: the API key and every endpoint resolved
/// against the base URL.  Read-only after construction, so concurrent
/// pipeline runs may share it freely.
#[derive(Debug, Clone, PartialEq, Eq)]
pub struct AtlanticSdk {
    pub api_key: String,
    pub l1: L1Endpoints,
    pub l2: L2Endpoints,
    pub proof_generation_trace_generation: ProofGenTraceGenEndpoints,
    pub atlantic_queries: AtlanticQueriesEndpoints,
    pub health_check: HealthCheckEndpoint,
    pub program_registry: ProgramRegistryEndpoint,
}

/// Does every endpoint of the client resolve the operation table
/// against this base?
pub open spec fn sp_sdk_resolved(sdk: AtlanticSdk, base: Seq<char>) -> bool {
    let v = ApiVersion::V1;
    &&& sdk.l1.atlantic_query@ == sp_join(base, sp_endpoint_path(v, Operation::L1AtlanticQuery))
    &&& sdk.l1.proof_generation_verification@
        == sp_join(base, sp_endpoint_path(v, Operation::L1ProofGenerationVerification))
    &&& sdk.l1.fact_hash_calculation@
        == sp_join(base, sp_endpoint_path(v, Operation::L1FactHashCalculation))
    &&& sdk.l2.atlantic_query@ == sp_join(base, sp_endpoint_path(v, Operation::L2AtlanticQuery))
    &&& sdk.l2.from_proof_generation_to_proof_verification@
        == sp_join(base, sp_endpoint_path(v, Operation::L2ProofGenerationToProofVerification))
    &&& sdk.l2.proof_verification@
        == sp_join(base, sp_endpoint_path(v, Operation::L2ProofVerification))
    &&& sdk.l2.fact_hash_calculation@
        == sp_join(base, sp_endpoint_path(v, Operation::L2FactHashCalculation))
    &&& sdk.proof_generation_trace_generation.trace_generation@
        == sp_join(base, sp_endpoint_path(v, Operation::TraceGeneration))
    &&& sdk.proof_generation_trace_generation.proof_generation@
        == sp_join(base, sp_endpoint_path(v, Operation::ProofGeneration))
    &&& sdk.proof_generation_trace_generation.trace_gen_to_proof_gen@
        == sp_join(base, sp_endpoint_path(v, Operation::TraceGenToProofGen))
    &&& sdk.atlantic_queries.get_queries@
        == sp_join(base, sp_endpoint_path(v, Operation::GetQueries))
    &&& sdk.atlantic_queries.get_query@ == sp_join(base, sp_endpoint_path(v, Operation::GetQuery))
    &&& sdk.atlantic_queries.get_query_jobs@
        == sp_join(base, sp_endpoint_path(v, Operation::GetQueryJobs))
    &&& sdk.health_check.is_alive@ == sp_join(base, sp_endpoint_path(v, Operation::IsAlive))
    &&& sdk.program_registry.submit_program@
        == sp_join(base, sp_endpoint_path(v, Operation::SubmitProgram))
}

impl AtlanticSdk {
    /// Resolve every endpoint against the base URL, once; a base that
    /// is no usable URL is `InvalidConfiguration`.
    pub fn new(api_key: String, base_url: &str) -> (r: Result<AtlanticSdk, AtlanticSdkError>)
        ensures
            match r {
                Ok(sdk) => sp_url_ok(base_url@) && sdk.api_key@ == api_key@
                    && sp_sdk_resolved(sdk, base_url@),
                Err(e) => e == AtlanticSdkError::InvalidConfiguration && !sp_url_ok(base_url@),
            },
    {
        if !url_ok(base_url) {
            return Err(AtlanticSdkError::InvalidConfiguration);
        }
        let v = ApiVersion::V1;
        Ok(AtlanticSdk {
            api_key,
            l1: L1Endpoints {
                atlantic_query: join_url(base_url, endpoint_path(v, Operation::L1AtlanticQuery)),
                proof_generation_verification: join_url(base_url,
                    endpoint_path(v, Operation::L1ProofGenerationVerification)),
                fact_hash_calculation: join_url(base_url,
                    endpoint_path(v, Operation::L1FactHashCalculation)),
            },
            l2: L2Endpoints {
                atlantic_query: join_url(base_url, endpoint_path(v, Operation::L2AtlanticQuery)),
                from_proof_generation_to_proof_verification: join_url(base_url,
                    endpoint_path(v, Operation::L2ProofGenerationToProofVerification)),
                proof_verification: join_url(base_url,
                    endpoint_path(v, Operation::L2ProofVerification)),
                fact_hash_calculation: join_url(base_url,
                    endpoint_path(v, Operation::L2FactHashCalculation)),
            },
            proof_generation_trace_generation: ProofGenTraceGenEndpoints {
                trace_generation: join_url(base_url,
                    endpoint_path(v, Operation::TraceGeneration)),
                proof_generation: join_url(base_url,
                    endpoint_path(v, Operation::ProofGeneration)),
                trace_gen_to_proof_gen: join_url(base_url,
                    endpoint_path(v, Operation::TraceGenToProofGen)),
            },
            atlantic_queries: AtlanticQueriesEndpoints {
                get_queries: join_url(base_url, endpoint_path(v, Operation::GetQueries)),
                get_query: join_url(base_url, endpoint_path(v, Operation::GetQuery)),
                get_query_jobs: join_url(base_url, endpoint_path(v, Operation::GetQueryJobs)),
            },
            health_check: HealthCheckEndpoint {
                is_alive: join_url(base_url, endpoint_path(v, Operation::IsAlive)),
            },
            program_registry: ProgramRegistryEndpoint {
                submit_program: join_url(base_url, endpoint_path(v, Operation::SubmitProgram)),
            },
        })
    }
}

} // verus!
