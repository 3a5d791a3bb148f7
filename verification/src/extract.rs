//! The artifact extractor: from a parsed proof document to the values a
//! downstream verifier consumes.
//!
//! The output hash checked here is the document's own claim about the
//! program output, recomputed from the output values.  It is a separate
//! concept from the fact hash the service reports in its fact-hash
//! stage context, which also folds in the program's identity; the two
//! are never reconciled against each other here.
//!
//! The extractor recognizes cairo version `0`.  For it, the program's own
//! hash is the first public-memory value of the segment named `program`;
//! the program's declared output is the ordered value list of the segment
//! named `output`.  The output hash is recomputed under the accumulator
//! scheme (`crate::felt::sp_chain_hash`) and must equal the hash the
//! document claims; a mismatch is a fatal integrity failure, never a
//! partial result.  The serialized proof is every segment's values
//! flattened in document order — that order is the wire contract with the
//! downstream verifier.

use vstd::prelude::*;
use crate::document::DocModel;
use crate::document::ProofDocument;
use crate::document::Segment;
use crate::document::SegmentModel;
use crate::document::sp_parse_document;
use crate::document::sp_segs_model;
use crate::error::AtlanticSdkError;
use crate::felt::FieldElement;
use crate::felt::chain_hash;
use crate::felt::felt_of;
use crate::felt::lemma_felt_of_val;
use crate::felt::lemma_value_injective;
use crate::felt::prime;
use crate::felt::sp_chain_hash;
use crate::json::str_eq;

verus! {

broadcast use vstd::seq::group_seq_axioms;

/// Why extraction failed; each variant names the step that failed.
#[derive(Clone, Copy, Debug, PartialEq, Eq, Structural)]
pub enum ExtractError {
    /// The document's cairo version is none the extractor recognizes.
    UnsupportedCairoVersion(u64),
    /// No segment is named `program`.
    MissingProgramSegment,
    /// The program segment holds no values, so no program hash.
    EmptyProgramSegment,
    /// No segment is named `output`.
    MissingOutputSegment,
    /// The recomputed output hash differs from the document's claim.
    OutputHashMismatch,
}

/// The final derived artifact.
#[derive(Debug, PartialEq, Eq)]
pub struct ProverResult {
    /// The original proof text, verbatim.
    pub proof_text: String,
    /// Every segment's values flattened in document order: the wire form
    /// a downstream verifier consumes.
    pub serialized_proof: Vec<FieldElement>,
    /// The value identifying the executed program.
    pub program_hash: FieldElement,
    /// The program's declared output, in order.
    pub program_output: Vec<FieldElement>,
    /// The hash of `program_output` under the accumulator scheme,
    /// recomputed during extraction and equal to the document's claim.
    pub program_output_hash: FieldElement,
}

/// The mathematical shape of a `ProverResult`.
pub struct ProverResultModel {
    pub proof_text: Seq<char>,
    pub serialized_proof: Seq<FieldElement>,
    pub program_hash: FieldElement,
    pub program_output: Seq<FieldElement>,
    pub program_output_hash: FieldElement,
}

impl ProverResult {
    pub open spec fn model(self) -> ProverResultModel {
        ProverResultModel {
            proof_text: self.proof_text@,
            serialized_proof: self.serialized_proof@,
            program_hash: self.program_hash,
            program_output: self.program_output@,
            program_output_hash: self.program_output_hash,
        }
    }
}

/// The first segment of the given name, in document order.
pub open spec fn sp_find_seg(segs: Seq<SegmentModel>, name: Seq<char>) -> Option<SegmentModel>
    decreases segs.len(),
{
    if segs.len() == 0 {
        None
    } else if segs.first().name == name {
        Some(segs.first())
    } else {
        sp_find_seg(segs.drop_first(), name)
    }
}

/// Every segment's values, flattened in document order.
pub open spec fn sp_flatten(segs: Seq<SegmentModel>) -> Seq<FieldElement>
    decreases segs.len(),
{
    if segs.len() == 0 {
        Seq::empty()
    } else {
        sp_flatten(segs.drop_last()) + segs.last().values
    }
}

/// What extraction yields on a document model.
pub open spec fn sp_extract(d: DocModel) -> Result<ProverResultModel, ExtractError> {
    if d.cairo_version != 0 {
        Err(ExtractError::UnsupportedCairoVersion(d.cairo_version))
    } else {
        match sp_find_seg(d.segments, "program"@) {
            Some(ps) => if ps.values.len() == 0 {
                Err(ExtractError::EmptyProgramSegment)
            } else {
                match sp_find_seg(d.segments, "output"@) {
                    Some(os) => if sp_chain_hash(os.values) == d.claimed_output_hash.value() {
                        Ok(ProverResultModel {
                            proof_text: d.raw,
                            serialized_proof: sp_flatten(d.segments),
                            program_hash: ps.values.first(),
                            program_output: os.values,
                            program_output_hash: felt_of(sp_chain_hash(os.values)),
                        })
                    } else {
                        Err(ExtractError::OutputHashMismatch)
                    },
                    None => Err(ExtractError::MissingOutputSegment),
                }
            },
            None => Err(ExtractError::MissingProgramSegment),
        }
    }
}

/// A found segment is one of the run's segments.
proof fn lemma_find_in(segs: Seq<SegmentModel>, name: Seq<char>)
    requires
        sp_find_seg(segs, name) is Some,
    ensures
        exists|i: int| 0 <= i < segs.len()
            && segs[i] == sp_find_seg(segs, name).unwrap(),
    decreases segs.len(),
{
    if segs.len() > 0 && segs.first().name != name {
        lemma_find_in(segs.drop_first(), name);
        let sg = sp_find_seg(segs, name).unwrap();
        let i = choose|i: int| 0 <= i < segs.drop_first().len()
            && segs.drop_first()[i] == sg;
        assert(segs[i + 1] == sg);
    }
}

/// The first segment of the given name.
fn find_segment<'a>(segs: &'a Vec<Segment>, name: &str) -> (r: Option<&'a Segment>)
    ensures
        match r {
            Some(sg) => sp_find_seg(sp_segs_model(segs@), name@) == Some(sg.model()),
            None => sp_find_seg(sp_segs_model(segs@), name@) is None,
        },
{
    let ghost m: Seq<SegmentModel> = sp_segs_model(segs@);
    proof {
        assert(m.skip(0) =~= m);
    }
    let mut i: usize = 0;
    while i < segs.len()
        invariant
            0 <= i <= segs@.len(),
            m == sp_segs_model(segs@),
            sp_find_seg(m, name@) == sp_find_seg(m.skip(i as int), name@),
        decreases segs@.len() - i,
    {
        proof {
            assert(m.skip(i as int).first() == m[i as int]);
            assert(m.skip(i as int).drop_first() =~= m.skip(i + 1));
        }
        if str_eq(segs[i].name.as_str(), name) {
            return Some(&segs[i]);
        }
        i += 1;
    }
    proof {
        assert(m.skip(m.len() as int).len() == 0);
    }
    None
}

impl ProofDocument {
    /// Derive the prover artifact from this document.
    ///
    /// On success the result's `program_output_hash` is the recomputed
    /// hash of `program_output`; a document whose claimed hash differs
    /// is rejected with `OutputHashMismatch`, never returned partially.
    #[verifier::loop_isolation(false)]
    pub fn extract(&self) -> (r: Result<ProverResult, ExtractError>)
        requires
            self.model().wf(),
        ensures
            match r {
                Ok(p) => sp_extract(self.model())
                    == Result::<ProverResultModel, ExtractError>::Ok(p.model()),
                Err(e) => sp_extract(self.model())
                    == Result::<ProverResultModel, ExtractError>::Err(e),
            },
            (r matches Ok(p)
                ==> p.program_output_hash.value() == sp_chain_hash(p.program_output@)),
    {
        let ghost dm: DocModel = self.model();
        if self.cairo_version != 0 {
            return Err(ExtractError::UnsupportedCairoVersion(self.cairo_version));
        }
        let ps: &Segment = match find_segment(&self.segments, "program") {
            Some(sg) => sg,
            None => {
                return Err(ExtractError::MissingProgramSegment);
            },
        };
        if ps.values.len() == 0 {
            return Err(ExtractError::EmptyProgramSegment);
        }
        let program_hash: FieldElement = ps.values[0];
        let os: &Segment = match find_segment(&self.segments, "output") {
            Some(sg) => sg,
            None => {
                return Err(ExtractError::MissingOutputSegment);
            },
        };
        proof {
            lemma_find_in(dm.segments, "output"@);
        }
        let recomputed: FieldElement = chain_hash(&os.values);
        if !(recomputed == self.claimed_output_hash) {
            proof {
                if recomputed.value() == self.claimed_output_hash.value() {
                    lemma_value_injective(recomputed, self.claimed_output_hash);
                }
            }
            return Err(ExtractError::OutputHashMismatch);
        }
        proof {
            lemma_felt_of_val(recomputed.value());
            lemma_value_injective(recomputed, felt_of(recomputed.value()));
        }
        let mut output: Vec<FieldElement> = Vec::new();
        let mut i: usize = 0;
        while i < os.values.len()
            invariant
                0 <= i <= os.values@.len(),
                output@ == os.values@.take(i as int),
            decreases os.values@.len() - i,
        {
            output.push(os.values[i]);
            proof {
                assert(output@ =~= os.values@.take(i + 1));
            }
            i += 1;
        }
        proof {
            assert(os.values@.take(os.values@.len() as int) =~= os.values@);
        }
        let mut flat: Vec<FieldElement> = Vec::new();
        proof {
            assert(dm.segments.take(0) =~= Seq::<SegmentModel>::empty());
        }
        let mut s: usize = 0;
        while s < self.segments.len()
            invariant
                0 <= s <= self.segments@.len(),
                flat@ == sp_flatten(dm.segments.take(s as int)),
            decreases self.segments@.len() - s,
        {
            let seg: &Segment = &self.segments[s];
            let ghost flat0: Seq<FieldElement> = flat@;
            let mut v: usize = 0;
            while v < seg.values.len()
                invariant
                    0 <= v <= seg.values@.len(),
                    seg == &self.segments@[s as int],
                    s < self.segments@.len(),
                    flat@ == flat0 + seg.values@.take(v as int),
                decreases seg.values@.len() - v,
            {
                flat.push(seg.values[v]);
                proof {
                    assert(flat@ =~= flat0 + seg.values@.take(v + 1));
                }
                v += 1;
            }
            proof {
                assert(dm.segments.take(s + 1).drop_last() =~= dm.segments.take(s as int));
                assert(dm.segments.take(s + 1).last() == dm.segments[s as int]);
                assert(seg.values@.take(seg.values@.len() as int) =~= seg.values@);
            }
            s += 1;
        }
        proof {
            assert(dm.segments.take(dm.segments.len() as int) =~= dm.segments);
        }
        Ok(ProverResult {
            proof_text: self.raw.clone(),
            serialized_proof: flat,
            program_hash,
            program_output: output,
            program_output_hash: recomputed,
        })
    }
}

/// What the whole pipeline tail — parse, then extract — yields on raw
/// proof text.
pub open spec fn sp_process(s: Seq<char>) -> Result<ProverResultModel, AtlanticSdkError> {
    match sp_parse_document(s) {
        Ok(d) => match sp_extract(d) {
            Ok(rm) => Ok(rm),
            Err(e) => Err(AtlanticSdkError::Extract(e)),
        },
        Err(e) => Err(AtlanticSdkError::Decode(e)),
    }
}

/// Parse raw proof text and extract the prover artifact from it.
pub fn process_proof_text(text: &str) -> (r: Result<ProverResult, AtlanticSdkError>)
    requires
        text@.len() < usize::MAX,
    ensures
        match r {
            Ok(p) => sp_process(text@)
                == Result::<ProverResultModel, AtlanticSdkError>::Ok(p.model()),
            Err(e) => sp_process(text@)
                == Result::<ProverResultModel, AtlanticSdkError>::Err(e),
        },
{
    let d: ProofDocument = match ProofDocument::parse(text) {
        Ok(d) => d,
        Err(e) => {
            return Err(AtlanticSdkError::Decode(e));
        },
    };
    match d.extract() {
        Ok(p) => Ok(p),
        Err(e) => Err(AtlanticSdkError::Extract(e)),
    }
}

/// Parsing and extracting is a function of the text alone: two calls on
/// identical text yield the same result, success or failure.
pub proof fn lemma_process_deterministic(t1: Seq<char>, t2: Seq<char>)
    requires
        t1 == t2,
    ensures
        sp_process(t1) == sp_process(t2),
{
}

/// Extraction never returns a result whose `program_output_hash` differs
/// from the hash of `program_output`: it either upholds the equality or
/// fails with `OutputHashMismatch`.
pub proof fn lemma_output_hash_invariant(d: DocModel)
    ensures
        match sp_extract(d) {
            Ok(rm) => rm.program_output_hash == felt_of(sp_chain_hash(rm.program_output))
                && rm.program_output_hash.value() == sp_chain_hash(rm.program_output),
            Err(_) => true,
        },
        (sp_extract(d) is Ok ==> (sp_find_seg(d.segments, "output"@) matches Some(os)
            && sp_chain_hash(os.values) == d.claimed_output_hash.value())),
{
    if sp_extract(d) is Ok {
        let os = sp_find_seg(d.segments, "output"@).unwrap();
        assert(0 <= sp_chain_hash(os.values) < prime()) by {
            if os.values.len() == 0 {
            } else {
                vstd::arithmetic::div_mod::lemma_mod_bound(
                    2 * sp_chain_hash(os.values.drop_last()) + os.values.last().value(),
                    prime());
            }
        }
        lemma_felt_of_val(sp_chain_hash(os.values));
    }
}

} // verus!
