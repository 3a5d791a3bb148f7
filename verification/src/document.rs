//! Typed representation of the raw proof document.
//!
//! The document is a JSON object with:
//!   - `"cairoVersion"`: the cairo version of the proved program, a number;
//!   - `"programOutputHash"`: the hash the document claims for the program
//!     output, a field-element text;
//!   - `"memorySegments"`: an array of objects, each with a `"name"` string
//!     and a `"values"` array of field-element texts — the public-memory
//!     values of that segment, in order.
//!
//! Unknown fields are ignored, so the shape may evolve additively; a field
//! the extractor depends on that is absent or unreadable is a typed
//! `DecodeError` naming the field — nothing is defaulted silently.

use vstd::prelude::*;
use vstd::string::StringExecFns;
use crate::felt::FieldElement;
use crate::felt::felt_of;
use crate::felt::prime;
use crate::felt::sp_text_val;
use crate::json::JsonModel;
use crate::json::JsonValue;
use crate::json::parse_u64;
use crate::json::sp_get_arr;
use crate::json::sp_get_num;
use crate::json::sp_get_str;
use crate::json::sp_parse;
use crate::json::sp_u64_of;

verus! {

/// A document field the library depends on.
#[derive(Clone, Copy, Debug, PartialEq, Eq, Structural)]
pub enum FieldName {
    CairoVersion,
    ProgramOutputHash,
    MemorySegments,
    SegmentName,
    SegmentValues,
    Jobs,
    Steps,
    JobId,
    JobQueryId,
    JobStatus,
    JobName,
    JobCreatedAt,
    AtlanticQueryId,
    FactHash,
    AtlanticQuery,
    SharpQueries,
    Total,
    QueryId,
    SubmittedByClient,
    QueryStatus,
    Price,
    GasUsed,
    CreditsUsed,
    TraceCreditsUsed,
    QueryCreatedAt,
}

/// The name of a field as it appears in a document.
pub open spec fn sp_field_text(f: FieldName) -> Seq<char> {
    match f {
        FieldName::CairoVersion => "cairoVersion"@,
        FieldName::ProgramOutputHash => "programOutputHash"@,
        FieldName::MemorySegments => "memorySegments"@,
        FieldName::SegmentName => "name"@,
        FieldName::SegmentValues => "values"@,
        FieldName::Jobs => "jobs"@,
        FieldName::Steps => "steps"@,
        FieldName::JobId => "id"@,
        FieldName::JobQueryId => "sharpQueryId"@,
        FieldName::JobStatus => "status"@,
        FieldName::JobName => "jobName"@,
        FieldName::JobCreatedAt => "createdAt"@,
        FieldName::AtlanticQueryId => "atlanticQueryId"@,
        FieldName::FactHash => "factHash"@,
        FieldName::AtlanticQuery => "atlanticQuery"@,
        FieldName::SharpQueries => "sharpQueries"@,
        FieldName::Total => "total"@,
        FieldName::QueryId => "id"@,
        FieldName::SubmittedByClient => "submittedByClient"@,
        FieldName::QueryStatus => "status"@,
        FieldName::Price => "price"@,
        FieldName::GasUsed => "gasUsed"@,
        FieldName::CreditsUsed => "creditsUsed"@,
        FieldName::TraceCreditsUsed => "traceCreditsUsed"@,
        FieldName::QueryCreatedAt => "createdAt"@,
    }
}

impl FieldName {
    /// The field's name as it appears in the document.
    pub fn as_text(&self) -> (r: &'static str)
        ensures
            r@ == sp_field_text(*self),
    {
        match self {
            FieldName::CairoVersion => "cairoVersion",
            FieldName::ProgramOutputHash => "programOutputHash",
            FieldName::MemorySegments => "memorySegments",
            FieldName::SegmentName => "name",
            FieldName::SegmentValues => "values",
            FieldName::Jobs => "jobs",
            FieldName::Steps => "steps",
            FieldName::JobId => "id",
            FieldName::JobQueryId => "sharpQueryId",
            FieldName::JobStatus => "status",
            FieldName::JobName => "jobName",
            FieldName::JobCreatedAt => "createdAt",
            FieldName::AtlanticQueryId => "atlanticQueryId",
            FieldName::FactHash => "factHash",
            FieldName::AtlanticQuery => "atlanticQuery",
            FieldName::SharpQueries => "sharpQueries",
            FieldName::Total => "total",
            FieldName::QueryId => "id",
            FieldName::SubmittedByClient => "submittedByClient",
            FieldName::QueryStatus => "status",
            FieldName::Price => "price",
            FieldName::GasUsed => "gasUsed",
            FieldName::CreditsUsed => "creditsUsed",
            FieldName::TraceCreditsUsed => "traceCreditsUsed",
            FieldName::QueryCreatedAt => "createdAt",
        }
    }
}

/// Why a proof document failed to decode.
#[derive(Clone, Copy, Debug, PartialEq, Eq, Structural)]
pub enum DecodeError {
    /// The text is not a JSON document of the expected grammar.
    InvalidJson,
    /// A field the extractor depends on is absent or of the wrong type.
    MissingField(FieldName),
    /// A field is present but its text is no canonical value.
    BadValue(FieldName),
}

/// The ordered public-memory values of one named segment.
#[derive(Debug, Clone, PartialEq, Eq)]
pub struct Segment {
    pub name: String,
    pub values: Vec<FieldElement>,
}

/// The mathematical shape of a segment.
pub struct SegmentModel {
    pub name: Seq<char>,
    pub values: Seq<FieldElement>,
}

impl Segment {
    pub open spec fn model(self) -> SegmentModel {
        SegmentModel { name: self.name@, values: self.values@ }
    }
}

/// A parsed proof document, read-only input to the extractor.
#[derive(Debug, Clone, PartialEq, Eq)]
pub struct ProofDocument {
    /// The original proof text, kept verbatim.
    pub raw: String,
    pub cairo_version: u64,
    /// The hash the document claims for the program output.
    pub claimed_output_hash: FieldElement,
    /// The public-memory segments, in document order.
    pub segments: Vec<Segment>,
}

/// The mathematical shape of a proof document.
pub struct DocModel {
    pub raw: Seq<char>,
    pub cairo_version: u64,
    pub claimed_output_hash: FieldElement,
    pub segments: Seq<SegmentModel>,
}

/// The models of a run of segments, in order.
pub open spec fn sp_segs_model(segs: Seq<Segment>) -> Seq<SegmentModel> {
    Seq::new(segs.len(), |i: int| segs[i].model())
}

impl ProofDocument {
    pub open spec fn model(self) -> DocModel {
        DocModel {
            raw: self.raw@,
            cairo_version: self.cairo_version,
            claimed_output_hash: self.claimed_output_hash,
            segments: sp_segs_model(self.segments@),
        }
    }
}

impl SegmentModel {
    /// Every value lies in the field.
    pub open spec fn wf(self) -> bool {
        forall|i: int| 0 <= i < self.values.len() ==> (#[trigger] self.values[i]).wf()
    }
}

impl DocModel {
    /// Every field element of the document lies in the field.
    pub open spec fn wf(self) -> bool {
        self.claimed_output_hash.wf()
            && forall|i: int| 0 <= i < self.segments.len()
                ==> (#[trigger] self.segments[i]).wf()
    }
}

/// The field element a value text denotes, when it is canonical.
pub open spec fn sp_felt_res(t: Seq<char>) -> Option<FieldElement> {
    match sp_text_val(t) {
        Some(v) => if v < prime() {
            Some(felt_of(v))
        } else {
            None
        },
        None => None,
    }
}

/// The field elements of a segment's `"values"` array: every element must
/// be a string holding canonical field-element text.
pub open spec fn sp_felts_of(items: Seq<JsonModel>) -> Result<Seq<FieldElement>, DecodeError>
    decreases items.len(),
{
    if items.len() == 0 {
        Ok(Seq::empty())
    } else {
        match sp_felts_of(items.drop_last()) {
            Ok(pre) => match items.last() {
                JsonModel::Str(t) => match sp_felt_res(t) {
                    Some(f) => Ok(pre.push(f)),
                    None => Err(DecodeError::BadValue(FieldName::SegmentValues)),
                },
                _ => Err(DecodeError::BadValue(FieldName::SegmentValues)),
            },
            Err(e) => Err(e),
        }
    }
}

/// One segment from its JSON object.
pub open spec fn sp_seg_of(v: JsonModel) -> Result<SegmentModel, DecodeError> {
    match sp_get_str(v, "name"@) {
        Some(nm) => match sp_get_arr(v, "values"@) {
            Some(items) => match sp_felts_of(items) {
                Ok(vals) => Ok(SegmentModel { name: nm, values: vals }),
                Err(e) => Err(e),
            },
            None => Err(DecodeError::MissingField(FieldName::SegmentValues)),
        },
        None => Err(DecodeError::MissingField(FieldName::SegmentName)),
    }
}

/// A run of segments from the `"memorySegments"` array; the error of the
/// first failing segment wins.
pub open spec fn sp_segs_of(items: Seq<JsonModel>) -> Result<Seq<SegmentModel>, DecodeError>
    decreases items.len(),
{
    if items.len() == 0 {
        Ok(Seq::empty())
    } else {
        match sp_segs_of(items.drop_last()) {
            Ok(pre) => match sp_seg_of(items.last()) {
                Ok(sg) => Ok(pre.push(sg)),
                Err(e) => Err(e),
            },
            Err(e) => Err(e),
        }
    }
}

/// The document a JSON model denotes.
pub open spec fn sp_doc_of(m: JsonModel, raw: Seq<char>) -> Result<DocModel, DecodeError> {
    match sp_get_num(m, "cairoVersion"@) {
        Some(cvt) => match sp_u64_of(cvt) {
            Some(cv) => match sp_get_str(m, "programOutputHash"@) {
                Some(ht) => match sp_felt_res(ht) {
                    Some(claimed) => match sp_get_arr(m, "memorySegments"@) {
                        Some(items) => match sp_segs_of(items) {
                            Ok(segs) => Ok(DocModel {
                                raw: raw,
                                cairo_version: cv as u64,
                                claimed_output_hash: claimed,
                                segments: segs,
                            }),
                            Err(e) => Err(e),
                        },
                        None => Err(DecodeError::MissingField(FieldName::MemorySegments)),
                    },
                    None => Err(DecodeError::BadValue(FieldName::ProgramOutputHash)),
                },
                None => Err(DecodeError::MissingField(FieldName::ProgramOutputHash)),
            },
            None => Err(DecodeError::BadValue(FieldName::CairoVersion)),
        },
        None => Err(DecodeError::MissingField(FieldName::CairoVersion)),
    }
}

/// What parsing proof-document text yields.
pub open spec fn sp_parse_document(s: Seq<char>) -> Result<DocModel, DecodeError> {
    match sp_parse(s) {
        Some(m) => sp_doc_of(m, s),
        None => Err(DecodeError::InvalidJson),
    }
}

proof fn lemma_felt_res_wf(t: Seq<char>)
    requires
        sp_felt_res(t) is Some,
    ensures
        sp_felt_res(t).unwrap().wf(),
{
    let v: int = sp_text_val(t).unwrap();
    if t.len() >= 2 && t[0] == '0' && t[1] == 'x' {
        crate::felt::lemma_digits_nonneg(t.skip(2), 16);
    } else {
        crate::felt::lemma_digits_nonneg(t, 10);
    }
    crate::felt::lemma_felt_of_val(v);
}

proof fn lemma_felts_wf(items: Seq<JsonModel>)
    requires
        sp_felts_of(items) is Ok,
    ensures
        forall|i: int| 0 <= i < sp_felts_of(items).unwrap().len()
            ==> (#[trigger] sp_felts_of(items).unwrap()[i]).wf(),
    decreases items.len(),
{
    if items.len() > 0 {
        lemma_felts_wf(items.drop_last());
        match items.last() {
            JsonModel::Str(t) => {
                lemma_felt_res_wf(t);
            },
            _ => {},
        }
    }
}

proof fn lemma_segs_wf(items: Seq<JsonModel>)
    requires
        sp_segs_of(items) is Ok,
    ensures
        forall|i: int| 0 <= i < sp_segs_of(items).unwrap().len()
            ==> (#[trigger] sp_segs_of(items).unwrap()[i]).wf(),
    decreases items.len(),
{
    if items.len() > 0 {
        lemma_segs_wf(items.drop_last());
        let last = sp_seg_of(items.last());
        if last is Ok {
            match items.last() {
                m => {
                    if sp_get_str(m, "name"@) is Some && sp_get_arr(m, "values"@) is Some {
                        lemma_felts_wf(sp_get_arr(m, "values"@).unwrap());
                    }
                },
            }
        }
    }
}

/// A document that parses holds only field values below the prime.
pub proof fn lemma_parse_document_wf(s: Seq<char>)
    requires
        sp_parse_document(s) is Ok,
    ensures
        sp_parse_document(s).unwrap().wf(),
{
    let m = sp_parse(s).unwrap();
    lemma_felt_res_wf(sp_get_str(m, "programOutputHash"@).unwrap());
    lemma_segs_wf(sp_get_arr(m, "memorySegments"@).unwrap());
}

proof fn lemma_felts_err_value(items: Seq<JsonModel>)
    requires
        sp_felts_of(items) is Err,
    ensures
        sp_felts_of(items) == Result::<Seq<FieldElement>, DecodeError>::Err(
            DecodeError::BadValue(FieldName::SegmentValues)),
    decreases items.len(),
{
    if items.len() > 0 && sp_felts_of(items.drop_last()) is Err {
        lemma_felts_err_value(items.drop_last());
    }
}

proof fn lemma_felts_ok_elements(items: Seq<JsonModel>)
    requires
        sp_felts_of(items) is Ok,
    ensures
        forall|i: int| 0 <= i < items.len()
            ==> ((#[trigger] items[i]) matches JsonModel::Str(t) && sp_felt_res(t) is Some),
        sp_felts_of(items).unwrap().len() == items.len(),
    decreases items.len(),
{
    if items.len() > 0 {
        lemma_felts_ok_elements(items.drop_last());
        assert forall|i: int| 0 <= i < items.len()
            implies ((#[trigger] items[i]) matches JsonModel::Str(t)
                && sp_felt_res(t) is Some) by {
            if i < items.len() - 1 {
                assert(items.drop_last()[i] == items[i]);
            }
        }
    }
}

proof fn lemma_segs_first_err(items: Seq<JsonModel>, i: int, e: DecodeError)
    requires
        0 <= i < items.len(),
        sp_segs_of(items.take(i)) is Ok,
        sp_seg_of(items[i]) == Result::<SegmentModel, DecodeError>::Err(e),
    ensures
        sp_segs_of(items) == Result::<Seq<SegmentModel>, DecodeError>::Err(e),
    decreases items.len(),
{
    if i == items.len() - 1 {
        assert(items.drop_last() =~= items.take(i));
    } else {
        assert(items.drop_last().take(i) =~= items.take(i));
        lemma_segs_first_err(items.drop_last(), i, e);
    }
}

/// Read the field elements of one segment's `"values"` array.
fn parse_values(items: &Vec<JsonValue>) -> (r: Result<Vec<FieldElement>, DecodeError>)
    ensures
        match r {
            Ok(vals) => sp_felts_of(crate::json::sp_arr_model(items@))
                == Result::<Seq<FieldElement>, DecodeError>::Ok(vals@),
            Err(e) => sp_felts_of(crate::json::sp_arr_model(items@))
                == Result::<Seq<FieldElement>, DecodeError>::Err(e),
        },
{
    let ghost m: Seq<JsonModel> = crate::json::sp_arr_model(items@);
    proof {
        crate::json::lemma_arr_model_index(items@);
    }
    let mut vals: Vec<FieldElement> = Vec::new();
    let mut i: usize = 0;
    while i < items.len()
        invariant
            0 <= i <= items@.len(),
            m == crate::json::sp_arr_model(items@),
            m.len() == items@.len(),
            forall|j: int| 0 <= j < items@.len()
                ==> #[trigger] m[j] == items@[j].model(),
            sp_felts_of(m.take(i as int))
                == Result::<Seq<FieldElement>, DecodeError>::Ok(vals@),
        decreases items@.len() - i,
    {
        proof {
            assert(m.take(i + 1).drop_last() =~= m.take(i as int));
            assert(m.take(i + 1).last() == m[i as int]);
        }
        let f: FieldElement = match &items[i] {
            JsonValue::Str(t) => match FieldElement::parse(t.as_str()) {
                Ok(f) => f,
                Err(_) => {
                    proof {
                        assert(sp_felts_of(m.take(i + 1)) is Err);
                        if sp_felts_of(m) is Ok {
                            lemma_felts_ok_elements(m);
                        }
                        lemma_felts_err_value(m);
                    }
                    return Err(DecodeError::BadValue(FieldName::SegmentValues));
                },
            },
            _ => {
                proof {
                    assert(sp_felts_of(m.take(i + 1)) is Err);
                    if sp_felts_of(m) is Ok {
                        lemma_felts_ok_elements(m);
                    }
                    lemma_felts_err_value(m);
                }
                return Err(DecodeError::BadValue(FieldName::SegmentValues));
            },
        };
        vals.push(f);
        i += 1;
    }
    proof {
        assert(m.take(m.len() as int) =~= m);
    }
    Ok(vals)
}

/// Read one segment from its JSON object.
fn parse_segment(v: &JsonValue) -> (r: Result<Segment, DecodeError>)
    ensures
        match r {
            Ok(sg) => sp_seg_of(v.model())
                == Result::<SegmentModel, DecodeError>::Ok(sg.model()),
            Err(e) => sp_seg_of(v.model())
                == Result::<SegmentModel, DecodeError>::Err(e),
        },
{
    let name: String = match v.get_str("name") {
        Some(t) => t.clone(),
        None => {
            return Err(DecodeError::MissingField(FieldName::SegmentName));
        },
    };
    let items: &Vec<JsonValue> = match v.get_arr("values") {
        Some(items) => items,
        None => {
            return Err(DecodeError::MissingField(FieldName::SegmentValues));
        },
    };
    match parse_values(items) {
        Ok(vals) => Ok(Segment { name, values: vals }),
        Err(e) => Err(e),
    }
}

impl ProofDocument {
    /// Parse raw proof-document text.  Unknown fields are ignored; a
    /// missing or unreadable needed field is a typed error naming it.
    #[verifier::loop_isolation(false)]
    pub fn parse(text: &str) -> (r: Result<ProofDocument, DecodeError>)
        requires
            text@.len() < usize::MAX,
        ensures
            match r {
                Ok(d) => sp_parse_document(text@)
                    == Result::<DocModel, DecodeError>::Ok(d.model()),
                Err(e) => sp_parse_document(text@)
                    == Result::<DocModel, DecodeError>::Err(e),
            },
            (r matches Ok(d) ==> d.model().wf()),
    {
        let j: JsonValue = match JsonValue::parse(text) {
            Some(j) => j,
            None => {
                return Err(DecodeError::InvalidJson);
            },
        };
        let cv: u64 = match j.get_num("cairoVersion") {
            Some(t) => match parse_u64(t.as_str()) {
                Some(x) => x,
                None => {
                    return Err(DecodeError::BadValue(FieldName::CairoVersion));
                },
            },
            None => {
                return Err(DecodeError::MissingField(FieldName::CairoVersion));
            },
        };
        let claimed: FieldElement = match j.get_str("programOutputHash") {
            Some(t) => match FieldElement::parse(t.as_str()) {
                Ok(f) => f,
                Err(_) => {
                    return Err(DecodeError::BadValue(FieldName::ProgramOutputHash));
                },
            },
            None => {
                return Err(DecodeError::MissingField(FieldName::ProgramOutputHash));
            },
        };
        let seg_items: &Vec<JsonValue> = match j.get_arr("memorySegments") {
            Some(items) => items,
            None => {
                return Err(DecodeError::MissingField(FieldName::MemorySegments));
            },
        };
        let ghost m: Seq<JsonModel> = crate::json::sp_arr_model(seg_items@);
        proof {
            crate::json::lemma_arr_model_index(seg_items@);
        }
        let mut segments: Vec<Segment> = Vec::new();
        proof {
            assert(m.take(0) =~= Seq::<JsonModel>::empty());
            assert(sp_segs_model(segments@) =~= Seq::<SegmentModel>::empty());
        }
        let mut i: usize = 0;
        while i < seg_items.len()
            invariant
                0 <= i <= seg_items@.len(),
                m == crate::json::sp_arr_model(seg_items@),
                m.len() == seg_items@.len(),
                forall|j2: int| 0 <= j2 < seg_items@.len()
                    ==> #[trigger] m[j2] == seg_items@[j2].model(),
                sp_segs_of(m.take(i as int))
                    == Result::<Seq<SegmentModel>, DecodeError>::Ok(sp_segs_model(segments@)),
            decreases seg_items@.len() - i,
        {
            proof {
                assert(m.take(i + 1).drop_last() =~= m.take(i as int));
                assert(m.take(i + 1).last() == m[i as int]);
            }
            match parse_segment(&seg_items[i]) {
                Ok(sg) => {
                    let ghost s0: Seq<Segment> = segments@;
                    segments.push(sg);
                    proof {
                        assert(sp_segs_model(segments@) =~= sp_segs_model(s0).push(
                            segments@[s0.len() as int].model()));
                    }
                },
                Err(e) => {
                    proof {
                        lemma_segs_first_err(m, i as int, e);
                    }
                    return Err(e);
                },
            }
            i += 1;
        }
        proof {
            assert(m.take(m.len() as int) =~= m);
        }
        let raw: String = String::from_str(text);
        let d = ProofDocument { raw, cairo_version: cv, claimed_output_hash: claimed, segments };
        proof {
            lemma_parse_document_wf(text@);
        }
        Ok(d)
    }
}

} // verus!
