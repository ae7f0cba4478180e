//! Running one stage of a pipeline that has been read.

use crate::aggregation::{run_stage, stage_matches, AggregationEngine, AggregationError};
use crate::aggregation_pipeline::{stage_name, AggregationPipeline, PipelineStage, UnwindOptions};
use crate::bson::{docs_view, lemma_view_document, Bson, BsonView, DocView, Document};
use vstd::prelude::*;

verus! {

/// The argument of an `$unwind` stage, written as a document: the path,
/// and the two options where they are set.
pub open spec fn unwind_argument(o: UnwindOptions) -> DocView {
    seq![("path"@, BsonView::String(o.path@))] + (match o.include_array_index {
        Some(f) => seq![("includeArrayIndex"@, BsonView::String(f@))],
        None => Seq::empty(),
    }) + (match o.preserve_null_and_empty_arrays {
        Some(b) => seq![("preserveNullAndEmptyArrays"@, BsonView::Boolean(b))],
        None => Seq::empty(),
    })
}

/// The argument under which a stage is written, for the stages that are
/// run in the process.
pub open spec fn stage_argument(s: PipelineStage) -> Option<BsonView> {
    match s {
        PipelineStage::Match(d) => Some(BsonView::Document(d@)),
        PipelineStage::Group(d) => Some(BsonView::Document(d@)),
        PipelineStage::Project(d) => Some(BsonView::Document(d@)),
        PipelineStage::Sort(d) => Some(BsonView::Document(d@)),
        PipelineStage::Limit(n) => Some(BsonView::Int32(n)),
        PipelineStage::Skip(n) => Some(BsonView::Int32(n)),
        PipelineStage::Count(name) => Some(BsonView::String(name@)),
        PipelineStage::Unwind(o) => Some(BsonView::Document(unwind_argument(o))),
        _ => None,
    }
}

/// What a stage makes of documents: what the stage document that spells it
/// makes of them. A stage that is not run in the process gives
/// `NotImplemented`.
pub open spec fn stage_outcome(s: PipelineStage, docs: Seq<DocView>) -> Result<
    Seq<DocView>,
    AggregationError,
> {
    match stage_argument(s) {
        Some(arg) => run_stage(seq![(stage_name(s), arg)], docs),
        None => Err(AggregationError::NotImplemented),
    }
}

/// The argument of an `$unwind` stage, written as a document.
pub fn unwind_document_of(o: &UnwindOptions) -> (r: Document)
    ensures
        r@ == unwind_argument(*o),
{
    let mut d = Document::new();
    d.push("path".to_owned(), Bson::String(o.path.clone()));
    match &o.include_array_index {
        Some(f) => {
            d.push("includeArrayIndex".to_owned(), Bson::String(f.clone()));
        },
        None => {},
    }
    match o.preserve_null_and_empty_arrays {
        Some(b) => {
            d.push("preserveNullAndEmptyArrays".to_owned(), Bson::Boolean(b));
        },
        None => {},
    }
    assert(d@ =~= unwind_argument(*o));
    d
}

/// The stage document that spells a stage, for the stages that are run in
/// the process.
pub fn stage_as_document(stage: &PipelineStage) -> (r: Option<Document>)
    ensures
        match r {
            Some(d) => stage_argument(*stage) matches Some(arg) && d@ == seq![
                (stage_name(*stage), arg),
            ],
            None => stage_argument(*stage).is_none(),
        },
{
    let (name, arg): (&str, Bson) = match stage {
        PipelineStage::Match(d) => ("$match", document_value(d)),
        PipelineStage::Group(d) => ("$group", document_value(d)),
        PipelineStage::Project(d) => ("$project", document_value(d)),
        PipelineStage::Sort(d) => ("$sort", document_value(d)),
        PipelineStage::Limit(n) => ("$limit", Bson::Int32(*n)),
        PipelineStage::Skip(n) => ("$skip", Bson::Int32(*n)),
        PipelineStage::Count(s) => ("$count", Bson::String(s.clone())),
        PipelineStage::Unwind(o) => {
            let d = unwind_document_of(o);
            proof {
                lemma_view_document(d);
            }
            ("$unwind", Bson::Document(d))
        },
        _ => {
            return None;
        },
    };
    let mut out = Document::new();
    out.push(name.to_owned(), arg);
    assert(out@ =~= seq![(name@, arg@)]);
    Some(out)
}

/// A document as a value.
fn document_value(d: &Document) -> (r: Bson)
    ensures
        r@ == BsonView::Document(d@),
{
    let c = d.clone_document();
    proof {
        lemma_view_document(c);
    }
    Bson::Document(c)
}

impl AggregationPipeline {
    /// Runs one stage on one document: what the stage makes of a list
    /// that holds this document alone.
    pub fn execute_stage(&self, stage: &PipelineStage, input: &Document) -> (r: Result<
        Vec<Document>,
        AggregationError,
    >)
        ensures
            stage_matches(r, stage_outcome(*stage, seq![input@])),
    {
        let st = match stage_as_document(stage) {
            Some(d) => d,
            None => {
                return Err(AggregationError::NotImplemented);
            },
        };
        let mut docs: Vec<Document> = Vec::new();
        docs.push(input.clone_document());
        assert(docs_view(docs@) =~= seq![input@]);
        let engine = AggregationEngine::new();
        engine.process_stage(&docs, &st)
    }
}

} // verus!
