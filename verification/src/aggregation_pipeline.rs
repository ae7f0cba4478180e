//! Aggregation pipelines: the stages of a pipeline as they are read from
//! their documents.
//!
//! A pipeline is an array of stage documents. A stage document has one
//! entry: the name of the stage and its argument.

use crate::bson::{
    lemma_position, lemma_view_array, lemma_view_document, lookup, position, str_eq, values_view,
    Bson, BsonView, DocView, Document,
};
use vstd::prelude::*;

verus! {

/// One stage of a pipeline.
#[derive(Debug, PartialEq)]
pub enum PipelineStage {
    Match(Document),
    Group(Document),
    Project(Document),
    Sort(Document),
    Limit(i32),
    Skip(i32),
    Unwind(UnwindOptions),
    Lookup(LookupOptions),
    AddFields(Document),
    ReplaceRoot(Document),
    Count(String),
    CollStats(Document),
    Facet(Document),
    Bucket(BucketOptions),
    BucketAuto(BucketAutoOptions),
    GraphLookup(GraphLookupOptions),
    Sample { size: i32 },
    Redact(Document),
    Out(String),
    Merge(MergeOptions),
    UnionWith(UnionWithOptions),
    Densify(DensifyOptions),
    Fill(FillOptions),
    SetFields(Document),
    Unset(Document),
    ReplaceWith(Document),
    /// A statement for the backend, never read from a stage document.
    CustomSql(String),
}

/// The options of a whole pipeline.
#[derive(Debug, PartialEq)]
pub struct PipelineOptions {
    pub allow_disk_use: bool,
    pub cursor: Option<Document>,
    pub max_time_ms: Option<u32>,
    pub bypass_document_validation: bool,
    pub read_concern: Option<Document>,
    pub collation: Option<Document>,
    pub hint: Option<Document>,
    pub comment: Option<String>,
}

#[derive(Debug, PartialEq)]
pub struct UnwindOptions {
    pub path: String,
    pub include_array_index: Option<String>,
    pub preserve_null_and_empty_arrays: Option<bool>,
}

#[derive(Debug, PartialEq)]
pub struct LookupOptions {
    pub from: String,
    pub local_field: String,
    pub foreign_field: String,
    pub as_field: String,
    pub pipeline: Option<Vec<PipelineStage>>,
    pub let_vars: Option<Document>,
}

#[derive(Debug, PartialEq)]
pub struct BucketOptions {
    pub group_by: Bson,
    pub boundaries: Vec<Bson>,
    pub default: Option<Bson>,
    pub output: Option<Document>,
}

#[derive(Debug, PartialEq)]
pub struct BucketAutoOptions {
    pub group_by: Bson,
    pub buckets: i32,
    pub output: Option<Document>,
    pub granularity: Option<String>,
}

#[derive(Debug, PartialEq)]
pub struct GraphLookupOptions {
    pub from: String,
    pub start_with: Bson,
    pub connect_from_field: String,
    pub connect_to_field: String,
    pub as_field: String,
    pub max_depth: Option<i32>,
    pub depth_field: Option<String>,
    pub restrict_search_with_match: Option<Document>,
}

#[derive(Debug, PartialEq)]
pub struct MergeOptions {
    pub into: String,
    pub on: Option<Vec<String>>,
    pub when_matched: Option<String>,
    pub when_not_matched: Option<String>,
    pub let_vars: Option<Document>,
}

#[derive(Debug, PartialEq)]
pub struct UnionWithOptions {
    pub coll: String,
    pub pipeline: Option<Vec<PipelineStage>>,
}

#[derive(Debug, PartialEq)]
pub struct DensifyOptions {
    pub field: String,
    pub range: Document,
}

#[derive(Debug, PartialEq)]
pub struct FillOptions {
    pub output: Document,
    pub partition_by: Option<Document>,
    pub partition_by_fields: Option<Vec<String>>,
    pub sort_by: Option<Document>,
}

/// Why a pipeline cannot be read.
#[derive(Debug, Clone, Copy, PartialEq, Eq, Structural)]
pub enum PipelineError {
    /// An item of the pipeline that is not a document.
    NotADocument,
    /// A stage document with no entry or with more than one.
    NotOneOperator,
    /// A stage name that is not known.
    UnknownStage,
    /// A stage whose argument has the wrong type, or a count that is
    /// negative or beyond 32 bits.
    InvalidArgument,
    /// A stage that lacks an option it needs, or holds it in the wrong
    /// type.
    MissingOption,
}

/// Whether nothing is chosen in `o`: both flags off and no other option
/// given.
pub open spec fn nothing_chosen(o: PipelineOptions) -> bool {
    &&& !o.allow_disk_use
    &&& o.cursor.is_none()
    &&& o.max_time_ms.is_none()
    &&& !o.bypass_document_validation
    &&& o.read_concern.is_none()
    &&& o.collation.is_none()
    &&& o.hint.is_none()
    &&& o.comment.is_none()
}

impl Default for PipelineOptions {
    fn default() -> (r: Self)
        ensures
            nothing_chosen(r),
    {
        PipelineOptions {
            allow_disk_use: false,
            cursor: None,
            max_time_ms: None,
            bypass_document_validation: false,
            read_concern: None,
            collation: None,
            hint: None,
            comment: None,
        }
    }
}

/// The string under `k`, if there is one.
pub open spec fn str_at(d: DocView, k: Seq<char>) -> Option<Seq<char>> {
    match lookup(d, k) {
        Some(BsonView::String(s)) => Some(s),
        _ => None,
    }
}

/// The document under `k`, if there is one.
pub open spec fn doc_at(d: DocView, k: Seq<char>) -> Option<DocView> {
    match lookup(d, k) {
        Some(BsonView::Document(x)) => Some(x),
        _ => None,
    }
}

/// The array under `k`, if there is one.
pub open spec fn array_at(d: DocView, k: Seq<char>) -> Option<Seq<BsonView>> {
    match lookup(d, k) {
        Some(BsonView::Array(x)) => Some(x),
        _ => None,
    }
}

/// The boolean under `k`, if there is one.
pub open spec fn bool_at(d: DocView, k: Seq<char>) -> Option<bool> {
    match lookup(d, k) {
        Some(BsonView::Boolean(x)) => Some(x),
        _ => None,
    }
}

/// The 32-bit integer under `k`, if there is one.
pub open spec fn i32_at(d: DocView, k: Seq<char>) -> Option<i32> {
    match lookup(d, k) {
        Some(BsonView::Int32(x)) => Some(x),
        _ => None,
    }
}

/// The model of a string that may be missing.
pub open spec fn opt_string_view(o: Option<String>) -> Option<Seq<char>> {
    match o {
        Some(s) => Some(s@),
        None => None,
    }
}

/// The model of a document that may be missing.
pub open spec fn opt_doc_view(o: Option<Document>) -> Option<DocView> {
    match o {
        Some(d) => Some(d@),
        None => None,
    }
}

/// The model of a value that may be missing.
pub open spec fn opt_bson_view(o: Option<Bson>) -> Option<BsonView> {
    match o {
        Some(v) => Some(v@),
        None => None,
    }
}

/// The strings among the items, in order.
pub open spec fn strings_of(items: Seq<BsonView>) -> Seq<Seq<char>>
    decreases items.len(),
{
    if items.len() == 0 {
        Seq::empty()
    } else {
        match items.last() {
            BsonView::String(s) => strings_of(items.drop_last()).push(s),
            _ => strings_of(items.drop_last()),
        }
    }
}

/// The models of a list of strings.
pub open spec fn strings_view(s: Seq<String>) -> Seq<Seq<char>> {
    Seq::new(s.len(), |i: int| s[i]@)
}

/// The count that a stage argument holds: a 32-bit or 64-bit integer that
/// is not negative and fits 32 bits.
pub open spec fn count_of(v: BsonView) -> Option<i32> {
    match v {
        BsonView::Int32(n) => if n >= 0 {
            Some(n)
        } else {
            None
        },
        BsonView::Int64(n) => if 0 <= n <= i32::MAX {
            Some(n as i32)
        } else {
            None
        },
        _ => None,
    }
}

/// Whether a stage name announces a stage whose argument is a document
/// that is kept as it is.
pub open spec fn is_document_stage(name: Seq<char>) -> bool {
    name == "$match"@ || name == "$group"@ || name == "$project"@ || name == "$sort"@ || name
        == "$addFields"@ || name == "$replaceRoot"@ || name == "$collStats"@ || name == "$facet"@
        || name == "$redact"@ || name == "$set"@ || name == "$unset"@ || name == "$replaceWith"@
}

/// Whether a stage name is known.
pub open spec fn is_known_stage(name: Seq<char>) -> bool {
    is_document_stage(name) || name == "$limit"@ || name == "$skip"@ || name == "$unwind"@
        || name == "$lookup"@ || name == "$count"@ || name == "$bucket"@ || name == "$bucketAuto"@
        || name == "$graphLookup"@ || name == "$sample"@ || name == "$out"@ || name == "$merge"@
        || name == "$unionWith"@ || name == "$densify"@ || name == "$fill"@
}

/// The name under which a stage is written.
pub open spec fn stage_name(s: PipelineStage) -> Seq<char> {
    match s {
        PipelineStage::Match(_) => "$match"@,
        PipelineStage::Group(_) => "$group"@,
        PipelineStage::Project(_) => "$project"@,
        PipelineStage::Sort(_) => "$sort"@,
        PipelineStage::Limit(_) => "$limit"@,
        PipelineStage::Skip(_) => "$skip"@,
        PipelineStage::Unwind(_) => "$unwind"@,
        PipelineStage::Lookup(_) => "$lookup"@,
        PipelineStage::AddFields(_) => "$addFields"@,
        PipelineStage::ReplaceRoot(_) => "$replaceRoot"@,
        PipelineStage::Count(_) => "$count"@,
        PipelineStage::CollStats(_) => "$collStats"@,
        PipelineStage::Facet(_) => "$facet"@,
        PipelineStage::Bucket(_) => "$bucket"@,
        PipelineStage::BucketAuto(_) => "$bucketAuto"@,
        PipelineStage::GraphLookup(_) => "$graphLookup"@,
        PipelineStage::Sample { .. } => "$sample"@,
        PipelineStage::Redact(_) => "$redact"@,
        PipelineStage::Out(_) => "$out"@,
        PipelineStage::Merge(_) => "$merge"@,
        PipelineStage::UnionWith(_) => "$unionWith"@,
        PipelineStage::Densify(_) => "$densify"@,
        PipelineStage::Fill(_) => "$fill"@,
        PipelineStage::SetFields(_) => "$set"@,
        PipelineStage::Unset(_) => "$unset"@,
        PipelineStage::ReplaceWith(_) => "$replaceWith"@,
        PipelineStage::CustomSql(_) => "$sql"@,
    }
}

/// The document that a stage keeps as it was read.
pub open spec fn stage_document(s: PipelineStage) -> Option<DocView> {
    match s {
        PipelineStage::Match(d) => Some(d@),
        PipelineStage::Group(d) => Some(d@),
        PipelineStage::Project(d) => Some(d@),
        PipelineStage::Sort(d) => Some(d@),
        PipelineStage::AddFields(d) => Some(d@),
        PipelineStage::ReplaceRoot(d) => Some(d@),
        PipelineStage::CollStats(d) => Some(d@),
        PipelineStage::Facet(d) => Some(d@),
        PipelineStage::Redact(d) => Some(d@),
        PipelineStage::SetFields(d) => Some(d@),
        PipelineStage::Unset(d) => Some(d@),
        PipelineStage::ReplaceWith(d) => Some(d@),
        _ => None,
    }
}

/// Whether the stages of a nested pipeline are what its items spell.
pub open spec fn pipeline_read(items: Seq<BsonView>, stages: Seq<PipelineStage>) -> bool
    decreases stages,
{
    items.len() == stages.len() && forall|i: int|
        0 <= i < stages.len() ==> (#[trigger] items[i] matches BsonView::Document(d) && stage_read(
            d,
            stages[i],
        ))
}

/// Whether a nested pipeline that may be missing is what the option
/// `pipeline` of `d` spells.
pub open spec fn nested_read(d: DocView, p: Option<Vec<PipelineStage>>) -> bool
    decreases p,
{
    match (array_at(d, "pipeline"@), p) {
        (Some(items), Some(stages)) => pipeline_read(items, stages@),
        (None, None) => true,
        _ => false,
    }
}

/// Whether options are what the argument of an `$unwind` stage spells.
pub open spec fn unwind_read(v: BsonView, o: UnwindOptions) -> bool {
    match v {
        BsonView::String(p) => o.path@ == p && o.include_array_index.is_none()
            && o.preserve_null_and_empty_arrays.is_none(),
        BsonView::Document(d) => str_at(d, "path"@) == Some(o.path@) && opt_string_view(
            o.include_array_index,
        ) == str_at(d, "includeArrayIndex"@) && o.preserve_null_and_empty_arrays == bool_at(
            d,
            "preserveNullAndEmptyArrays"@,
        ),
        _ => false,
    }
}

/// Whether options are what the argument of a `$lookup` stage spells.
pub open spec fn lookup_read(v: BsonView, o: LookupOptions) -> bool
    decreases o,
{
    v matches BsonView::Document(d) && str_at(d, "from"@) == Some(o.from@) && str_at(
        d,
        "localField"@,
    ) == Some(o.local_field@) && str_at(d, "foreignField"@) == Some(o.foreign_field@) && str_at(
        d,
        "as"@,
    ) == Some(o.as_field@) && nested_read(d, o.pipeline) && opt_doc_view(o.let_vars) == doc_at(
        d,
        "let"@,
    )
}

/// Whether options are what the argument of a `$unionWith` stage spells.
pub open spec fn union_with_read(v: BsonView, o: UnionWithOptions) -> bool
    decreases o,
{
    v matches BsonView::Document(d) && str_at(d, "coll"@) == Some(o.coll@) && nested_read(
        d,
        o.pipeline,
    )
}

/// Whether options are what the argument of a `$bucket` stage spells.
pub open spec fn bucket_read(v: BsonView, o: BucketOptions) -> bool {
    v matches BsonView::Document(d) && lookup(d, "groupBy"@) == Some(o.group_by@) && array_at(
        d,
        "boundaries"@,
    ) == Some(values_view(o.boundaries@)) && opt_bson_view(o.default) == lookup(d, "default"@)
        && opt_doc_view(o.output) == doc_at(d, "output"@)
}

/// Whether options are what the argument of a `$bucketAuto` stage spells.
pub open spec fn bucket_auto_read(v: BsonView, o: BucketAutoOptions) -> bool {
    v matches BsonView::Document(d) && lookup(d, "groupBy"@) == Some(o.group_by@) && i32_at(
        d,
        "buckets"@,
    ) == Some(o.buckets) && opt_doc_view(o.output) == doc_at(d, "output"@) && opt_string_view(
        o.granularity,
    ) == str_at(d, "granularity"@)
}

/// Whether options are what the argument of a `$graphLookup` stage spells.
pub open spec fn graph_lookup_read(v: BsonView, o: GraphLookupOptions) -> bool {
    v matches BsonView::Document(d) && str_at(d, "from"@) == Some(o.from@) && lookup(
        d,
        "startWith"@,
    ) == Some(o.start_with@) && str_at(d, "connectFromField"@) == Some(o.connect_from_field@)
        && str_at(d, "connectToField"@) == Some(o.connect_to_field@) && str_at(d, "as"@) == Some(
        o.as_field@,
    ) && o.max_depth == i32_at(d, "maxDepth"@) && opt_string_view(o.depth_field) == str_at(
        d,
        "depthField"@,
    ) && opt_doc_view(o.restrict_search_with_match) == doc_at(d, "restrictSearchWithMatch"@)
}

/// The strings of the array under `k`, if there is an array.
pub open spec fn strings_at(d: DocView, k: Seq<char>) -> Option<Seq<Seq<char>>> {
    match array_at(d, k) {
        Some(items) => Some(strings_of(items)),
        None => None,
    }
}

/// The models of a list of strings that may be missing.
pub open spec fn opt_strings_view(o: Option<Vec<String>>) -> Option<Seq<Seq<char>>> {
    match o {
        Some(v) => Some(strings_view(v@)),
        None => None,
    }
}

/// Whether options are what the argument of a `$merge` stage spells.
pub open spec fn merge_read(v: BsonView, o: MergeOptions) -> bool {
    v matches BsonView::Document(d) && str_at(d, "into"@) == Some(o.into@) && opt_strings_view(
        o.on,
    ) == strings_at(d, "on"@) && opt_string_view(o.when_matched) == str_at(d, "whenMatched"@)
        && opt_string_view(o.when_not_matched) == str_at(d, "whenNotMatched"@) && opt_doc_view(
        o.let_vars,
    ) == doc_at(d, "let"@)
}

/// Whether options are what the argument of a `$densify` stage spells.
pub open spec fn densify_read(v: BsonView, o: DensifyOptions) -> bool {
    v matches BsonView::Document(d) && str_at(d, "field"@) == Some(o.field@) && doc_at(
        d,
        "range"@,
    ) == Some(o.range@)
}

/// Whether options are what the argument of a `$fill` stage spells.
pub open spec fn fill_read(v: BsonView, o: FillOptions) -> bool {
    v matches BsonView::Document(d) && doc_at(d, "output"@) == Some(o.output@) && opt_doc_view(
        o.partition_by,
    ) == doc_at(d, "partitionBy"@) && opt_strings_view(o.partition_by_fields) == strings_at(
        d,
        "partitionByFields"@,
    ) && opt_doc_view(o.sort_by) == doc_at(d, "sortBy"@)
}

/// Whether a stage is what a stage document spells: the document has one
/// entry, the entry's name is the name of the stage, and the stage holds
/// the entry's argument.
pub open spec fn stage_read(doc: DocView, s: PipelineStage) -> bool
    decreases s,
{
    doc.len() == 1 && doc[0].0 == stage_name(s) && match s {
        PipelineStage::Limit(n) => count_of(doc[0].1) == Some(n),
        PipelineStage::Skip(n) => count_of(doc[0].1) == Some(n),
        PipelineStage::Unwind(o) => unwind_read(doc[0].1, o),
        PipelineStage::Lookup(o) => lookup_read(doc[0].1, o),
        PipelineStage::Count(f) => doc[0].1 == BsonView::String(f@),
        PipelineStage::Bucket(o) => bucket_read(doc[0].1, o),
        PipelineStage::BucketAuto(o) => bucket_auto_read(doc[0].1, o),
        PipelineStage::GraphLookup(o) => graph_lookup_read(doc[0].1, o),
        PipelineStage::Sample { size } => doc[0].1 matches BsonView::Document(d) && i32_at(
            d,
            "size"@,
        ) == Some(size),
        PipelineStage::Out(c) => doc[0].1 == BsonView::String(c@),
        PipelineStage::Merge(o) => merge_read(doc[0].1, o),
        PipelineStage::UnionWith(o) => union_with_read(doc[0].1, o),
        PipelineStage::Densify(o) => densify_read(doc[0].1, o),
        PipelineStage::Fill(o) => fill_read(doc[0].1, o),
        PipelineStage::CustomSql(_) => false,
        _ => stage_document(s) matches Some(d) && doc[0].1 == BsonView::Document(d),
    }
}

/// The option of an argument that is a document; `None` for the rest.
pub open spec fn as_doc(v: BsonView) -> Option<DocView> {
    match v {
        BsonView::Document(d) => Some(d),
        _ => None,
    }
}

/// Why the nested pipeline of `d` cannot be read, if it cannot: the
/// pipeline is the array of the first entry named `pipeline`, looked for
/// from index `i` on.
pub open spec fn nested_error_from(d: DocView, i: int) -> Option<PipelineError>
    decreases d, d.len() - i,
{
    if i < 0 || i >= d.len() {
        None
    } else if d[i].0 == "pipeline"@ {
        match d[i].1 {
            BsonView::Array(items) => pipeline_error(items, 0),
            _ => None,
        }
    } else {
        nested_error_from(d, i + 1)
    }
}

/// The nested pipeline is the array under `pipeline`.
pub proof fn lemma_nested_error(d: DocView, i: int)
    requires
        0 <= i <= d.len(),
    ensures
        nested_error_from(d, i) == (if crate::bson::position_from(d, "pipeline"@, i) < d.len() {
            match d[crate::bson::position_from(d, "pipeline"@, i)].1 {
                BsonView::Array(items) => pipeline_error(items, 0),
                _ => None,
            }
        } else {
            None
        }),
    decreases d.len() - i,
{
    if i < d.len() && d[i].0 != "pipeline"@ {
        lemma_nested_error(d, i + 1);
    }
}

/// Why the first item of a pipeline from index `i` on that cannot be read
/// cannot be read.
pub open spec fn pipeline_error(items: Seq<BsonView>, i: int) -> Option<PipelineError>
    decreases items, items.len() - i,
{
    if i < 0 || i >= items.len() {
        None
    } else {
        match items[i] {
            BsonView::Document(d) => match stage_error(d) {
                Some(e) => Some(e),
                None => pipeline_error(items, i + 1),
            },
            _ => Some(PipelineError::NotADocument),
        }
    }
}

/// Why the options of a stage cannot be read, if they cannot.
pub open spec fn options_error(name: Seq<char>, d: DocView) -> Option<PipelineError>
    decreases d, d.len() + 1,
{
    if name == "$unwind"@ {
        if str_at(d, "path"@).is_none() {
            Some(PipelineError::MissingOption)
        } else {
            None
        }
    } else if name == "$lookup"@ {
        if str_at(d, "from"@).is_none() || str_at(d, "localField"@).is_none() || str_at(
            d,
            "foreignField"@,
        ).is_none() || str_at(d, "as"@).is_none() {
            Some(PipelineError::MissingOption)
        } else {
            nested_error_from(d, 0)
        }
    } else if name == "$bucket"@ {
        if lookup(d, "groupBy"@).is_none() || array_at(d, "boundaries"@).is_none() {
            Some(PipelineError::MissingOption)
        } else {
            None
        }
    } else if name == "$bucketAuto"@ {
        if lookup(d, "groupBy"@).is_none() || i32_at(d, "buckets"@).is_none() {
            Some(PipelineError::MissingOption)
        } else {
            None
        }
    } else if name == "$graphLookup"@ {
        if str_at(d, "from"@).is_none() || lookup(d, "startWith"@).is_none() || str_at(
            d,
            "connectFromField"@,
        ).is_none() || str_at(d, "connectToField"@).is_none() || str_at(d, "as"@).is_none() {
            Some(PipelineError::MissingOption)
        } else {
            None
        }
    } else if name == "$sample"@ {
        if i32_at(d, "size"@).is_none() {
            Some(PipelineError::MissingOption)
        } else {
            None
        }
    } else if name == "$merge"@ {
        if str_at(d, "into"@).is_none() {
            Some(PipelineError::MissingOption)
        } else {
            None
        }
    } else if name == "$unionWith"@ {
        if str_at(d, "coll"@).is_none() {
            Some(PipelineError::MissingOption)
        } else {
            nested_error_from(d, 0)
        }
    } else if name == "$densify"@ {
        if str_at(d, "field"@).is_none() || doc_at(d, "range"@).is_none() {
            Some(PipelineError::MissingOption)
        } else {
            None
        }
    } else if name == "$fill"@ {
        if doc_at(d, "output"@).is_none() {
            Some(PipelineError::MissingOption)
        } else {
            None
        }
    } else {
        None
    }
}

/// Why a stage document cannot be read, if it cannot.
///
/// A document with no entry or with several gives `NotOneOperator`; a name
/// that is not known gives `UnknownStage`; an argument of the wrong type
/// gives `InvalidArgument`; an option that a stage needs and does not find
/// gives `MissingOption`; a nested pipeline gives what its first stage that
/// cannot be read gives.
pub open spec fn stage_error(doc: DocView) -> Option<PipelineError>
    decreases doc, doc.len() + 2,
{
    if doc.len() != 1 {
        Some(PipelineError::NotOneOperator)
    } else {
        let name = doc[0].0;
        let v = doc[0].1;
        if !is_known_stage(name) {
            Some(PipelineError::UnknownStage)
        } else if is_document_stage(name) {
            if v is Document {
                None
            } else {
                Some(PipelineError::InvalidArgument)
            }
        } else if name == "$limit"@ || name == "$skip"@ {
            if count_of(v).is_some() {
                None
            } else {
                Some(PipelineError::InvalidArgument)
            }
        } else if name == "$count"@ || name == "$out"@ {
            if v is String {
                None
            } else {
                Some(PipelineError::InvalidArgument)
            }
        } else if name == "$unwind"@ && v is String {
            None
        } else {
            match v {
                BsonView::Document(d) => options_error(name, d),
                _ => Some(PipelineError::InvalidArgument),
            }
        }
    }
}

/// A stage that was read agrees with the document it was read from.
pub open spec fn read_matches(r: Result<PipelineStage, PipelineError>, doc: DocView) -> bool {
    match r {
        Ok(s) => stage_error(doc).is_none() && stage_read(doc, s),
        Err(e) => stage_error(doc) == Some(e),
    }
}

/// Stages that were read agree with the items they were read from.
pub open spec fn pipeline_matches(
    r: Result<Vec<PipelineStage>, PipelineError>,
    items: Seq<BsonView>,
) -> bool {
    match r {
        Ok(s) => pipeline_error(items, 0).is_none() && pipeline_read(items, s@),
        Err(e) => pipeline_error(items, 0) == Some(e),
    }
}

/// A pipeline and its options.
#[derive(Debug, PartialEq)]
pub struct AggregationPipeline {
    pub stages: Vec<PipelineStage>,
    pub options: PipelineOptions,
}

/// A copy of the string under `k`.
pub fn get_string(d: &Document, k: &str) -> (r: Option<String>)
    ensures
        opt_string_view(r) == str_at(d@, k@),
{
    match d.get(k) {
        Some(Bson::String(s)) => Some(s.clone()),
        _ => None,
    }
}

/// A copy of the document under `k`.
pub fn get_doc(d: &Document, k: &str) -> (r: Option<Document>)
    ensures
        opt_doc_view(r) == doc_at(d@, k@),
{
    match d.get(k) {
        Some(Bson::Document(x)) => {
            proof {
                lemma_view_document(*x);
            }
            Some(x.clone_document())
        },
        _ => None,
    }
}

/// The boolean under `k`.
pub fn get_flag(d: &Document, k: &str) -> (r: Option<bool>)
    ensures
        r == bool_at(d@, k@),
{
    match d.get(k) {
        Some(Bson::Boolean(b)) => Some(*b),
        _ => None,
    }
}

/// The 32-bit integer under `k`.
pub fn get_int(d: &Document, k: &str) -> (r: Option<i32>)
    ensures
        r == i32_at(d@, k@),
{
    match d.get(k) {
        Some(Bson::Int32(b)) => Some(*b),
        _ => None,
    }
}

/// A copy of the value under `k`.
pub fn get_value(d: &Document, k: &str) -> (r: Option<Bson>)
    ensures
        opt_bson_view(r) == lookup(d@, k@),
{
    match d.get(k) {
        Some(v) => Some(v.clone_value()),
        None => None,
    }
}

/// Copies of the values of a list.
pub fn clone_values(items: &Vec<Bson>) -> (r: Vec<Bson>)
    ensures
        values_view(r@) == values_view(items@),
{
    let mut out: Vec<Bson> = Vec::new();
    let mut i: usize = 0;
    while i < items.len()
        invariant
            i <= items.len(),
            out@.len() == i,
            forall|j: int| 0 <= j < i ==> out@[j]@ == items@[j]@,
        decreases items.len() - i,
    {
        out.push(items[i].clone_value());
        i = i + 1;
    }
    assert(values_view(out@) =~= values_view(items@));
    out
}

/// Copies of the strings of the array under `k`.
pub fn get_strings(d: &Document, k: &str) -> (r: Option<Vec<String>>)
    ensures
        opt_strings_view(r) == strings_at(d@, k@),
{
    match d.get(k) {
        Some(Bson::Array(items)) => {
            proof {
                lemma_view_array(*items);
            }
            let ghost iv = values_view(items@);
            let mut out: Vec<String> = Vec::new();
            let mut i: usize = 0;
            while i < items.len()
                invariant
                    i <= items.len(),
                    iv == values_view(items@),
                    strings_view(out@) == strings_of(iv.take(i as int)),
                decreases items.len() - i,
            {
                proof {
                    assert(iv.take(i + 1).drop_last() =~= iv.take(i as int));
                    assert(iv.take(i + 1).last() == items@[i as int]@);
                }
                match &items[i] {
                    Bson::String(s) => {
                        let ghost before = strings_view(out@);
                        out.push(s.clone());
                        assert(strings_view(out@) =~= before.push(s@));
                    },
                    _ => {},
                }
                i = i + 1;
            }
            assert(iv.take(items@.len() as int) =~= iv);
            Some(out)
        },
        _ => None,
    }
}

/// The count that a stage argument holds.
pub fn get_count(v: &Bson) -> (r: Option<i32>)
    ensures
        r == count_of(v@),
{
    match v {
        Bson::Int32(n) => {
            if *n >= 0 {
                Some(*n)
            } else {
                None
            }
        },
        Bson::Int64(n) => {
            if 0 <= *n && *n <= 2147483647 {
                Some(*n as i32)
            } else {
                None
            }
        },
        _ => None,
    }
}

impl AggregationPipeline {
    /// A pipeline without stages.
    pub fn new() -> (r: Self)
        ensures
            r.stages@.len() == 0,
            nothing_chosen(r.options),
    {
        AggregationPipeline { stages: Vec::new(), options: PipelineOptions::default() }
    }

    /// Reads a pipeline from the items of an array.
    ///
    /// Every item has to be a stage document. The first item that cannot be
    /// read decides the error.
    pub fn from_bson_array(items: &Vec<Bson>) -> (r: Result<Self, PipelineError>)
        ensures
            match r {
                Ok(p) => pipeline_error(values_view(items@), 0).is_none() && pipeline_read(
                    values_view(items@),
                    p.stages@,
                ) && nothing_chosen(p.options),
                Err(e) => pipeline_error(values_view(items@), 0) == Some(e),
            },
    {
        match Self::parse_stages(items) {
            Ok(stages) => Ok(AggregationPipeline { stages, options: PipelineOptions::default() }),
            Err(e) => Err(e),
        }
    }

    /// Reads the stages that the items of an array spell.
    #[verifier::loop_isolation(false)]
    pub fn parse_stages(items: &Vec<Bson>) -> (r: Result<Vec<PipelineStage>, PipelineError>)
        ensures
            pipeline_matches(r, values_view(items@)),
        decreases items, 0int,
    {
        let ghost iv = values_view(items@);
        let mut out: Vec<PipelineStage> = Vec::new();
        let mut i: usize = 0;
        while i < items.len()
            invariant
                i <= items.len(),
                out@.len() == i,
                pipeline_error(iv, 0) == pipeline_error(iv, i as int),
                forall|j: int|
                    0 <= j < i ==> (#[trigger] iv[j] matches BsonView::Document(d) && stage_read(
                        d,
                        out@[j],
                    )),
            decreases items.len() - i,
        {
            match &items[i] {
                Bson::Document(d) => {
                    proof {
                        lemma_view_document(*d);
                    }
                    match Self::parse_stage(d) {
                        Ok(s) => {
                            out.push(s);
                        },
                        Err(e) => {
                            return Err(e);
                        },
                    }
                },
                _ => {
                    return Err(PipelineError::NotADocument);
                },
            }
            i = i + 1;
        }
        Ok(out)
    }

    /// Reads the nested pipeline of the options `d`.
    pub fn parse_nested(d: &Document) -> (r: Result<Option<Vec<PipelineStage>>, PipelineError>)
        ensures
            match r {
                Ok(p) => nested_error_from(d@, 0).is_none() && nested_read(d@, p),
                Err(e) => nested_error_from(d@, 0) == Some(e),
            },
        decreases d, 1int,
    {
        proof {
            lemma_nested_error(d@, 0);
            lemma_position(d@, "pipeline"@);
        }
        match d.find("pipeline") {
            None => Ok(None),
            Some(i) => match &d.entries[i].1 {
                Bson::Array(items) => {
                    proof {
                        lemma_view_array(*items);
                    }
                    match Self::parse_stages(items) {
                        Ok(s) => Ok(Some(s)),
                        Err(e) => Err(e),
                    }
                },
                _ => Ok(None),
            },
        }
    }

    /// Reads the options of an `$unwind` stage.
    pub fn parse_unwind_stage(v: &Bson) -> (r: Result<UnwindOptions, PipelineError>)
        ensures
            match r {
                Ok(o) => unwind_read(v@, o),
                Err(e) => match v@ {
                    BsonView::String(_) => false,
                    BsonView::Document(d) => e == PipelineError::MissingOption && str_at(
                        d,
                        "path"@,
                    ).is_none(),
                    _ => e == PipelineError::InvalidArgument,
                },
            },
    {
        match v {
            Bson::String(path) => Ok(
                UnwindOptions {
                    path: path.clone(),
                    include_array_index: None,
                    preserve_null_and_empty_arrays: None,
                },
            ),
            Bson::Document(doc) => {
                proof {
                    lemma_view_document(*doc);
                }
                let path = match get_string(doc, "path") {
                    Some(p) => p,
                    None => {
                        return Err(PipelineError::MissingOption);
                    },
                };
                Ok(
                    UnwindOptions {
                        path,
                        include_array_index: get_string(doc, "includeArrayIndex"),
                        preserve_null_and_empty_arrays: get_flag(
                            doc,
                            "preserveNullAndEmptyArrays",
                        ),
                    },
                )
            },
            _ => Err(PipelineError::InvalidArgument),
        }
    }

    /// Reads the options of a `$lookup` stage.
    pub fn parse_lookup_stage(doc: &Document) -> (r: Result<LookupOptions, PipelineError>)
        ensures
            match r {
                Ok(o) => options_error("$lookup"@, doc@).is_none() && lookup_read(
                    BsonView::Document(doc@),
                    o,
                ),
                Err(e) => options_error("$lookup"@, doc@) == Some(e),
            },
        decreases doc, 2int,
    {
        proof {
            reveal_strlit("$lookup");
            reveal_strlit("$unwind");
            assert("$lookup"@[1] != "$unwind"@[1]);
        }
        let from = get_string(doc, "from");
        let local_field = get_string(doc, "localField");
        let foreign_field = get_string(doc, "foreignField");
        let as_field = get_string(doc, "as");
        match (from, local_field, foreign_field, as_field) {
            (Some(from), Some(local_field), Some(foreign_field), Some(as_field)) => {
                let pipeline = match Self::parse_nested(doc) {
                    Ok(p) => p,
                    Err(e) => {
                        return Err(e);
                    },
                };
                Ok(
                    LookupOptions {
                        from,
                        local_field,
                        foreign_field,
                        as_field,
                        pipeline,
                        let_vars: get_doc(doc, "let"),
                    },
                )
            },
            _ => Err(PipelineError::MissingOption),
        }
    }

    /// Reads the options of a `$bucket` stage.
    pub fn parse_bucket_stage(doc: &Document) -> (r: Result<BucketOptions, PipelineError>)
        ensures
            match r {
                Ok(o) => bucket_read(BsonView::Document(doc@), o),
                Err(e) => e == PipelineError::MissingOption && (lookup(doc@, "groupBy"@).is_none()
                    || array_at(doc@, "boundaries"@).is_none()),
            },
    {
        let group_by = match get_value(doc, "groupBy") {
            Some(v) => v,
            None => {
                return Err(PipelineError::MissingOption);
            },
        };
        let boundaries = match doc.get("boundaries") {
            Some(Bson::Array(items)) => {
                proof {
                    lemma_view_array(*items);
                }
                clone_values(items)
            },
            _ => {
                return Err(PipelineError::MissingOption);
            },
        };
        Ok(
            BucketOptions {
                group_by,
                boundaries,
                default: get_value(doc, "default"),
                output: get_doc(doc, "output"),
            },
        )
    }

    /// Reads the options of a `$bucketAuto` stage.
    pub fn parse_bucket_auto_stage(doc: &Document) -> (r: Result<BucketAutoOptions, PipelineError>)
        ensures
            match r {
                Ok(o) => bucket_auto_read(BsonView::Document(doc@), o),
                Err(e) => e == PipelineError::MissingOption && (lookup(doc@, "groupBy"@).is_none()
                    || i32_at(doc@, "buckets"@).is_none()),
            },
    {
        let group_by = match get_value(doc, "groupBy") {
            Some(v) => v,
            None => {
                return Err(PipelineError::MissingOption);
            },
        };
        let buckets = match get_int(doc, "buckets") {
            Some(b) => b,
            None => {
                return Err(PipelineError::MissingOption);
            },
        };
        Ok(
            BucketAutoOptions {
                group_by,
                buckets,
                output: get_doc(doc, "output"),
                granularity: get_string(doc, "granularity"),
            },
        )
    }

    /// Reads the options of a `$graphLookup` stage.
    pub fn parse_graph_lookup_stage(doc: &Document) -> (r: Result<
        GraphLookupOptions,
        PipelineError,
    >)
        ensures
            match r {
                Ok(o) => graph_lookup_read(BsonView::Document(doc@), o),
                Err(e) => e == PipelineError::MissingOption && (str_at(doc@, "from"@).is_none()
                    || lookup(doc@, "startWith"@).is_none() || str_at(
                    doc@,
                    "connectFromField"@,
                ).is_none() || str_at(doc@, "connectToField"@).is_none() || str_at(
                    doc@,
                    "as"@,
                ).is_none()),
            },
    {
        let from = get_string(doc, "from");
        let start_with = get_value(doc, "startWith");
        let connect_from_field = get_string(doc, "connectFromField");
        let connect_to_field = get_string(doc, "connectToField");
        let as_field = get_string(doc, "as");
        match (from, start_with, connect_from_field, connect_to_field, as_field) {
            (
                Some(from),
                Some(start_with),
                Some(connect_from_field),
                Some(connect_to_field),
                Some(as_field),
            ) => Ok(
                GraphLookupOptions {
                    from,
                    start_with,
                    connect_from_field,
                    connect_to_field,
                    as_field,
                    max_depth: get_int(doc, "maxDepth"),
                    depth_field: get_string(doc, "depthField"),
                    restrict_search_with_match: get_doc(doc, "restrictSearchWithMatch"),
                },
            ),
            _ => Err(PipelineError::MissingOption),
        }
    }

    /// Reads the size of a `$sample` stage.
    pub fn parse_sample_stage(doc: &Document) -> (r: Result<i32, PipelineError>)
        ensures
            match r {
                Ok(n) => i32_at(doc@, "size"@) == Some(n),
                Err(e) => e == PipelineError::MissingOption && i32_at(doc@, "size"@).is_none(),
            },
    {
        match get_int(doc, "size") {
            Some(n) => Ok(n),
            None => Err(PipelineError::MissingOption),
        }
    }

    /// Reads the options of a `$merge` stage.
    pub fn parse_merge_stage(doc: &Document) -> (r: Result<MergeOptions, PipelineError>)
        ensures
            match r {
                Ok(o) => merge_read(BsonView::Document(doc@), o),
                Err(e) => e == PipelineError::MissingOption && str_at(doc@, "into"@).is_none(),
            },
    {
        let into = match get_string(doc, "into") {
            Some(s) => s,
            None => {
                return Err(PipelineError::MissingOption);
            },
        };
        Ok(
            MergeOptions {
                into,
                on: get_strings(doc, "on"),
                when_matched: get_string(doc, "whenMatched"),
                when_not_matched: get_string(doc, "whenNotMatched"),
                let_vars: get_doc(doc, "let"),
            },
        )
    }

    /// Reads the options of a `$unionWith` stage.
    pub fn parse_union_with_stage(doc: &Document) -> (r: Result<UnionWithOptions, PipelineError>)
        ensures
            match r {
                Ok(o) => (str_at(doc@, "coll"@).is_some() && nested_error_from(doc@, 0).is_none())
                    && union_with_read(BsonView::Document(doc@), o),
                Err(e) => if str_at(doc@, "coll"@).is_none() {
                    e == PipelineError::MissingOption
                } else {
                    nested_error_from(doc@, 0) == Some(e)
                },
            },
        decreases doc, 2int,
    {
        let coll = match get_string(doc, "coll") {
            Some(s) => s,
            None => {
                return Err(PipelineError::MissingOption);
            },
        };
        let pipeline = match Self::parse_nested(doc) {
            Ok(p) => p,
            Err(e) => {
                return Err(e);
            },
        };
        Ok(UnionWithOptions { coll, pipeline })
    }

    /// Reads the options of a `$densify` stage.
    pub fn parse_densify_stage(doc: &Document) -> (r: Result<DensifyOptions, PipelineError>)
        ensures
            match r {
                Ok(o) => densify_read(BsonView::Document(doc@), o),
                Err(e) => e == PipelineError::MissingOption && (str_at(doc@, "field"@).is_none()
                    || doc_at(doc@, "range"@).is_none()),
            },
    {
        let field = match get_string(doc, "field") {
            Some(s) => s,
            None => {
                return Err(PipelineError::MissingOption);
            },
        };
        let range = match get_doc(doc, "range") {
            Some(d) => d,
            None => {
                return Err(PipelineError::MissingOption);
            },
        };
        Ok(DensifyOptions { field, range })
    }

    /// Reads the options of a `$fill` stage.
    pub fn parse_fill_stage(doc: &Document) -> (r: Result<FillOptions, PipelineError>)
        ensures
            match r {
                Ok(o) => fill_read(BsonView::Document(doc@), o),
                Err(e) => e == PipelineError::MissingOption && doc_at(doc@, "output"@).is_none(),
            },
    {
        let output = match get_doc(doc, "output") {
            Some(d) => d,
            None => {
                return Err(PipelineError::MissingOption);
            },
        };
        Ok(
            FillOptions {
                output,
                partition_by: get_doc(doc, "partitionBy"),
                partition_by_fields: get_strings(doc, "partitionByFields"),
                sort_by: get_doc(doc, "sortBy"),
            },
        )
    }

    /// Reads one stage from its document.
    ///
    /// The document has to hold one entry: the name of a known stage and an
    /// argument of the type that the stage takes. The stage that is
    /// returned holds a copy of the argument, or the options read from it.
    pub fn parse_stage(doc: &Document) -> (r: Result<PipelineStage, PipelineError>)
        ensures
            read_matches(r, doc@),
        decreases doc, 3int,
    {
        if doc.entries.len() != 1 {
            return Err(PipelineError::NotOneOperator);
        }
        let name = doc.entries[0].0.as_str();
        let v = &doc.entries[0].1;
        let is_match = str_eq(name, "$match");
        let is_group = str_eq(name, "$group");
        let is_project = str_eq(name, "$project");
        let is_sort = str_eq(name, "$sort");
        let is_add_fields = str_eq(name, "$addFields");
        let is_replace_root = str_eq(name, "$replaceRoot");
        let is_coll_stats = str_eq(name, "$collStats");
        let is_facet = str_eq(name, "$facet");
        let is_redact = str_eq(name, "$redact");
        let is_set = str_eq(name, "$set");
        let is_unset = str_eq(name, "$unset");
        let is_replace_with = str_eq(name, "$replaceWith");
        let is_limit = str_eq(name, "$limit");
        let is_skip = str_eq(name, "$skip");
        let is_unwind = str_eq(name, "$unwind");
        let is_lookup = str_eq(name, "$lookup");
        let is_count = str_eq(name, "$count");
        let is_bucket = str_eq(name, "$bucket");
        let is_bucket_auto = str_eq(name, "$bucketAuto");
        let is_graph_lookup = str_eq(name, "$graphLookup");
        let is_sample = str_eq(name, "$sample");
        let is_out = str_eq(name, "$out");
        let is_merge = str_eq(name, "$merge");
        let is_union_with = str_eq(name, "$unionWith");
        let is_densify = str_eq(name, "$densify");
        let is_fill = str_eq(name, "$fill");
        let document_stage = is_match || is_group || is_project || is_sort || is_add_fields
            || is_replace_root || is_coll_stats || is_facet || is_redact || is_set || is_unset
            || is_replace_with;
        let known = document_stage || is_limit || is_skip || is_unwind || is_lookup || is_count
            || is_bucket || is_bucket_auto || is_graph_lookup || is_sample || is_out || is_merge
            || is_union_with || is_densify || is_fill;
        if !known {
            return Err(PipelineError::UnknownStage);
        }
        if document_stage {
            let d = match v {
                Bson::Document(d) => {
                    proof {
                        lemma_view_document(*d);
                    }
                    d.clone_document()
                },
                _ => {
                    return Err(PipelineError::InvalidArgument);
                },
            };
            return Ok(
                if is_match {
                    PipelineStage::Match(d)
                } else if is_group {
                    PipelineStage::Group(d)
                } else if is_project {
                    PipelineStage::Project(d)
                } else if is_sort {
                    PipelineStage::Sort(d)
                } else if is_add_fields {
                    PipelineStage::AddFields(d)
                } else if is_replace_root {
                    PipelineStage::ReplaceRoot(d)
                } else if is_coll_stats {
                    PipelineStage::CollStats(d)
                } else if is_facet {
                    PipelineStage::Facet(d)
                } else if is_redact {
                    PipelineStage::Redact(d)
                } else if is_set {
                    PipelineStage::SetFields(d)
                } else if is_unset {
                    PipelineStage::Unset(d)
                } else {
                    PipelineStage::ReplaceWith(d)
                },
            );
        }
        if is_limit || is_skip {
            return match get_count(v) {
                Some(n) => Ok(
                    if is_limit {
                        PipelineStage::Limit(n)
                    } else {
                        PipelineStage::Skip(n)
                    },
                ),
                None => Err(PipelineError::InvalidArgument),
            };
        }
        if is_count || is_out {
            return match v {
                Bson::String(s) => Ok(
                    if is_count {
                        PipelineStage::Count(s.clone())
                    } else {
                        PipelineStage::Out(s.clone())
                    },
                ),
                _ => Err(PipelineError::InvalidArgument),
            };
        }
        if is_unwind {
            return match Self::parse_unwind_stage(v) {
                Ok(o) => Ok(PipelineStage::Unwind(o)),
                Err(e) => Err(e),
            };
        }
        let d = match v {
            Bson::Document(d) => {
                proof {
                    lemma_view_document(*d);
                }
                d
            },
            _ => {
                return Err(PipelineError::InvalidArgument);
            },
        };
        if is_lookup {
            match Self::parse_lookup_stage(d) {
                Ok(o) => Ok(PipelineStage::Lookup(o)),
                Err(e) => Err(e),
            }
        } else if is_bucket {
            match Self::parse_bucket_stage(d) {
                Ok(o) => Ok(PipelineStage::Bucket(o)),
                Err(e) => Err(e),
            }
        } else if is_bucket_auto {
            match Self::parse_bucket_auto_stage(d) {
                Ok(o) => Ok(PipelineStage::BucketAuto(o)),
                Err(e) => Err(e),
            }
        } else if is_graph_lookup {
            match Self::parse_graph_lookup_stage(d) {
                Ok(o) => Ok(PipelineStage::GraphLookup(o)),
                Err(e) => Err(e),
            }
        } else if is_sample {
            match Self::parse_sample_stage(d) {
                Ok(size) => Ok(PipelineStage::Sample { size }),
                Err(e) => Err(e),
            }
        } else if is_merge {
            match Self::parse_merge_stage(d) {
                Ok(o) => Ok(PipelineStage::Merge(o)),
                Err(e) => Err(e),
            }
        } else if is_union_with {
            match Self::parse_union_with_stage(d) {
                Ok(o) => Ok(PipelineStage::UnionWith(o)),
                Err(e) => Err(e),
            }
        } else if is_densify {
            match Self::parse_densify_stage(d) {
                Ok(o) => Ok(PipelineStage::Densify(o)),
                Err(e) => Err(e),
            }
        } else {
            match Self::parse_fill_stage(d) {
                Ok(o) => Ok(PipelineStage::Fill(o)),
                Err(e) => Err(e),
            }
        }
    }
}

/// Whether a stage name is known.
pub fn is_known_stage_name(name: &str) -> (r: bool)
    ensures
        r == is_known_stage(name@),
{
    str_eq(name, "$match") || str_eq(name, "$group") || str_eq(name, "$project") || str_eq(
        name,
        "$sort",
    ) || str_eq(name, "$addFields") || str_eq(name, "$replaceRoot") || str_eq(name, "$collStats")
        || str_eq(name, "$facet") || str_eq(name, "$redact") || str_eq(name, "$set") || str_eq(
        name,
        "$unset",
    ) || str_eq(name, "$replaceWith") || str_eq(name, "$limit") || str_eq(name, "$skip")
        || str_eq(name, "$unwind") || str_eq(name, "$lookup") || str_eq(name, "$count") || str_eq(
        name,
        "$bucket",
    ) || str_eq(name, "$bucketAuto") || str_eq(name, "$graphLookup") || str_eq(name, "$sample")
        || str_eq(name, "$out") || str_eq(name, "$merge") || str_eq(name, "$unionWith") || str_eq(
        name,
        "$densify",
    ) || str_eq(name, "$fill")
}

impl Default for AggregationPipeline {
    fn default() -> (r: Self)
        ensures
            r.stages@.len() == 0,
            nothing_chosen(r.options),
    {
        Self::new()
    }
}

} // verus!
