//! The stages of a pipeline, run in the process on documents in memory.
//!
//! Every stage takes the documents that the stage before it has produced,
//! in order, and produces the documents for the stage after it.

use crate::bson::{
    docs_view, lemma_view_array, lemma_view_document, lookup, str_eq, values_view, Bson, BsonView,
    DocView, Document,
};
use crate::aggregation_pipeline::{is_known_stage, is_known_stage_name};
use crate::filter::{
    compare, compare_values, document_matches, first_failure, matches_filter, select, FilterError,
};
use crate::numeric::{compare_i64, compare_ints, Comparison};
use vstd::prelude::*;

verus! {

/// Runs pipelines on documents in memory.
#[derive(Debug)]
pub struct AggregationEngine {}

/// A stage by its name, with its argument.
#[derive(Debug)]
pub struct AggregationStage {
    pub stage_type: String,
    pub parameters: Document,
}

/// What a pipeline has produced.
#[derive(Debug)]
pub struct AggregationResult {
    pub documents: Vec<Document>,
    pub cursor_id: Option<i64>,
    pub total_docs: i64,
    pub processing_time_ms: u64,
}

/// Why a pipeline cannot be run.
#[derive(Debug, Clone, Copy, PartialEq, Eq, Structural)]
pub enum AggregationError {
    /// A stage document without an entry.
    EmptyStage,
    /// A stage name that is not known.
    UnknownStage,
    /// A stage that is read and not run.
    NotImplemented,
    /// A stage whose argument has the wrong type or a value out of range.
    InvalidArgument,
    /// A filter that cannot be evaluated.
    Filter(FilterError),
    /// A projection that both includes and excludes fields.
    MixedProjection,
    /// A sum or an average that needs arithmetic on doubles.
    DoubleArithmetic,
    /// A sum beyond the range of 64-bit integers.
    Overflow,
}

/// What a filter does to a list of documents: the documents that it
/// matches, in order. A filter that cannot be evaluated gives its error,
/// also where there is no document to try it on.
pub open spec fn match_stage(filter: DocView, docs: Seq<DocView>) -> Result<
    Seq<DocView>,
    AggregationError,
> {
    match matches_filter(filter, Seq::empty()) {
        Err(e) => Err(AggregationError::Filter(e)),
        Ok(_) => match first_failure(filter, docs, 0) {
            Some(e) => Err(AggregationError::Filter(e)),
            None => Ok(select(filter, docs)),
        },
    }
}

/// What a projection says of a field.
pub enum Projected {
    /// The field is named with 1 or `true`.
    Include,
    /// The field is named with 0 or `false`.
    Exclude,
    /// The field is named with an expression.
    Expression,
}

/// The bits of the double 1.0.
pub const ONE_BITS: u64 = 0x3FF0_0000_0000_0000;

/// The bits of the double -0.0.
pub const NEGATIVE_ZERO_BITS: u64 = 0x8000_0000_0000_0000;

/// What a value says in a projection.
pub open spec fn projected(v: BsonView) -> Projected {
    match v {
        BsonView::Int32(i) => if i == 1 {
            Projected::Include
        } else if i == 0 {
            Projected::Exclude
        } else {
            Projected::Expression
        },
        BsonView::Int64(i) => if i == 1 {
            Projected::Include
        } else if i == 0 {
            Projected::Exclude
        } else {
            Projected::Expression
        },
        BsonView::Double(b) => if b == ONE_BITS {
            Projected::Include
        } else if b == 0 || b == NEGATIVE_ZERO_BITS {
            Projected::Exclude
        } else {
            Projected::Expression
        },
        BsonView::Boolean(b) => if b {
            Projected::Include
        } else {
            Projected::Exclude
        },
        _ => Projected::Expression,
    }
}

/// Number of fields other than `_id`, from index `i` on, that a projection
/// names with the given verdict.
pub open spec fn verdict_count(p: DocView, positive: bool, i: int) -> int
    decreases p.len() - i,
{
    if i < 0 || i >= p.len() {
        0
    } else {
        let hit = p[i].0 != "_id"@ && (if positive {
            projected(p[i].1) is Include
        } else {
            projected(p[i].1) is Exclude
        });
        (if hit {
            1int
        } else {
            0int
        }) + verdict_count(p, positive, i + 1)
    }
}

/// Whether some field from index `i` on is named with an expression.
pub open spec fn has_expression(p: DocView, i: int) -> bool
    decreases p.len() - i,
{
    if i < 0 || i >= p.len() {
        false
    } else {
        projected(p[i].1) is Expression || has_expression(p, i + 1)
    }
}

/// Whether a projection keeps the field `name`.
///
/// A projection that includes keeps the fields that it names with 1, and
/// `_id` unless it names `_id` with 0. A projection that only excludes
/// keeps the fields that it does not name with 0.
pub open spec fn keeps(p: DocView, name: Seq<char>) -> bool {
    let inclusive = verdict_count(p, true, 0) > 0;
    match lookup(p, name) {
        Some(v) => projected(v) is Include,
        None => !inclusive || name == "_id"@,
    }
}

/// The entries of a document, from the first up to index `n`, that a
/// projection keeps.
pub open spec fn project_entries(p: DocView, d: DocView, n: int) -> DocView
    decreases n,
{
    if n <= 0 || n > d.len() {
        Seq::empty()
    } else if keeps(p, d[n - 1].0) {
        project_entries(p, d, n - 1).push(d[n - 1])
    } else {
        project_entries(p, d, n - 1)
    }
}

/// Why a projection cannot be applied, if it cannot.
pub open spec fn projection_error(p: DocView) -> Option<AggregationError> {
    if has_expression(p, 0) {
        Some(AggregationError::NotImplemented)
    } else if verdict_count(p, true, 0) > 0 && verdict_count(p, false, 0) > 0 {
        Some(AggregationError::MixedProjection)
    } else {
        None
    }
}

/// A document as a projection leaves it.
pub open spec fn project_document(p: DocView, d: DocView) -> DocView {
    project_entries(p, d, d.len() as int)
}

/// The documents as a projection leaves them.
pub open spec fn project_all(p: DocView, docs: Seq<DocView>) -> Seq<DocView> {
    Seq::new(docs.len(), |i: int| project_document(p, docs[i]))
}

/// The number behind a count stage.
pub open spec fn count_value(n: nat) -> BsonView {
    if n <= i32::MAX {
        BsonView::Int32(n as i32)
    } else {
        BsonView::Int64(n as i64)
    }
}

/// The name of the field that a path like `$field` points to; `None`
/// where the path does not start with `$` or names nothing.
pub open spec fn field_of_path(path: Seq<char>) -> Option<Seq<char>> {
    if path.len() >= 2 && path[0] == '$' {
        Some(path.skip(1))
    } else {
        None
    }
}

/// The index of an item as a 64-bit integer.
pub open spec fn index_value(i: int) -> i64 {
    if i <= i64::MAX {
        i as i64
    } else {
        i64::MAX
    }
}

/// A document with one item of its array in the place of the array, and
/// the item's index under `index_field` where one is asked for.
pub open spec fn unwound(d: DocView, field: Seq<char>, item: BsonView, index: int, index_field: Option<Seq<char>>) -> DocView {
    let with_item = crate::bson::with_entry(d, field, item);
    match index_field {
        Some(f) => crate::bson::with_entry(with_item, f, BsonView::Int64(index_value(index))),
        None => with_item,
    }
}

/// What unwinding makes of one document: one document for each item of
/// the array under `field`. A document without the field, or with a value
/// there that is no array, or with an empty array, is dropped, or kept as
/// it is where `preserve` says so.
pub open spec fn unwind_document(d: DocView, field: Seq<char>, index_field: Option<Seq<char>>, preserve: bool) -> Seq<DocView> {
    match lookup(d, field) {
        Some(BsonView::Array(items)) => if items.len() == 0 {
            if preserve {
                seq![d]
            } else {
                Seq::empty()
            }
        } else {
            Seq::new(items.len(), |i: int| unwound(d, field, items[i], i, index_field))
        },
        _ => if preserve {
            seq![d]
        } else {
            Seq::empty()
        },
    }
}

/// What unwinding makes of the first `n` documents of a list.
pub open spec fn unwind_all(docs: Seq<DocView>, field: Seq<char>, index_field: Option<Seq<char>>, preserve: bool, n: int) -> Seq<DocView>
    decreases n,
{
    if n <= 0 || n > docs.len() {
        Seq::empty()
    } else {
        unwind_all(docs, field, index_field, preserve, n - 1) + unwind_document(
            docs[n - 1],
            field,
            index_field,
            preserve,
        )
    }
}

/// Documents that a stage has produced agree with what the model says.
pub open spec fn stage_matches(
    r: Result<Vec<Document>, AggregationError>,
    m: Result<Seq<DocView>, AggregationError>,
) -> bool {
    match r {
        Ok(out) => m == Ok::<Seq<DocView>, AggregationError>(docs_view(out@)),
        Err(e) => m == Err::<Seq<DocView>, AggregationError>(e),
    }
}

/// What a `$match` stage with the argument `arg` makes of `docs`.
pub open spec fn run_match(arg: Option<BsonView>, docs: Seq<DocView>) -> Result<
    Seq<DocView>,
    AggregationError,
> {
    match arg {
        Some(BsonView::Document(f)) => match_stage(f, docs),
        _ => Err(AggregationError::InvalidArgument),
    }
}

/// The smaller of a count and a length.
pub open spec fn at_most(n: i32, len: nat) -> int {
    if n < len {
        n as int
    } else {
        len as int
    }
}

/// What a `$limit` stage with the argument `arg` makes of `docs`.
pub open spec fn run_limit(arg: Option<BsonView>, docs: Seq<DocView>) -> Result<
    Seq<DocView>,
    AggregationError,
> {
    match arg {
        Some(v) => match crate::aggregation_pipeline::count_of(v) {
            Some(n) => Ok(docs.take(at_most(n, docs.len()))),
            None => Err(AggregationError::InvalidArgument),
        },
        None => Err(AggregationError::InvalidArgument),
    }
}

/// What a `$skip` stage with the argument `arg` makes of `docs`.
pub open spec fn run_skip(arg: Option<BsonView>, docs: Seq<DocView>) -> Result<
    Seq<DocView>,
    AggregationError,
> {
    match arg {
        Some(v) => match crate::aggregation_pipeline::count_of(v) {
            Some(n) => Ok(docs.skip(at_most(n, docs.len()))),
            None => Err(AggregationError::InvalidArgument),
        },
        None => Err(AggregationError::InvalidArgument),
    }
}

/// What a `$project` stage with the argument `arg` makes of `docs`.
pub open spec fn run_project(arg: Option<BsonView>, docs: Seq<DocView>) -> Result<
    Seq<DocView>,
    AggregationError,
> {
    match arg {
        Some(BsonView::Document(p)) => match projection_error(p) {
            Some(e) => Err(e),
            None => Ok(project_all(p, docs)),
        },
        _ => Err(AggregationError::InvalidArgument),
    }
}

/// What a `$count` stage with the argument `arg` makes of `docs`.
pub open spec fn run_count(arg: Option<BsonView>, docs: Seq<DocView>) -> Result<
    Seq<DocView>,
    AggregationError,
> {
    match arg {
        Some(BsonView::String(name)) => Ok(seq![seq![(name, count_value(docs.len()))]]),
        _ => Err(AggregationError::InvalidArgument),
    }
}

/// What a value says in a projection.
pub fn projection_verdict(v: &Bson) -> (r: Projected)
    ensures
        r == projected(v@),
{
    match v {
        Bson::Int32(i) => {
            if *i == 1 {
                Projected::Include
            } else if *i == 0 {
                Projected::Exclude
            } else {
                Projected::Expression
            }
        },
        Bson::Int64(i) => {
            if *i == 1 {
                Projected::Include
            } else if *i == 0 {
                Projected::Exclude
            } else {
                Projected::Expression
            }
        },
        Bson::Double(b) => {
            if *b == ONE_BITS {
                Projected::Include
            } else if *b == 0 || *b == NEGATIVE_ZERO_BITS {
                Projected::Exclude
            } else {
                Projected::Expression
            }
        },
        Bson::Boolean(b) => {
            if *b {
                Projected::Include
            } else {
                Projected::Exclude
            }
        },
        _ => Projected::Expression,
    }
}

/// What kind a projection is: whether it names a field other than `_id`
/// with 1, and whether it can be applied.
pub fn projection_mode(p: &Document) -> (r: Result<bool, AggregationError>)
    ensures
        match r {
            Ok(inclusive) => projection_error(p@).is_none() && inclusive == (verdict_count(
                p@,
                true,
                0,
            ) > 0),
            Err(e) => projection_error(p@) == Some(e),
        },
{
    let mut includes: usize = 0;
    let mut excludes: usize = 0;
    let mut expression = false;
    let mut i: usize = p.len();
    while i > 0
        invariant
            i <= p@.len(),
            includes == verdict_count(p@, true, i as int),
            excludes == verdict_count(p@, false, i as int),
            expression == has_expression(p@, i as int),
            includes <= p@.len() - i,
            excludes <= p@.len() - i,
        decreases i,
    {
        i = i - 1;
        let is_id = str_eq(p.key_at(i), "_id");
        match projection_verdict(p.value_at(i)) {
            Projected::Include => {
                if !is_id {
                    includes = includes + 1;
                }
            },
            Projected::Exclude => {
                if !is_id {
                    excludes = excludes + 1;
                }
            },
            Projected::Expression => {
                expression = true;
            },
        }
    }
    if expression {
        Err(AggregationError::NotImplemented)
    } else if includes > 0 && excludes > 0 {
        Err(AggregationError::MixedProjection)
    } else {
        Ok(includes > 0)
    }
}

/// A document as a projection leaves it.
pub fn project_one(p: &Document, inclusive: bool, d: &Document) -> (r: Document)
    requires
        inclusive == (verdict_count(p@, true, 0) > 0),
    ensures
        r@ == project_document(p@, d@),
{
    let mut out = Document::new();
    let mut i: usize = 0;
    while i < d.len()
        invariant
            i <= d@.len(),
            inclusive == (verdict_count(p@, true, 0) > 0),
            out@ == project_entries(p@, d@, i as int),
        decreases d@.len() - i,
    {
        let name = d.key_at(i);
        let keep = match p.get(name) {
            Some(v) => match projection_verdict(v) {
                Projected::Include => true,
                _ => false,
            },
            None => !inclusive || str_eq(name, "_id"),
        };
        if keep {
            out.push(name.to_owned(), d.value_at(i).clone_value());
        }
        i = i + 1;
    }
    out
}

impl AggregationEngine {
    /// An engine.
    pub fn new() -> (r: Self) {
        AggregationEngine {  }
    }

    /// Runs a `$match` stage: keeps the documents that the filter under
    /// `$match` matches, in their order.
    pub fn process_match_stage(&self, input: &Vec<Document>, stage: &Document) -> (r: Result<
        Vec<Document>,
        AggregationError,
    >)
        ensures
            stage_matches(r, run_match(lookup(stage@, "$match"@), docs_view(input@))),
    {
        match stage.get_document("$match") {
            Ok(f) => match_documents(input, f),
            Err(_) => Err(AggregationError::InvalidArgument),
        }
    }

    /// Runs a `$limit` stage: keeps the first documents, as many as the
    /// count under `$limit` says.
    pub fn process_limit_stage(&self, input: &Vec<Document>, stage: &Document) -> (r: Result<
        Vec<Document>,
        AggregationError,
    >)
        ensures
            stage_matches(r, run_limit(lookup(stage@, "$limit"@), docs_view(input@))),
    {
        let n = match stage.get("$limit") {
            Some(v) => match crate::aggregation_pipeline::get_count(v) {
                Some(n) => n as usize,
                None => {
                    return Err(AggregationError::InvalidArgument);
                },
            },
            None => {
                return Err(AggregationError::InvalidArgument);
            },
        };
        let end = if n < input.len() {
            n
        } else {
            input.len()
        };
        Ok(copy_range(input, 0, end))
    }

    /// Runs a `$skip` stage: drops the first documents, as many as the
    /// count under `$skip` says.
    pub fn process_skip_stage(&self, input: &Vec<Document>, stage: &Document) -> (r: Result<
        Vec<Document>,
        AggregationError,
    >)
        ensures
            stage_matches(r, run_skip(lookup(stage@, "$skip"@), docs_view(input@))),
    {
        let n = match stage.get("$skip") {
            Some(v) => match crate::aggregation_pipeline::get_count(v) {
                Some(n) => n as usize,
                None => {
                    return Err(AggregationError::InvalidArgument);
                },
            },
            None => {
                return Err(AggregationError::InvalidArgument);
            },
        };
        let start = if n < input.len() {
            n
        } else {
            input.len()
        };
        let out = copy_range(input, start, input.len());
        assert(docs_view(input@).subrange(start as int, input@.len() as int) =~= docs_view(
            input@,
        ).skip(start as int));
        Ok(out)
    }

    /// Runs a `$project` stage: every document keeps the fields that the
    /// projection under `$project` keeps, in the document's own order.
    pub fn process_project_stage(&self, input: &Vec<Document>, stage: &Document) -> (r: Result<
        Vec<Document>,
        AggregationError,
    >)
        ensures
            stage_matches(r, run_project(lookup(stage@, "$project"@), docs_view(input@))),
    {
        match stage.get_document("$project") {
            Ok(p) => project_documents(input, p),
            Err(_) => Err(AggregationError::InvalidArgument),
        }
    }

    /// Runs a `$count` stage: one document with the number of documents
    /// that came in, under the name that stands under `$count`.
    pub fn process_count_stage(&self, input: &Vec<Document>, stage: &Document) -> (r: Result<
        Vec<Document>,
        AggregationError,
    >)
        ensures
            stage_matches(r, run_count(lookup(stage@, "$count"@), docs_view(input@))),
    {
        let name = match stage.get_str("$count") {
            Ok(n) => n,
            Err(_) => {
                return Err(AggregationError::InvalidArgument);
            },
        };
        let n = input.len();
        let value = if n <= 2147483647 {
            Bson::Int32(n as i32)
        } else {
            Bson::Int64(n as i64)
        };
        let mut d = Document::new();
        d.push(name.to_owned(), value);
        let mut out: Vec<Document> = Vec::new();
        out.push(d);
        assert(docs_view(out@) =~= seq![seq![(name@, count_value(input@.len()))]]);
        Ok(out)
    }
}

/// The documents that a filter matches, in their order.
#[verifier::loop_isolation(false)]
pub fn match_documents(input: &Vec<Document>, filter: &Document) -> (r: Result<
    Vec<Document>,
    AggregationError,
>)
    ensures
        stage_matches(r, match_stage(filter@, docs_view(input@))),
{
    let empty = Document::new();
    match document_matches(filter, &empty) {
        Err(e) => {
            return Err(AggregationError::Filter(e));
        },
        Ok(_) => {},
    }
    let ghost dv = docs_view(input@);
    let mut out: Vec<Document> = Vec::new();
    let mut i: usize = 0;
    while i < input.len()
        invariant
            i <= input.len(),
            first_failure(filter@, dv, 0) == first_failure(filter@, dv, i as int),
            docs_view(out@) == select(filter@, dv.take(i as int)),
        decreases input.len() - i,
    {
        proof {
            assert(dv.take(i + 1).drop_last() =~= dv.take(i as int));
            assert(dv.take(i + 1).last() == input@[i as int]@);
        }
        match document_matches(filter, &input[i]) {
            Err(e) => {
                return Err(AggregationError::Filter(e));
            },
            Ok(hit) => {
                if hit {
                    let ghost before = docs_view(out@);
                    out.push(input[i].clone_document());
                    assert(docs_view(out@) =~= before.push(input@[i as int]@));
                }
            },
        }
        i = i + 1;
    }
    assert(dv.take(input@.len() as int) =~= dv);
    Ok(out)
}

/// The documents as a projection leaves them.
pub fn project_documents(input: &Vec<Document>, p: &Document) -> (r: Result<
    Vec<Document>,
    AggregationError,
>)
    ensures
        stage_matches(r, run_project(Some(BsonView::Document(p@)), docs_view(input@))),
{
    let inclusive = match projection_mode(p) {
        Ok(m) => m,
        Err(e) => {
            return Err(e);
        },
    };
    let mut out: Vec<Document> = Vec::new();
    let mut i: usize = 0;
    while i < input.len()
        invariant
            i <= input.len(),
            inclusive == (verdict_count(p@, true, 0) > 0),
            out@.len() == i,
            forall|j: int| 0 <= j < i ==> out@[j]@ == project_document(p@, input@[j]@),
        decreases input.len() - i,
    {
        out.push(project_one(p, inclusive, &input[i]));
        i = i + 1;
    }
    assert(docs_view(out@) =~= project_all(p@, docs_view(input@)));
    Ok(out)
}

/// Copies of the documents from `start` up to `end`.
pub fn copy_range(docs: &Vec<Document>, start: usize, end: usize) -> (r: Vec<Document>)
    requires
        start <= end <= docs@.len(),
    ensures
        docs_view(r@) == docs_view(docs@).subrange(start as int, end as int),
{
    let mut out: Vec<Document> = Vec::new();
    let mut i: usize = start;
    while i < end
        invariant
            start <= i <= end,
            end <= docs@.len(),
            out@.len() == i - start,
            forall|j: int| 0 <= j < i - start ==> out@[j]@ == docs@[start + j]@,
        decreases end - i,
    {
        out.push(docs[i].clone_document());
        i = i + 1;
    }
    assert(docs_view(out@) =~= docs_view(docs@).subrange(start as int, end as int));
    out
}

/// Whether a sort key is ascending; `None` for a direction other than 1
/// and -1.
pub open spec fn direction_of(v: BsonView) -> Option<bool> {
    match v {
        BsonView::Int32(i) => if i == 1 {
            Some(true)
        } else if i == -1 {
            Some(false)
        } else {
            None
        },
        BsonView::Int64(i) => if i == 1 {
            Some(true)
        } else if i == -1 {
            Some(false)
        } else {
            None
        },
        _ => None,
    }
}

/// Whether every key of a sort document from index `i` on has a direction.
pub open spec fn directions_ok(s: DocView, i: int) -> bool
    decreases s.len() - i,
{
    if i < 0 || i >= s.len() {
        true
    } else {
        direction_of(s[i].1).is_some() && directions_ok(s, i + 1)
    }
}

/// The place of a value's type in the order of types; a missing value
/// stands with null, before everything else.
pub open spec fn type_rank(v: Option<BsonView>) -> int {
    match v {
        None => 0,
        Some(BsonView::Null) => 0,
        Some(BsonView::Int32(_)) => 1,
        Some(BsonView::Int64(_)) => 1,
        Some(BsonView::Double(_)) => 1,
        Some(BsonView::String(_)) => 2,
        Some(BsonView::Document(_)) => 3,
        Some(BsonView::Array(_)) => 4,
        Some(BsonView::Binary(_, _)) => 5,
        Some(BsonView::ObjectId(_)) => 6,
        Some(BsonView::Boolean(_)) => 7,
        Some(BsonView::DateTime(_)) => 8,
        Some(BsonView::Timestamp(_, _)) => 9,
        Some(BsonView::Regex(_, _)) => 10,
    }
}

/// How two values stand to each other in a sort: by the order of their
/// types first, then as filters compare them; values that filters cannot
/// compare count as equal.
pub open spec fn order_values(a: Option<BsonView>, b: Option<BsonView>) -> Comparison {
    if type_rank(a) != type_rank(b) {
        compare_ints(type_rank(a), type_rank(b))
    } else {
        match (a, b) {
            (Some(x), Some(y)) => match compare_values(x, y) {
                Some(c) => c,
                None => Comparison::Equal,
            },
            _ => Comparison::Equal,
        }
    }
}

/// The opposite of a comparison.
pub open spec fn reversed(c: Comparison) -> Comparison {
    match c {
        Comparison::Less => Comparison::Greater,
        Comparison::Equal => Comparison::Equal,
        Comparison::Greater => Comparison::Less,
    }
}

/// How two documents stand to each other by the keys of a sort document
/// from index `i` on: the first key on which they differ decides.
pub open spec fn compare_documents(a: DocView, b: DocView, s: DocView, i: int) -> Comparison
    decreases s.len() - i,
{
    if i < 0 || i >= s.len() {
        Comparison::Equal
    } else {
        let c = order_values(lookup(a, s[i].0), lookup(b, s[i].0));
        if c != Comparison::Equal {
            if direction_of(s[i].1) == Some(false) {
                reversed(c)
            } else {
                c
            }
        } else {
            compare_documents(a, b, s, i + 1)
        }
    }
}

/// A sorted list with one more document: the document stands behind the
/// last document that is not greater than it.
pub open spec fn insert_sorted(sorted: Seq<DocView>, d: DocView, s: DocView) -> Seq<DocView>
    decreases sorted.len(),
{
    if sorted.len() == 0 || compare_documents(sorted.last(), d, s, 0) != Comparison::Greater {
        sorted.push(d)
    } else {
        insert_sorted(sorted.drop_last(), d, s).push(sorted.last())
    }
}

/// The first `n` documents of a list in the order of a sort document.
/// Documents that are equal by every key keep the order they came in.
pub open spec fn sorted_prefix(docs: Seq<DocView>, s: DocView, n: int) -> Seq<DocView>
    decreases n,
{
    if n <= 0 || n > docs.len() {
        Seq::empty()
    } else {
        insert_sorted(sorted_prefix(docs, s, n - 1), docs[n - 1], s)
    }
}

/// What a `$sort` stage with the argument `arg` makes of `docs`.
pub open spec fn run_sort(arg: Option<BsonView>, docs: Seq<DocView>) -> Result<
    Seq<DocView>,
    AggregationError,
> {
    match arg {
        Some(BsonView::Document(s)) => if directions_ok(s, 0) {
            Ok(sorted_prefix(docs, s, docs.len() as int))
        } else {
            Err(AggregationError::InvalidArgument)
        },
        _ => Err(AggregationError::InvalidArgument),
    }
}

/// What an `$unwind` stage with the argument `arg` makes of `docs`.
pub open spec fn run_unwind(arg: Option<BsonView>, docs: Seq<DocView>) -> Result<
    Seq<DocView>,
    AggregationError,
> {
    match arg {
        Some(BsonView::String(path)) => match field_of_path(path) {
            Some(f) => Ok(unwind_all(docs, f, None, false, docs.len() as int)),
            None => Err(AggregationError::InvalidArgument),
        },
        Some(BsonView::Document(o)) => match crate::aggregation_pipeline::str_at(o, "path"@) {
            Some(path) => match field_of_path(path) {
                Some(f) => Ok(
                    unwind_all(
                        docs,
                        f,
                        crate::aggregation_pipeline::str_at(o, "includeArrayIndex"@),
                        crate::aggregation_pipeline::bool_at(o, "preserveNullAndEmptyArrays"@)
                            == Some(true),
                        docs.len() as int,
                    ),
                ),
                None => Err(AggregationError::InvalidArgument),
            },
            None => Err(AggregationError::InvalidArgument),
        },
        _ => Err(AggregationError::InvalidArgument),
    }
}

/// What one stage makes of `docs`. The name of the stage is the name of
/// the first entry of its document. A stage that is known and not run in
/// the process gives `NotImplemented`; a name that is not known gives
/// `UnknownStage`.
pub open spec fn run_stage(stage: DocView, docs: Seq<DocView>) -> Result<
    Seq<DocView>,
    AggregationError,
> {
    if stage.len() == 0 {
        Err(AggregationError::EmptyStage)
    } else {
        let name = stage[0].0;
        let arg = lookup(stage, name);
        if name == "$match"@ {
            run_match(arg, docs)
        } else if name == "$sort"@ {
            run_sort(arg, docs)
        } else if name == "$limit"@ {
            run_limit(arg, docs)
        } else if name == "$skip"@ {
            run_skip(arg, docs)
        } else if name == "$project"@ {
            run_project(arg, docs)
        } else if name == "$count"@ {
            run_count(arg, docs)
        } else if name == "$unwind"@ {
            run_unwind(arg, docs)
        } else if name == "$group"@ {
            crate::grouping::run_group(arg, docs)
        } else if is_known_stage(name) {
            Err(AggregationError::NotImplemented)
        } else {
            Err(AggregationError::UnknownStage)
        }
    }
}

/// What the stages of a pipeline from index `i` on make of `docs`.
pub open spec fn run_pipeline(stages: Seq<DocView>, docs: Seq<DocView>, i: int) -> Result<
    Seq<DocView>,
    AggregationError,
>
    decreases stages.len() - i,
{
    if i < 0 || i >= stages.len() {
        Ok(docs)
    } else {
        match run_stage(stages[i], docs) {
            Err(e) => Err(e),
            Ok(next) => run_pipeline(stages, next, i + 1),
        }
    }
}

/// Whether a sort key is ascending.
pub fn sort_direction(v: &Bson) -> (r: Option<bool>)
    ensures
        r == direction_of(v@),
{
    match v {
        Bson::Int32(i) => {
            if *i == 1 {
                Some(true)
            } else if *i == -1 {
                Some(false)
            } else {
                None
            }
        },
        Bson::Int64(i) => {
            if *i == 1 {
                Some(true)
            } else if *i == -1 {
                Some(false)
            } else {
                None
            }
        },
        _ => None,
    }
}

/// The model of a value that may be missing.
pub open spec fn maybe_view(v: Option<&Bson>) -> Option<BsonView> {
    match v {
        Some(x) => Some(x@),
        None => None,
    }
}

/// The place of a value's type in the order of types.
pub fn rank_of(v: Option<&Bson>) -> (r: i64)
    ensures
        r == type_rank(maybe_view(v)),
{
    match v {
        None => 0,
        Some(Bson::Null) => 0,
        Some(Bson::Int32(_)) => 1,
        Some(Bson::Int64(_)) => 1,
        Some(Bson::Double(_)) => 1,
        Some(Bson::String(_)) => 2,
        Some(Bson::Document(_)) => 3,
        Some(Bson::Array(_)) => 4,
        Some(Bson::Binary { .. }) => 5,
        Some(Bson::ObjectId(_)) => 6,
        Some(Bson::Boolean(_)) => 7,
        Some(Bson::DateTime(_)) => 8,
        Some(Bson::Timestamp { .. }) => 9,
        Some(Bson::Regex { .. }) => 10,
    }
}

/// How two values stand to each other in a sort.
pub fn order(a: Option<&Bson>, b: Option<&Bson>) -> (r: Comparison)
    ensures
        r == order_values(maybe_view(a), maybe_view(b)),
{
    let ra = rank_of(a);
    let rb = rank_of(b);
    if ra != rb {
        return compare_i64(ra, rb);
    }
    match (a, b) {
        (Some(x), Some(y)) => match compare(x, y) {
            Some(c) => c,
            None => Comparison::Equal,
        },
        _ => Comparison::Equal,
    }
}

/// How two documents stand to each other by the keys of a sort document.
pub fn compare_by(a: &Document, b: &Document, s: &Document) -> (r: Comparison)
    ensures
        r == compare_documents(a@, b@, s@, 0),
{
    let mut i: usize = 0;
    while i < s.len()
        invariant
            i <= s@.len(),
            compare_documents(a@, b@, s@, i as int) == compare_documents(a@, b@, s@, 0),
        decreases s@.len() - i,
    {
        let key = s.key_at(i);
        let c = order(a.get(key), b.get(key));
        match c {
            Comparison::Equal => {},
            Comparison::Less => {
                return match sort_direction(s.value_at(i)) {
                    Some(false) => Comparison::Greater,
                    _ => Comparison::Less,
                };
            },
            Comparison::Greater => {
                return match sort_direction(s.value_at(i)) {
                    Some(false) => Comparison::Less,
                    _ => Comparison::Greater,
                };
            },
        }
        i = i + 1;
    }
    Comparison::Equal
}

/// Whether `a` comes behind `b` by the keys of a sort document.
pub fn is_greater(a: &Document, b: &Document, s: &Document) -> (r: bool)
    ensures
        r == (compare_documents(a@, b@, s@, 0) == Comparison::Greater),
{
    match compare_by(a, b, s) {
        Comparison::Greater => true,
        _ => false,
    }
}

/// Where a document goes into a sorted list: behind the last document that
/// is not greater than it.
proof fn lemma_insert_at(sorted: Seq<DocView>, d: DocView, s: DocView, i: int)
    requires
        0 <= i <= sorted.len(),
        i == 0 || compare_documents(sorted[i - 1], d, s, 0) != Comparison::Greater,
        forall|j: int|
            i <= j < sorted.len() ==> compare_documents(#[trigger] sorted[j], d, s, 0)
                == Comparison::Greater,
    ensures
        insert_sorted(sorted, d, s) == sorted.insert(i, d),
    decreases sorted.len() - i,
{
    if i == sorted.len() {
        assert(sorted.push(d) =~= sorted.insert(i, d));
    } else {
        let front = sorted.drop_last();
        assert forall|j: int| i <= j < front.len() implies compare_documents(
            #[trigger] front[j],
            d,
            s,
            0,
        ) == Comparison::Greater by {
            assert(front[j] == sorted[j]);
        }
        if i > 0 {
            assert(front[i - 1] == sorted[i - 1]);
        }
        lemma_insert_at(front, d, s, i);
        assert(compare_documents(sorted[sorted.len() - 1], d, s, 0) == Comparison::Greater);
        assert(front.insert(i, d).push(sorted.last()) =~= sorted.insert(i, d));
    }
}

/// The documents in the order of a sort document.
#[verifier::loop_isolation(false)]
pub fn sort_documents(input: &Vec<Document>, s: &Document) -> (r: Result<
    Vec<Document>,
    AggregationError,
>)
    ensures
        stage_matches(r, run_sort(Some(BsonView::Document(s@)), docs_view(input@))),
{
    let mut k: usize = s.len();
    while k > 0
        invariant
            k <= s@.len(),
            directions_ok(s@, k as int),
        decreases k,
    {
        k = k - 1;
        if sort_direction(s.value_at(k)).is_none() {
            proof {
                lemma_bad_direction(s@, k as int, 0);
            }
            return Err(AggregationError::InvalidArgument);
        }
    }
    let ghost dv = docs_view(input@);
    let mut out: Vec<Document> = Vec::new();
    let mut n: usize = 0;
    while n < input.len()
        invariant
            n <= input.len(),
            out@.len() == n,
            docs_view(out@) == sorted_prefix(dv, s@, n as int),
        decreases input.len() - n,
    {
        let d = &input[n];
        let mut i: usize = out.len();
        while i > 0 && is_greater(&out[i - 1], d, s)
            invariant
                i <= out@.len(),
                forall|j: int|
                    i <= j < out@.len() ==> compare_documents(
                        #[trigger] docs_view(out@)[j],
                        d@,
                        s@,
                        0,
                    ) == Comparison::Greater,
            decreases i,
        {
            i = i - 1;
        }
        proof {
            lemma_insert_at(docs_view(out@), d@, s@, i as int);
        }
        let ghost before = docs_view(out@);
        out.insert(i, d.clone_document());
        assert(docs_view(out@) =~= before.insert(i as int, d@));
        n = n + 1;
    }
    Ok(out)
}

impl AggregationEngine {
    /// Runs a `$sort` stage: the documents in the order of the sort
    /// document under `$sort`. Documents that are equal by every key keep
    /// the order they came in.
    pub fn process_sort_stage(&self, input: &Vec<Document>, stage: &Document) -> (r: Result<
        Vec<Document>,
        AggregationError,
    >)
        ensures
            stage_matches(r, run_sort(lookup(stage@, "$sort"@), docs_view(input@))),
    {
        match stage.get_document("$sort") {
            Ok(s) => sort_documents(input, s),
            Err(_) => Err(AggregationError::InvalidArgument),
        }
    }

    /// Runs an `$unwind` stage: one document for each item of the array
    /// that the path under `$unwind` names.
    #[verifier::loop_isolation(false)]
    pub fn process_unwind_stage(&self, input: &Vec<Document>, stage: &Document) -> (r: Result<
        Vec<Document>,
        AggregationError,
    >)
        ensures
            stage_matches(r, run_unwind(lookup(stage@, "$unwind"@), docs_view(input@))),
    {
        let (path, index_field, preserve): (&str, Option<&str>, bool) = match stage.get(
            "$unwind",
        ) {
            Some(Bson::String(p)) => (p.as_str(), None, false),
            Some(Bson::Document(o)) => {
                proof {
                    lemma_view_document(*o);
                }
                let p = match o.get("path") {
                    Some(Bson::String(p)) => p.as_str(),
                    _ => {
                        return Err(AggregationError::InvalidArgument);
                    },
                };
                let idx: Option<&str> = match o.get("includeArrayIndex") {
                    Some(Bson::String(f)) => Some(f.as_str()),
                    _ => None,
                };
                let keep = match o.get("preserveNullAndEmptyArrays") {
                    Some(Bson::Boolean(b)) => *b,
                    _ => false,
                };
                (p, idx, keep)
            },
            _ => {
                return Err(AggregationError::InvalidArgument);
            },
        };
        let len = path.unicode_len();
        if len < 2 || path.get_char(0) != '$' {
            return Err(AggregationError::InvalidArgument);
        }
        let field = path.substring_char(1, len);
        assert(field@ =~= path@.skip(1));
        let ghost fv = field@;
        let ghost iv: Option<Seq<char>> = match index_field {
            Some(f) => Some(f@),
            None => None,
        };
        let ghost dv = docs_view(input@);
        let mut out: Vec<Document> = Vec::new();
        let mut n: usize = 0;
        while n < input.len()
            invariant
                n <= input.len(),
                docs_view(out@) == unwind_all(dv, fv, iv, preserve, n as int),
            decreases input.len() - n,
        {
            let d = &input[n];
            let ghost before = docs_view(out@);
            match d.get(field) {
                Some(Bson::Array(items)) => {
                    proof {
                        lemma_view_array(*items);
                    }
                    if items.len() == 0 {
                        if preserve {
                            out.push(d.clone_document());
                            assert(docs_view(out@) =~= before + seq![d@]);
                        } else {
                            assert(docs_view(out@) =~= before + Seq::<DocView>::empty());
                        }
                    } else {
                        let ghost items_view = values_view(items@);
                        let mut j: usize = 0;
                        while j < items.len()
                            invariant
                                j <= items.len(),
                                docs_view(out@) == before + Seq::new(
                                    j as nat,
                                    |i: int| unwound(d@, fv, items_view[i], i, iv),
                                ),
                            decreases items.len() - j,
                        {
                            let ghost so_far = docs_view(out@);
                            let mut c = d.clone_document();
                            c.insert(field, items[j].clone_value());
                            match index_field {
                                Some(f) => {
                                    let wide: u64 = j as u64;
                                    let at: i64 = if wide <= 0x7fff_ffff_ffff_ffff {
                                        wide as i64
                                    } else {
                                        0x7fff_ffff_ffff_ffff
                                    };
                                    c.insert(f, Bson::Int64(at));
                                },
                                None => {},
                            }
                            assert(items_view[j as int] == items@[j as int]@);
                            assert(c@ == unwound(d@, fv, items_view[j as int], j as int, iv));
                            out.push(c);
                            assert(docs_view(out@) =~= so_far.push(c@));
                            assert(so_far.push(c@) =~= before + Seq::new(
                                (j + 1) as nat,
                                |i: int| unwound(d@, fv, items_view[i], i, iv),
                            ));
                            j = j + 1;
                        }
                    }
                },
                _ => {
                    if preserve {
                        out.push(d.clone_document());
                        assert(docs_view(out@) =~= before + seq![d@]);
                    } else {
                        assert(docs_view(out@) =~= before + Seq::<DocView>::empty());
                    }
                },
            }
            n = n + 1;
        }
        Ok(out)
    }

    /// Runs a `$group` stage: one document for each value of the key
    /// under `_id`, with a field for each accumulator.
    pub fn process_group_stage(&self, input: &Vec<Document>, stage: &Document) -> (r: Result<
        Vec<Document>,
        AggregationError,
    >)
        ensures
            stage_matches(
                r,
                crate::grouping::run_group(lookup(stage@, "$group"@), docs_view(input@)),
            ),
    {
        crate::grouping::group_documents(input, stage.get("$group"))
    }

    /// Runs a stage that is read and has no part in the process.
    pub fn process_lookup_stage(&self, input: &Vec<Document>, stage: &Document) -> (r: Result<
        Vec<Document>,
        AggregationError,
    >)
        ensures
            r matches Err(AggregationError::NotImplemented),
    {
        Err(AggregationError::NotImplemented)
    }

    /// Runs one stage on the documents that came in.
    pub fn process_stage(&self, input: &Vec<Document>, stage: &Document) -> (r: Result<
        Vec<Document>,
        AggregationError,
    >)
        ensures
            stage_matches(r, run_stage(stage@, docs_view(input@))),
    {
        let name = match stage.first_key() {
            Some(k) => k,
            None => {
                return Err(AggregationError::EmptyStage);
            },
        };
        if str_eq(name, "$match") {
            self.process_match_stage(input, stage)
        } else if str_eq(name, "$sort") {
            self.process_sort_stage(input, stage)
        } else if str_eq(name, "$limit") {
            self.process_limit_stage(input, stage)
        } else if str_eq(name, "$skip") {
            self.process_skip_stage(input, stage)
        } else if str_eq(name, "$project") {
            self.process_project_stage(input, stage)
        } else if str_eq(name, "$count") {
            self.process_count_stage(input, stage)
        } else if str_eq(name, "$unwind") {
            self.process_unwind_stage(input, stage)
        } else if str_eq(name, "$group") {
            self.process_group_stage(input, stage)
        } else if is_known_stage_name(name) {
            Err(AggregationError::NotImplemented)
        } else {
            Err(AggregationError::UnknownStage)
        }
    }

    /// Runs a pipeline on the documents that are handed in: every stage
    /// works on what the stage before it has produced. The first stage
    /// that cannot be run decides the error.
    pub fn process_pipeline_with_input(&self, input_docs: &Vec<Document>, pipeline: &Vec<Document>) -> (r:
        Result<Vec<Document>, AggregationError>)
        ensures
            stage_matches(r, run_pipeline(docs_view(pipeline@), docs_view(input_docs@), 0)),
    {
        let mut results = crate::bson::clone_documents(input_docs);
        let ghost pv = docs_view(pipeline@);
        let mut i: usize = 0;
        while i < pipeline.len()
            invariant
                i <= pipeline.len(),
                pv == docs_view(pipeline@),
                run_pipeline(pv, docs_view(results@), i as int) == run_pipeline(
                    pv,
                    docs_view(input_docs@),
                    0,
                ),
            decreases pipeline.len() - i,
        {
            match self.process_stage(&results, &pipeline[i]) {
                Ok(next) => {
                    results = next;
                },
                Err(e) => {
                    return Err(e);
                },
            }
            i = i + 1;
        }
        Ok(results)
    }

    /// Runs a pipeline on the documents of a collection.
    pub fn process_pipeline(&self, collection: &Vec<Document>, pipeline: &Vec<Document>) -> (r:
        Result<Vec<Document>, AggregationError>)
        ensures
            stage_matches(r, run_pipeline(docs_view(pipeline@), docs_view(collection@), 0)),
    {
        self.process_pipeline_with_input(collection, pipeline)
    }
}

/// A sort document with a key that has no direction is not accepted.
proof fn lemma_bad_direction(s: DocView, k: int, i: int)
    requires
        0 <= i <= k < s.len(),
        direction_of(s[k].1).is_none(),
    ensures
        !directions_ok(s, i),
    decreases k - i,
{
    if i < k {
        lemma_bad_direction(s, k, i + 1);
    }
}

impl AggregationEngine {
    /// Whether a document satisfies the criteria of a filter.
    pub fn document_matches_criteria(&self, doc: &Document, criteria: &Document) -> (r: Result<
        bool,
        FilterError,
    >)
        ensures
            r == matches_filter(criteria@, doc@),
    {
        crate::filter::document_matches(criteria, doc)
    }

    /// Whether a document satisfies the condition on one field: a literal
    /// that the field has to equal, or a document of operators.
    pub fn evaluate_field_condition(&self, doc: &Document, field: &str, condition: &Bson) -> (r:
        Result<bool, FilterError>)
        ensures
            r == crate::filter::matches_entry(field@, condition@, doc@),
    {
        crate::filter::entry_matches(field, condition, doc)
    }

    /// How two values stand to each other; `None` where they cannot be
    /// compared.
    pub fn compare_values(&self, a: &Bson, b: &Bson) -> (r: Option<Comparison>)
        ensures
            r == crate::filter::compare_values(a@, b@),
    {
        crate::filter::compare(a, b)
    }
}

} // verus!
