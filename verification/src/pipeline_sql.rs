//! Pipelines as one statement for the backend.
//!
//! The stages `$match`, `$sort`, `$limit`, `$skip` and a `$project` that
//! names its fields with 1 and 0 can be handed to the backend. A pipeline
//! is lowered as far as it starts with such stages: the statement is a
//! chain of common table expressions, one for each stage in the order of
//! the pipeline, so that the order of the stages is the order in which the
//! backend applies them. The stages behind the lowered ones are left to
//! the engine that runs stages in the process.
//!
//! Field names and literals travel as parameters. The text holds the name
//! of the table, which is checked, and numbers.

use crate::aggregation::{
    direction_of, has_expression, projected, projection_error, projection_mode,
    projection_verdict, sort_direction, verdict_count, Projected,
};
use crate::aggregation_pipeline::{AggregationPipeline, PipelineStage};
use crate::bson::{lookup, Bson, BsonView, DocView, Document};
use crate::sql::{
    identifier_ok, literal_param, lowered, param_of_literal, push_entry, push_filter,
    sanitize_identifier, table_name, with_entry_sql, with_param, with_text, ParamView, SqlError,
    SqlParam, SqlQuery, SqlView,
};
use crate::text::{decimal, u64_to_string};
use vstd::prelude::*;
use vstd::utf8::encode_utf8;

verus! {

/// Whether a stage can be handed to the backend.
pub open spec fn is_pushable(s: PipelineStage) -> bool {
    match s {
        PipelineStage::Match(_) => true,
        PipelineStage::Sort(_) => true,
        PipelineStage::Limit(_) => true,
        PipelineStage::Skip(_) => true,
        PipelineStage::Project(p) => !has_expression(p@, 0),
        _ => false,
    }
}

/// Number of stages from index `i` on up to the first one that cannot be
/// handed to the backend.
pub open spec fn pushable_from(stages: Seq<PipelineStage>, i: int) -> int
    decreases stages.len() - i,
{
    if i < 0 || i >= stages.len() || !is_pushable(stages[i]) {
        0
    } else {
        1 + pushable_from(stages, i + 1)
    }
}

/// Number of stages at the start of a pipeline that can be handed to the
/// backend.
pub open spec fn pushable_prefix(stages: Seq<PipelineStage>) -> int {
    pushable_from(stages, 0)
}

/// The statement with the sort keys of `s` from index `i` on: each field,
/// taken out of the JSON column, with its direction.
pub open spec fn with_sort_keys(q: SqlView, s: DocView, i: int) -> Result<SqlView, SqlError>
    decreases s.len() - i,
{
    if i < 0 || i >= s.len() {
        Ok(q)
    } else {
        match direction_of(s[i].1) {
            None => Err(SqlError::BadSortDirection),
            Some(up) => with_sort_keys(
                with_text(
                    with_param(
                        with_text(
                            if i > 0 {
                                with_text(q, ", "@)
                            } else {
                                q
                            },
                            "data -> "@,
                        ),
                        ParamView::Text(s[i].0),
                    ),
                    if up {
                        " ASC"@
                    } else {
                        " DESC"@
                    },
                ),
                s,
                i + 1,
            ),
        }
    }
}

/// The statement with a test for each field that `p` names with 1, from
/// index `i` on.
pub open spec fn with_included(q: SqlView, p: DocView, i: int) -> SqlView
    decreases p.len() - i,
{
    if i < 0 || i >= p.len() {
        q
    } else if projected(p[i].1) is Include {
        with_included(
            with_text(with_param(with_text(q, "key = "@), ParamView::Text(p[i].0)), " OR "@),
            p,
            i + 1,
        )
    } else {
        with_included(q, p, i + 1)
    }
}

/// The statement with each field that `p` names with 0, from index `i`
/// on, taken away from the JSON column.
pub open spec fn with_excluded(q: SqlView, p: DocView, i: int) -> SqlView
    decreases p.len() - i,
{
    if i < 0 || i >= p.len() {
        q
    } else if projected(p[i].1) is Exclude {
        with_excluded(with_param(with_text(q, " - "@), ParamView::Text(p[i].0)), p, i + 1)
    } else {
        with_excluded(q, p, i + 1)
    }
}

/// The statement with the column list of a projection.
///
/// A projection that includes gathers the fields that it names with 1,
/// and `_id` unless it names `_id` itself; one that only excludes takes
/// the fields that it names with 0 away. A projection that mixes both, or
/// holds an expression, has no column list.
pub open spec fn with_projection(q: SqlView, p: DocView) -> Result<SqlView, SqlError> {
    if projection_error(p).is_some() {
        Err(SqlError::BadOperand)
    } else if verdict_count(p, true, 0) > 0 {
        let a = with_included(
            with_text(
                q,
                "(SELECT COALESCE(jsonb_object_agg(key, value), '{}'::jsonb) FROM jsonb_each(data) WHERE "@,
            ),
            p,
            0,
        );
        let b = if lookup(p, "_id"@).is_none() {
            with_text(with_param(with_text(a, "key = "@), ParamView::Text("_id"@)), " OR "@)
        } else {
            a
        };
        Ok(with_text(b, "FALSE) AS data"@))
    } else {
        Ok(with_text(with_excluded(with_text(q, "data"@), p, 0), " AS data"@))
    }
}

/// The statement with the name of the step `i` of the chain.
pub open spec fn with_step_name(q: SqlView, i: nat) -> SqlView {
    with_text(with_text(q, "s"@), decimal(i))
}

/// The statement with the source of step `i`: the step before it.
pub open spec fn with_source(q: SqlView, i: nat) -> SqlView {
    with_step_name(with_text(q, " FROM "@), (i - 1) as nat)
}

/// The statement with step `i` of the chain, which applies one stage to
/// what the step before it gives.
pub open spec fn with_stage(q: SqlView, stage: PipelineStage, i: nat) -> Result<SqlView, SqlError> {
    let head = with_text(with_step_name(with_text(q, ", "@), i), " AS (SELECT "@);
    match stage {
        PipelineStage::Match(f) => match lowered(
            with_text(with_source(with_text(head, "data"@), i), " WHERE "@),
            f@,
        ) {
            Ok(x) => Ok(with_text(x, ")"@)),
            Err(e) => Err(e),
        },
        PipelineStage::Sort(s) => if s@.len() == 0 {
            Ok(with_text(with_source(with_text(head, "data"@), i), ")"@))
        } else {
            match with_sort_keys(
                with_text(with_source(with_text(head, "data"@), i), " ORDER BY "@),
                s@,
                0,
            ) {
                Ok(x) => Ok(with_text(x, ")"@)),
                Err(e) => Err(e),
            }
        },
        PipelineStage::Limit(n) => if n < 0 {
            Err(SqlError::BadOperand)
        } else {
            Ok(
                with_text(
                    with_text(
                        with_text(with_source(with_text(head, "data"@), i), " LIMIT "@),
                        decimal(n as nat),
                    ),
                    ")"@,
                ),
            )
        },
        PipelineStage::Skip(n) => if n < 0 {
            Err(SqlError::BadOperand)
        } else {
            Ok(
                with_text(
                    with_text(
                        with_text(with_source(with_text(head, "data"@), i), " OFFSET "@),
                        decimal(n as nat),
                    ),
                    ")"@,
                ),
            )
        },
        PipelineStage::Project(p) => match with_projection(head, p@) {
            Ok(x) => Ok(with_text(with_source(x, i), ")"@)),
            Err(e) => Err(e),
        },
        _ => Err(SqlError::UnsupportedStage),
    }
}

/// The statement with the steps for the stages from index `i` up to `n`.
pub open spec fn with_stages(q: SqlView, stages: Seq<PipelineStage>, i: int, n: int) -> Result<
    SqlView,
    SqlError,
>
    decreases n - i,
{
    if i < 0 || i >= n || i >= stages.len() {
        Ok(q)
    } else {
        match with_stage(q, stages[i], (i + 1) as nat) {
            Err(e) => Err(e),
            Ok(x) => with_stages(x, stages, i + 1, n),
        }
    }
}

/// The start of a statement over a table: step 0 of the chain reads the
/// JSON column of the table.
pub open spec fn table_source(table: Seq<char>) -> SqlView {
    with_text(
        with_text(
            SqlView { text: "WITH s0 AS (SELECT data FROM "@, params: Seq::empty() },
            table,
        ),
        ")"@,
    )
}

/// The statement that applies the first `n` stages of a pipeline to a
/// table and reads what the last step gives.
pub open spec fn pipeline_statement(table: Seq<char>, stages: Seq<PipelineStage>, n: int) -> Result<
    SqlView,
    SqlError,
> {
    match with_stages(table_source(table), stages, 0, n) {
        Err(e) => Err(e),
        Ok(x) => Ok(with_step_name(with_text(x, " SELECT data::text FROM "@), n as nat)),
    }
}

/// What the grouping of a statement by one field makes of it: the field
/// and the number of rows for each of its values.
pub open spec fn grouped_statement(q: SqlView, group: DocView) -> Result<SqlView, SqlError> {
    match lookup(group, "_id"@) {
        Some(BsonView::String(field)) => {
            let k = decimal((q.params.len() + 1) as nat);
            Ok(
                SqlView {
                    text: "SELECT grouped.data ->> $"@ + k
                        + " AS key, COUNT(*) AS count FROM ("@ + q.text
                        + ") AS grouped GROUP BY grouped.data ->> $"@ + k,
                    params: q.params.push(ParamView::Text(field)),
                },
            )
        },
        Some(_) => Err(SqlError::BadOperand),
        None => Err(SqlError::BadOperand),
    }
}

/// Appends a number.
pub fn push_number(q: &mut SqlQuery, n: u64)
    ensures
        final(q)@ == with_text(old(q)@, decimal(n as nat)),
{
    let digits = u64_to_string(n);
    q.push_text(digits.as_str());
}

/// Appends the name of step `i`.
fn push_step_name(q: &mut SqlQuery, i: u64)
    ensures
        final(q)@ == with_step_name(old(q)@, i as nat),
{
    q.push_text("s");
    push_number(q, i);
}

/// Appends the source of step `i`.
fn push_source(q: &mut SqlQuery, i: u64)
    requires
        i >= 1,
    ensures
        final(q)@ == with_source(old(q)@, i as nat),
{
    q.push_text(" FROM ");
    push_step_name(q, i - 1);
}

/// Number of stages at the start of a list that can be handed to the
/// backend.
pub fn count_pushable(stages: &Vec<PipelineStage>) -> (n: usize)
    ensures
        n == pushable_prefix(stages@),
        n <= stages@.len(),
{
    let mut i: usize = 0;
    while i < stages.len()
        invariant
            i <= stages@.len(),
            pushable_from(stages@, 0) == i + pushable_from(stages@, i as int),
        decreases stages@.len() - i,
    {
        let ok = match &stages[i] {
            PipelineStage::Match(_) => true,
            PipelineStage::Sort(_) => true,
            PipelineStage::Limit(_) => true,
            PipelineStage::Skip(_) => true,
            PipelineStage::Project(p) => match projection_mode(p) {
                Ok(_) => true,
                Err(e) => {
                    proof {
                        assert(projection_error(p@) == Some(e));
                    }
                    match e {
                        crate::aggregation::AggregationError::NotImplemented => false,
                        _ => true,
                    }
                },
            },
            _ => false,
        };
        if !ok {
            return i;
        }
        i = i + 1;
    }
    i
}

/// Appends the sort keys of a sort document: each field, taken out of the
/// JSON column, with its direction. A direction other than 1 and -1 gives
/// `BadSortDirection`.
pub fn push_sort_keys(q: &mut SqlQuery, sort_doc: &Document) -> (r: Result<(), SqlError>)
    ensures
        crate::sql::step_matches(r, old(q)@, final(q)@, with_sort_keys(old(q)@, sort_doc@, 0)),
{
    let mut i: usize = 0;
    while i < sort_doc.len()
        invariant
            i <= sort_doc@.len(),
            with_sort_keys(q@, sort_doc@, i as int) == with_sort_keys(old(q)@, sort_doc@, 0),
        decreases sort_doc@.len() - i,
    {
        let up = match sort_direction(sort_doc.value_at(i)) {
            Some(up) => up,
            None => {
                return Err(SqlError::BadSortDirection);
            },
        };
        if i > 0 {
            q.push_text(", ");
        }
        q.push_text("data -> ");
        q.push_param(SqlParam::Text(sort_doc.key_at(i).to_owned()));
        if up {
            q.push_text(" ASC");
        } else {
            q.push_text(" DESC");
        }
        i = i + 1;
    }
    Ok(())
}

impl AggregationPipeline {
    /// Whether the whole pipeline can be handed to the backend: every
    /// stage is `$match`, `$sort`, `$limit`, `$skip` or a `$project` that
    /// names its fields with 1 and 0.
    pub fn is_pushdown(&self) -> (r: bool)
        ensures
            r == (pushable_prefix(self.stages@) == self.stages@.len()),
    {
        count_pushable(&self.stages) == self.stages.len()
    }

    /// The statement that applies the stages at the start of the pipeline
    /// that can be handed to the backend to the table of a collection,
    /// and the number of those stages. The stages behind them are not in
    /// the statement: they are run on what the statement gives.
    ///
    /// A name that is no identifier gives `InvalidIdentifier`; a filter, a
    /// sort key or a projection that has no form in a statement gives its
    /// error.
    #[verifier::loop_isolation(false)]
    pub fn to_sql(&self, collection_name: &str) -> (r: Result<(SqlQuery, usize), SqlError>)
        ensures
            match r {
                Ok((q, n)) => {
                    &&& identifier_ok(encode_utf8(collection_name@))
                    &&& n == pushable_prefix(self.stages@)
                    &&& pipeline_statement(table_name(collection_name@), self.stages@, n as int)
                        == Ok::<SqlView, SqlError>(q@)
                },
                Err(e) => if identifier_ok(encode_utf8(collection_name@)) {
                    pipeline_statement(
                        table_name(collection_name@),
                        self.stages@,
                        pushable_prefix(self.stages@),
                    ) == Err::<SqlView, SqlError>(e)
                } else {
                    e == SqlError::InvalidIdentifier
                },
            },
    {
        let table = match sanitize_identifier(collection_name) {
            Ok(t) => t,
            Err(e) => {
                return Err(e);
            },
        };
        let n = count_pushable(&self.stages);
        let mut q = SqlQuery::new("WITH s0 AS (SELECT data FROM ");
        q.push_text(table.as_str());
        q.push_text(")");
        let ghost start = q@;
        assert(start == table_source(table@));
        let mut i: usize = 0;
        while i < n
            invariant
                i <= n <= self.stages@.len(),
                with_stages(q@, self.stages@, i as int, n as int) == with_stages(
                    start,
                    self.stages@,
                    0,
                    n as int,
                ),
            decreases n - i,
        {
            match self.push_stage(&mut q, i) {
                Ok(()) => {},
                Err(e) => {
                    proof {
                        lemma_stage_error_spreads(start, self.stages@, n as int, e, table@);
                    }
                    return Err(e);
                },
            }
            i = i + 1;
        }
        q.push_text(" SELECT data::text FROM ");
        push_step_name(&mut q, n as u64);
        proof {
            assert(pipeline_statement(table@, self.stages@, n as int) == Ok::<SqlView, SqlError>(q@));
        }
        Ok((q, n))
    }

    /// Appends the step for the stage at index `i`.
    #[verifier::loop_isolation(false)]
    pub fn push_stage(&self, q: &mut SqlQuery, i: usize) -> (r: Result<(), SqlError>)
        requires
            i < self.stages@.len(),
        ensures
            crate::sql::step_matches(
                r,
                old(q)@,
                final(q)@,
                with_stage(old(q)@, self.stages@[i as int], (i + 1) as nat),
            ),
    {
        let len = self.stages.len();
        assert(i < len);
        let k: u64 = (i + 1) as u64;
        q.push_text(", ");
        push_step_name(q, k);
        q.push_text(" AS (SELECT ");
        match &self.stages[i] {
            PipelineStage::Match(f) => {
                q.push_text("data");
                push_source(q, k);
                q.push_text(" WHERE ");
                match self.filter_to_sql(q, f) {
                    Ok(()) => {},
                    Err(e) => {
                        return Err(e);
                    },
                }
                q.push_text(")");
                Ok(())
            },
            PipelineStage::Sort(s) => {
                q.push_text("data");
                push_source(q, k);
                if s.len() > 0 {
                    q.push_text(" ORDER BY ");
                    match self.sort_to_sql(q, s) {
                        Ok(()) => {},
                        Err(e) => {
                            return Err(e);
                        },
                    }
                }
                q.push_text(")");
                Ok(())
            },
            PipelineStage::Limit(n) => {
                if *n < 0 {
                    return Err(SqlError::BadOperand);
                }
                q.push_text("data");
                push_source(q, k);
                q.push_text(" LIMIT ");
                push_number(q, *n as u64);
                q.push_text(")");
                Ok(())
            },
            PipelineStage::Skip(n) => {
                if *n < 0 {
                    return Err(SqlError::BadOperand);
                }
                q.push_text("data");
                push_source(q, k);
                q.push_text(" OFFSET ");
                push_number(q, *n as u64);
                q.push_text(")");
                Ok(())
            },
            PipelineStage::Project(p) => {
                match self.project_to_sql(q, p) {
                    Ok(()) => {},
                    Err(e) => {
                        return Err(e);
                    },
                }
                push_source(q, k);
                q.push_text(")");
                Ok(())
            },
            _ => Err(SqlError::UnsupportedStage),
        }
    }

    /// Appends the boolean expression that a filter lowers to.
    pub fn filter_to_sql(&self, q: &mut SqlQuery, filter: &Document) -> (r: Result<(), SqlError>)
        ensures
            crate::sql::step_matches(r, old(q)@, final(q)@, lowered(old(q)@, filter@)),
    {
        push_filter(q, filter)
    }

    /// Appends the boolean expression for one entry of a filter: a field
    /// with a literal or with operators, or a connective.
    pub fn field_condition_to_sql(&self, q: &mut SqlQuery, field: &str, value: &Bson) -> (r: Result<
        (),
        SqlError,
    >)
        ensures
            crate::sql::step_matches(
                r,
                old(q)@,
                final(q)@,
                with_entry_sql(old(q)@, field@, value@),
            ),
    {
        push_entry(q, field, value)
    }

    /// The parameter that carries a literal; a value that has no form in a
    /// statement gives `UnsupportedLiteral`.
    pub fn bson_to_sql_value(&self, value: &Bson) -> (r: Result<SqlParam, SqlError>)
        ensures
            match r {
                Ok(p) => literal_param(value@) == Some(p@),
                Err(e) => e == SqlError::UnsupportedLiteral && literal_param(value@).is_none(),
            },
    {
        match param_of_literal(value) {
            Some(p) => Ok(p),
            None => Err(SqlError::UnsupportedLiteral),
        }
    }

    /// Appends the sort keys of a sort document. A direction other than 1
    /// and -1 gives `BadSortDirection`.
    pub fn sort_to_sql(&self, q: &mut SqlQuery, sort_doc: &Document) -> (r: Result<(), SqlError>)
        ensures
            crate::sql::step_matches(
                r,
                old(q)@,
                final(q)@,
                with_sort_keys(old(q)@, sort_doc@, 0),
            ),
    {
        push_sort_keys(q, sort_doc)
    }

    /// Appends the column list of a projection. A projection that mixes
    /// 1 and 0, or holds an expression, gives `BadOperand`.
    pub fn project_to_sql(&self, q: &mut SqlQuery, project_doc: &Document) -> (r: Result<
        (),
        SqlError,
    >)
        ensures
            crate::sql::step_matches(
                r,
                old(q)@,
                final(q)@,
                with_projection(old(q)@, project_doc@),
            ),
    {
        let inclusive = match projection_mode(project_doc) {
            Ok(m) => m,
            Err(_) => {
                return Err(SqlError::BadOperand);
            },
        };
        if inclusive {
            q.push_text(
                "(SELECT COALESCE(jsonb_object_agg(key, value), '{}'::jsonb) FROM jsonb_each(data) WHERE ",
            );
            let ghost start = q@;
            let mut i: usize = 0;
            while i < project_doc.len()
                invariant
                    i <= project_doc@.len(),
                    with_included(q@, project_doc@, i as int) == with_included(
                        start,
                        project_doc@,
                        0,
                    ),
                decreases project_doc@.len() - i,
            {
                match projection_verdict(project_doc.value_at(i)) {
                    Projected::Include => {
                        q.push_text("key = ");
                        q.push_param(SqlParam::Text(project_doc.key_at(i).to_owned()));
                        q.push_text(" OR ");
                    },
                    _ => {},
                }
                i = i + 1;
            }
            if project_doc.get("_id").is_none() {
                q.push_text("key = ");
                q.push_param(SqlParam::Text("_id".to_owned()));
                q.push_text(" OR ");
            }
            q.push_text("FALSE) AS data");
        } else {
            q.push_text("data");
            let ghost start = q@;
            let mut i: usize = 0;
            while i < project_doc.len()
                invariant
                    i <= project_doc@.len(),
                    with_excluded(q@, project_doc@, i as int) == with_excluded(
                        start,
                        project_doc@,
                        0,
                    ),
                decreases project_doc@.len() - i,
            {
                match projection_verdict(project_doc.value_at(i)) {
                    Projected::Exclude => {
                        q.push_text(" - ");
                        q.push_param(SqlParam::Text(project_doc.key_at(i).to_owned()));
                    },
                    _ => {},
                }
                i = i + 1;
            }
            q.push_text(" AS data");
        }
        Ok(())
    }

    /// The statement that groups what `current_query` gives by the field
    /// that the group document names under `_id`, and counts the rows of
    /// each group. A group document without a field name under `_id`
    /// gives `BadOperand`.
    pub fn handle_group_stage(&self, current_query: SqlQuery, group_doc: &Document) -> (r: Result<
        SqlQuery,
        SqlError,
    >)
        requires
            current_query.params@.len() < usize::MAX,
        ensures
            match r {
                Ok(q) => grouped_statement(current_query@, group_doc@) == Ok::<SqlView, SqlError>(
                    q@,
                ),
                Err(e) => grouped_statement(current_query@, group_doc@) == Err::<
                    SqlView,
                    SqlError,
                >(e),
            },
    {
        let field = match group_doc.get("_id") {
            Some(Bson::String(f)) => f,
            Some(_) => {
                return Err(SqlError::BadOperand);
            },
            None => {
                return Err(SqlError::BadOperand);
            },
        };
        let SqlQuery { text, params } = current_query;
        let mut params = params;
        let k = u64_to_string(params.len() as u64 + 1);
        let mut out = String::from_str("SELECT grouped.data ->> $");
        out.append(k.as_str());
        out.append(" AS key, COUNT(*) AS count FROM (");
        out.append(text.as_str());
        out.append(") AS grouped GROUP BY grouped.data ->> $");
        out.append(k.as_str());
        params.push(SqlParam::Text(field.clone()));
        let r = SqlQuery { text: out, params };
        assert(r@.params =~= current_query@.params.push(ParamView::Text(field@)));
        Ok(r)
    }
}

/// Where the step for one stage cannot be written, the whole statement
/// cannot, and for the same reason.
proof fn lemma_stage_error_spreads(
    start: SqlView,
    stages: Seq<PipelineStage>,
    n: int,
    e: SqlError,
    table: Seq<char>,
)
    requires
        start == table_source(table),
        with_stages(start, stages, 0, n) == Err::<SqlView, SqlError>(e),
    ensures
        pipeline_statement(table, stages, n) == Err::<SqlView, SqlError>(e),
{
}

} // verus!
