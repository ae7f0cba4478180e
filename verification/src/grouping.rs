//! The `$group` stage.
//!
//! The documents that come in are parted by the value of an expression,
//! the key. Each part gives one document: the key under `_id`, and one
//! field for each accumulator of the stage. The parts come out in the
//! order in which their first documents came in.
//!
//! An expression is a field path, written `$field`, or a constant.
//! Integers are summed exactly; a sum or an average that needs arithmetic
//! on doubles is refused.

use crate::aggregation::{
    count_value, field_of_path, order, order_values, AggregationError,
};
use crate::bson::{
    docs_view, lemma_view_array, lemma_view_document, lookup, str_eq, values_view, Bson, BsonView,
    DocView, Document,
};
use crate::filter::{any_equal, contains_equal, equal_values, values_equal};
use crate::numeric::{int_to_double_bits, widen, Comparison};
use vstd::prelude::*;

verus! {

/// What is gathered of the members of a group.
#[derive(Debug, Clone, Copy, PartialEq, Eq, Structural)]
pub enum Accumulator {
    Sum,
    Avg,
    Min,
    Max,
    First,
    Last,
    Push,
    AddToSet,
    Count,
}

/// The accumulator that a name stands for.
pub open spec fn accumulator_of(name: Seq<char>) -> Option<Accumulator> {
    if name == "$sum"@ {
        Some(Accumulator::Sum)
    } else if name == "$avg"@ {
        Some(Accumulator::Avg)
    } else if name == "$min"@ {
        Some(Accumulator::Min)
    } else if name == "$max"@ {
        Some(Accumulator::Max)
    } else if name == "$first"@ {
        Some(Accumulator::First)
    } else if name == "$last"@ {
        Some(Accumulator::Last)
    } else if name == "$push"@ {
        Some(Accumulator::Push)
    } else if name == "$addToSet"@ {
        Some(Accumulator::AddToSet)
    } else if name == "$count"@ {
        Some(Accumulator::Count)
    } else {
        None
    }
}

/// Whether an expression is one that is evaluated: a field path or a
/// constant that is no document and no array.
pub open spec fn expression_ok(e: BsonView) -> bool {
    !(e is Document) && !(e is Array)
}

/// The value of an expression on a document: the value of the field for a
/// field path, null where the document has no such field, and the
/// expression itself for a constant.
pub open spec fn expression_value(e: BsonView, d: DocView) -> BsonView {
    match e {
        BsonView::String(s) => match field_of_path(s) {
            Some(f) => match lookup(d, f) {
                Some(v) => v,
                None => BsonView::Null,
            },
            None => e,
        },
        _ => e,
    }
}

/// Whether two keys name the same group: they are the same value, or
/// numbers that are equal as doubles.
pub open spec fn same_key(a: BsonView, b: BsonView) -> bool {
    a == b || values_equal(a, b)
}

/// Whether one of the first `n` documents has the key `key`.
pub open spec fn seen_before(id: BsonView, docs: Seq<DocView>, key: BsonView, n: int) -> bool
    decreases n,
{
    if n <= 0 || n > docs.len() {
        false
    } else {
        same_key(expression_value(id, docs[n - 1]), key) || seen_before(id, docs, key, n - 1)
    }
}

/// The values of `expr` on those of the first `n` documents whose key is
/// `key`, in order.
pub open spec fn members_values(
    expr: BsonView,
    id: BsonView,
    key: BsonView,
    docs: Seq<DocView>,
    n: int,
) -> Seq<BsonView>
    decreases n,
{
    if n <= 0 || n > docs.len() {
        Seq::empty()
    } else if same_key(expression_value(id, docs[n - 1]), key) {
        members_values(expr, id, key, docs, n - 1).push(expression_value(expr, docs[n - 1]))
    } else {
        members_values(expr, id, key, docs, n - 1)
    }
}

/// The sum of the integers among the first `n` values.
pub open spec fn sum_of(v: Seq<BsonView>, n: int) -> int
    decreases n,
{
    if n <= 0 || n > v.len() {
        0
    } else {
        sum_of(v, n - 1) + (match v[n - 1] {
            BsonView::Int32(i) => i as int,
            BsonView::Int64(i) => i as int,
            _ => 0,
        })
    }
}

/// Number of integers among the first `n` values.
pub open spec fn integers_in(v: Seq<BsonView>, n: int) -> int
    decreases n,
{
    if n <= 0 || n > v.len() {
        0
    } else {
        integers_in(v, n - 1) + (if v[n - 1] is Int32 || v[n - 1] is Int64 {
            1int
        } else {
            0int
        })
    }
}

/// Whether one of the first `n` values is a double.
pub open spec fn has_double(v: Seq<BsonView>, n: int) -> bool
    decreases n,
{
    if n <= 0 || n > v.len() {
        false
    } else {
        v[n - 1] is Double || has_double(v, n - 1)
    }
}

/// Whether one of the first `n` values is a 64-bit integer.
pub open spec fn has_wide(v: Seq<BsonView>, n: int) -> bool
    decreases n,
{
    if n <= 0 || n > v.len() {
        false
    } else {
        v[n - 1] is Int64 || has_wide(v, n - 1)
    }
}

/// The sum of values: the sum of the integers among them, 32 bits wide
/// where all of them are and the sum fits, 64 bits wide otherwise. Values
/// that are no numbers are passed over. A double among the values gives
/// `DoubleArithmetic`, a sum beyond 64 bits `Overflow`.
pub open spec fn sum_result(v: Seq<BsonView>) -> Result<BsonView, AggregationError> {
    let n = v.len() as int;
    let s = sum_of(v, n);
    if has_double(v, n) {
        Err(AggregationError::DoubleArithmetic)
    } else if !has_wide(v, n) && i32::MIN <= s <= i32::MAX {
        Ok(BsonView::Int32(s as i32))
    } else if i64::MIN <= s <= i64::MAX {
        Ok(BsonView::Int64(s as i64))
    } else {
        Err(AggregationError::Overflow)
    }
}

/// The average of values: the sum of the integers among them divided by
/// their number, as a double; null where there is no integer. A double
/// among the values, and an average that is no whole number, give
/// `DoubleArithmetic`.
pub open spec fn average_result(v: Seq<BsonView>) -> Result<BsonView, AggregationError> {
    let n = v.len() as int;
    let s = sum_of(v, n);
    let c = integers_in(v, n);
    if has_double(v, n) {
        Err(AggregationError::DoubleArithmetic)
    } else if c == 0 {
        Ok(BsonView::Null)
    } else if s % c == 0 {
        Ok(BsonView::Double(widen(s / c)))
    } else {
        Err(AggregationError::DoubleArithmetic)
    }
}

/// Index of the value that stands first in the order of values among the
/// first `n`, nulls apart; of several such the first one. `None` where
/// all are null.
pub open spec fn least_index(v: Seq<BsonView>, n: int) -> Option<int>
    decreases n,
{
    if n <= 0 || n > v.len() {
        None
    } else {
        let prev = least_index(v, n - 1);
        if v[n - 1] is Null {
            prev
        } else {
            match prev {
                None => Some(n - 1),
                Some(p) => if order_values(Some(v[n - 1]), Some(v[p])) == Comparison::Less {
                    Some(n - 1)
                } else {
                    Some(p)
                },
            }
        }
    }
}

/// Index of the value that stands last in the order of values among the
/// first `n`, nulls apart; of several such the first one.
pub open spec fn greatest_index(v: Seq<BsonView>, n: int) -> Option<int>
    decreases n,
{
    if n <= 0 || n > v.len() {
        None
    } else {
        let prev = greatest_index(v, n - 1);
        if v[n - 1] is Null {
            prev
        } else {
            match prev {
                None => Some(n - 1),
                Some(p) => if order_values(Some(v[n - 1]), Some(v[p])) == Comparison::Greater {
                    Some(n - 1)
                } else {
                    Some(p)
                },
            }
        }
    }
}

/// The value at an index, or null.
pub open spec fn value_or_null(v: Seq<BsonView>, i: Option<int>) -> BsonView {
    match i {
        Some(k) => if 0 <= k < v.len() {
            v[k]
        } else {
            BsonView::Null
        },
        None => BsonView::Null,
    }
}

/// The first `n` values without those that equal an earlier one.
pub open spec fn distinct(v: Seq<BsonView>, n: int) -> Seq<BsonView>
    decreases n,
{
    if n <= 0 || n > v.len() {
        Seq::empty()
    } else if contains_equal(distinct(v, n - 1), v[n - 1]) {
        distinct(v, n - 1)
    } else {
        distinct(v, n - 1).push(v[n - 1])
    }
}

/// What an accumulator makes of the values of its expression on the
/// members of a group.
pub open spec fn accumulated(a: Accumulator, v: Seq<BsonView>) -> Result<
    BsonView,
    AggregationError,
> {
    match a {
        Accumulator::Sum => sum_result(v),
        Accumulator::Avg => average_result(v),
        Accumulator::Min => Ok(value_or_null(v, least_index(v, v.len() as int))),
        Accumulator::Max => Ok(value_or_null(v, greatest_index(v, v.len() as int))),
        Accumulator::First => Ok(
            if v.len() > 0 {
                v[0]
            } else {
                BsonView::Null
            },
        ),
        Accumulator::Last => Ok(
            if v.len() > 0 {
                v.last()
            } else {
                BsonView::Null
            },
        ),
        Accumulator::Push => Ok(BsonView::Array(v)),
        Accumulator::AddToSet => Ok(BsonView::Array(distinct(v, v.len() as int))),
        Accumulator::Count => Ok(count_value(v.len())),
    }
}

/// What a field of a group document asks for: an accumulator and its
/// expression. The field has to be a document with one entry, the name of
/// an accumulator and an expression; `$count` takes the empty document.
pub open spec fn field_plan(v: BsonView) -> Result<(Accumulator, BsonView), AggregationError> {
    match v {
        BsonView::Document(d) => if d.len() != 1 {
            Err(AggregationError::InvalidArgument)
        } else {
            match accumulator_of(d[0].0) {
                None => Err(AggregationError::InvalidArgument),
                Some(Accumulator::Count) => if d[0].1 == BsonView::Document(Seq::empty()) {
                    Ok((Accumulator::Count, BsonView::Null))
                } else {
                    Err(AggregationError::InvalidArgument)
                },
                Some(a) => if expression_ok(d[0].1) {
                    Ok((a, d[0].1))
                } else {
                    Err(AggregationError::NotImplemented)
                },
            }
        },
        _ => Err(AggregationError::InvalidArgument),
    }
}

/// The value of one field of a group document for the group with the key
/// `key`: what its accumulator makes of the values of its expression on
/// the members of the group.
pub open spec fn field_result(v: BsonView, id: BsonView, docs: Seq<DocView>, key: BsonView) -> Result<
    BsonView,
    AggregationError,
> {
    match field_plan(v) {
        Err(e) => Err(e),
        Ok((a, expr)) => accumulated(a, members_values(expr, id, key, docs, docs.len() as int)),
    }
}

/// The document of one group, from the entry `i` of the group document
/// on: `so_far` with one field for each accumulator.
pub open spec fn group_fields(
    g: DocView,
    id: BsonView,
    docs: Seq<DocView>,
    key: BsonView,
    i: int,
    so_far: DocView,
) -> Result<DocView, AggregationError>
    decreases g.len() - i,
{
    if i < 0 || i >= g.len() {
        Ok(so_far)
    } else if g[i].0 == "_id"@ {
        group_fields(g, id, docs, key, i + 1, so_far)
    } else {
        match field_result(g[i].1, id, docs, key) {
            Err(e) => Err(e),
            Ok(v) => group_fields(g, id, docs, key, i + 1, so_far.push((g[i].0, v))),
        }
    }
}

/// The document of the group with the key `key`.
pub open spec fn group_document(g: DocView, id: BsonView, docs: Seq<DocView>, key: BsonView) -> Result<
    DocView,
    AggregationError,
> {
    group_fields(g, id, docs, key, 0, seq![("_id"@, key)])
}

/// The documents of the groups whose first member is among the first `n`
/// documents, in the order of those first members.
pub open spec fn groups_upto(g: DocView, id: BsonView, docs: Seq<DocView>, n: int) -> Result<
    Seq<DocView>,
    AggregationError,
>
    decreases n,
{
    if n <= 0 || n > docs.len() {
        Ok(Seq::empty())
    } else {
        match groups_upto(g, id, docs, n - 1) {
            Err(e) => Err(e),
            Ok(out) => {
                let key = expression_value(id, docs[n - 1]);
                if seen_before(id, docs, key, n - 1) {
                    Ok(out)
                } else {
                    match group_document(g, id, docs, key) {
                        Err(e) => Err(e),
                        Ok(d) => Ok(out.push(d)),
                    }
                }
            },
        }
    }
}

/// What a `$group` stage with the argument `arg` makes of `docs`.
///
/// The argument has to be a document with an expression under `_id`. A
/// key or an expression that is a document or an array gives
/// `NotImplemented`.
pub open spec fn run_group(arg: Option<BsonView>, docs: Seq<DocView>) -> Result<
    Seq<DocView>,
    AggregationError,
> {
    match arg {
        Some(BsonView::Document(g)) => match lookup(g, "_id"@) {
            None => Err(AggregationError::InvalidArgument),
            Some(id) => if !expression_ok(id) {
                Err(AggregationError::NotImplemented)
            } else {
                groups_upto(g, id, docs, docs.len() as int)
            },
        },
        _ => Err(AggregationError::InvalidArgument),
    }
}

/// The field that a path names.
pub fn path_field(path: &str) -> (r: Option<String>)
    ensures
        match r {
            Some(f) => field_of_path(path@) == Some(f@),
            None => field_of_path(path@).is_none(),
        },
{
    let len = path.unicode_len();
    if len < 2 || path.get_char(0) != '$' {
        return None;
    }
    let field = path.substring_char(1, len);
    assert(field@ =~= path@.skip(1));
    Some(field.to_owned())
}

/// The value of an expression on a document.
pub fn evaluate(e: &Bson, d: &Document) -> (r: Bson)
    ensures
        r@ == expression_value(e@, d@),
{
    match e {
        Bson::String(s) => match path_field(s.as_str()) {
            Some(f) => match d.get(f.as_str()) {
                Some(v) => v.clone_value(),
                None => Bson::Null,
            },
            None => e.clone_value(),
        },
        _ => e.clone_value(),
    }
}

/// Whether two keys name the same group.
pub fn keys_equal(a: &Bson, b: &Bson) -> (r: bool)
    ensures
        r == same_key(a@, b@),
{
    a.equals(b) || equal_values(a, b)
}

/// The values of `expr` on the documents whose key is `key`.
pub fn gather(expr: &Bson, id: &Bson, key: &Bson, docs: &Vec<Document>) -> (r: Vec<Bson>)
    ensures
        values_view(r@) == members_values(
            expr@,
            id@,
            key@,
            docs_view(docs@),
            docs@.len() as int,
        ),
{
    let mut out: Vec<Bson> = Vec::new();
    let mut i: usize = 0;
    assert(values_view(out@) =~= Seq::<BsonView>::empty());
    while i < docs.len()
        invariant
            i <= docs.len(),
            values_view(out@) == members_values(expr@, id@, key@, docs_view(docs@), i as int),
        decreases docs.len() - i,
    {
        let k = evaluate(id, &docs[i]);
        if keys_equal(&k, key) {
            let v = evaluate(expr, &docs[i]);
            let ghost before = values_view(out@);
            out.push(v);
            assert(values_view(out@) =~= before.push(v@));
        }
        i = i + 1;
    }
    out
}

/// The sum of values.
pub fn sum_values(v: &Vec<Bson>) -> (r: Result<Bson, AggregationError>)
    ensures
        match r {
            Ok(x) => sum_result(values_view(v@)) == Ok::<BsonView, AggregationError>(x@),
            Err(e) => sum_result(values_view(v@)) == Err::<BsonView, AggregationError>(e),
        },
{
    let (s, _, wide, double) = totals(v);
    if double {
        Err(AggregationError::DoubleArithmetic)
    } else if !wide && -2147483648 <= s && s <= 2147483647 {
        Ok(Bson::Int32(s as i32))
    } else if -9223372036854775808 <= s && s <= 9223372036854775807 {
        Ok(Bson::Int64(s as i64))
    } else {
        Err(AggregationError::Overflow)
    }
}

/// The sum of the integers among values, their number, whether one of them
/// is 64 bits wide, and whether a double is among the values.
pub fn totals(v: &Vec<Bson>) -> (r: (i128, usize, bool, bool))
    ensures
        r.0 == sum_of(values_view(v@), v@.len() as int),
        r.1 == integers_in(values_view(v@), v@.len() as int),
        r.2 == has_wide(values_view(v@), v@.len() as int),
        r.3 == has_double(values_view(v@), v@.len() as int),
{
    let ghost vv = values_view(v@);
    let mut s: i128 = 0;
    let mut c: usize = 0;
    let mut wide = false;
    let mut double = false;
    let mut i: usize = 0;
    while i < v.len()
        invariant
            i <= v.len(),
            vv == values_view(v@),
            s == sum_of(vv, i as int),
            c == integers_in(vv, i as int),
            c <= i,
            wide == has_wide(vv, i as int),
            double == has_double(vv, i as int),
            -(i as int) * 0x8000_0000_0000_0000 <= s <= (i as int) * 0x8000_0000_0000_0000,
        decreases v.len() - i,
    {
        assert((i as int + 1) * 0x8000_0000_0000_0000 <= 0x1_0000_0000_0000_0000
            * 0x8000_0000_0000_0000) by (nonlinear_arith)
            requires
                i as int + 1 <= 0x1_0000_0000_0000_0000,
        ;
        assert((i as int + 1) * 0x8000_0000_0000_0000 == (i as int) * 0x8000_0000_0000_0000
            + 0x8000_0000_0000_0000) by (nonlinear_arith);
        match &v[i] {
            Bson::Int32(x) => {
                s = s + (*x as i128);
                c = c + 1;
            },
            Bson::Int64(x) => {
                s = s + (*x as i128);
                c = c + 1;
                wide = true;
            },
            Bson::Double(_) => {
                double = true;
            },
            _ => {},
        }
        i = i + 1;
    }
    (s, c, wide, double)
}

/// The value that stands first, or last where `greatest` is set, in the
/// order of values, nulls apart.
pub fn extreme(v: &Vec<Bson>, greatest: bool) -> (r: Bson)
    ensures
        r@ == value_or_null(
            values_view(v@),
            if greatest {
                greatest_index(values_view(v@), v@.len() as int)
            } else {
                least_index(values_view(v@), v@.len() as int)
            },
        ),
{
    let ghost vv = values_view(v@);
    let mut best: Option<usize> = None;
    let mut i: usize = 0;
    while i < v.len()
        invariant
            i <= v.len(),
            vv == values_view(v@),
            match best {
                Some(b) => b < i && (if greatest {
                    greatest_index(vv, i as int)
                } else {
                    least_index(vv, i as int)
                }) == Some(b as int),
                None => (if greatest {
                    greatest_index(vv, i as int)
                } else {
                    least_index(vv, i as int)
                }).is_none(),
            },
        decreases v.len() - i,
    {
        let is_null = match &v[i] {
            Bson::Null => true,
            _ => false,
        };
        if !is_null {
            match best {
                None => {
                    best = Some(i);
                },
                Some(b) => {
                    let c = order(Some(&v[i]), Some(&v[b]));
                    let better = match c {
                        Comparison::Less => !greatest,
                        Comparison::Greater => greatest,
                        Comparison::Equal => false,
                    };
                    if better {
                        best = Some(i);
                    }
                },
            }
        }
        i = i + 1;
    }
    match best {
        Some(b) => v[b].clone_value(),
        None => Bson::Null,
    }
}

/// The values without those that equal an earlier one.
pub fn distinct_values(v: &Vec<Bson>) -> (r: Vec<Bson>)
    ensures
        values_view(r@) == distinct(values_view(v@), v@.len() as int),
{
    let ghost vv = values_view(v@);
    let mut out: Vec<Bson> = Vec::new();
    assert(values_view(out@) =~= Seq::<BsonView>::empty());
    let mut i: usize = 0;
    while i < v.len()
        invariant
            i <= v.len(),
            vv == values_view(v@),
            values_view(out@) == distinct(vv, i as int),
        decreases v.len() - i,
    {
        if !any_equal(&out, &v[i]) {
            let ghost before = values_view(out@);
            let x = v[i].clone_value();
            out.push(x);
            assert(values_view(out@) =~= before.push(x@));
        }
        i = i + 1;
    }
    out
}

/// The average of values.
pub fn average_values(v: &Vec<Bson>) -> (r: Result<Bson, AggregationError>)
    ensures
        match r {
            Ok(x) => average_result(values_view(v@)) == Ok::<BsonView, AggregationError>(x@),
            Err(e) => average_result(values_view(v@)) == Err::<BsonView, AggregationError>(e),
        },
{
    let (s, c, _, double) = totals(v);
    if double {
        return Err(AggregationError::DoubleArithmetic);
    }
    if c == 0 {
        return Ok(Bson::Null);
    }
    proof {
        lemma_sum_bound(values_view(v@), v@.len() as int);
    }
    let ghost si = s as int;
    let ghost ci = c as int;
    let negative = s < 0;
    let m: u128 = if negative {
        (-s) as u128
    } else {
        s as u128
    };
    let d: u128 = c as u128;
    let q: u128 = m / d;
    let rest: u128 = m % d;
    proof {
        vstd::arithmetic::div_mod::lemma_fundamental_div_mod(m as int, d as int);
        assert(m as int == (d as int) * (q as int) + rest as int);
        assert(q as int <= 0x8000_0000_0000_0000) by (nonlinear_arith)
            requires
                m as int == (d as int) * (q as int) + rest as int,
                rest as int >= 0,
                d as int >= 1,
                q as int >= 0,
                m as int <= (d as int) * 0x8000_0000_0000_0000,
        ;
    }
    if rest != 0 {
        proof {
            if negative {
                assert(si == (-(q as int) - 1) * ci + (ci - rest as int)) by (nonlinear_arith)
                    requires
                        -si == ci * (q as int) + rest as int,
                ;
                vstd::arithmetic::div_mod::lemma_fundamental_div_mod_converse(
                    si,
                    ci,
                    -(q as int) - 1,
                    ci - rest as int,
                );
            } else {
                assert(si == (q as int) * ci + rest as int) by (nonlinear_arith)
                    requires
                        si == ci * (q as int) + rest as int,
                ;
                vstd::arithmetic::div_mod::lemma_fundamental_div_mod_converse(
                    si,
                    ci,
                    q as int,
                    rest as int,
                );
            }
        }
        return Err(AggregationError::DoubleArithmetic);
    }
    proof {
        if negative {
            assert(si == (-(q as int)) * ci + 0) by (nonlinear_arith)
                requires
                    -si == ci * (q as int) + 0,
            ;
            vstd::arithmetic::div_mod::lemma_fundamental_div_mod_converse(
                si,
                ci,
                -(q as int),
                0,
            );
        } else {
            assert(si == (q as int) * ci + 0) by (nonlinear_arith)
                requires
                    si == ci * (q as int) + 0,
            ;
            vstd::arithmetic::div_mod::lemma_fundamental_div_mod_converse(si, ci, q as int, 0);
        }
    }
    let whole: i64 = if negative {
        if q == 0x8000_0000_0000_0000 {
            -9223372036854775808
        } else {
            -(q as i64)
        }
    } else {
        if q == 0x8000_0000_0000_0000 {
            proof {
                lemma_sum_upper(values_view(v@), v@.len() as int);
                assert(false) by (nonlinear_arith)
                    requires
                        si == (q as int) * ci,
                        q as int == 0x8000_0000_0000_0000,
                        si <= ci * 0x7fff_ffff_ffff_ffff,
                        ci >= 1,
                ;
            }
            0
        } else {
            q as i64
        }
    };
    Ok(Bson::Double(int_to_double_bits(whole)))
}

/// The sum of integers lies within their number times the range of an
/// integer.
pub proof fn lemma_sum_bound(v: Seq<BsonView>, n: int)
    requires
        0 <= n <= v.len(),
    ensures
        -integers_in(v, n) * 0x8000_0000_0000_0000 <= sum_of(v, n) <= integers_in(v, n)
            * 0x8000_0000_0000_0000,
        0 <= integers_in(v, n) <= n,
    decreases n,
{
    if n > 0 {
        lemma_sum_bound(v, n - 1);
        let c = integers_in(v, n - 1);
        assert((c + 1) * 0x8000_0000_0000_0000 == c * 0x8000_0000_0000_0000
            + 0x8000_0000_0000_0000) by (nonlinear_arith);
        assert(-(c + 1) * 0x8000_0000_0000_0000 == -c * 0x8000_0000_0000_0000
            - 0x8000_0000_0000_0000) by (nonlinear_arith);
    }
}

/// The sum of integers is at most their number times the largest integer.
pub proof fn lemma_sum_upper(v: Seq<BsonView>, n: int)
    requires
        0 <= n <= v.len(),
    ensures
        sum_of(v, n) <= integers_in(v, n) * 0x7fff_ffff_ffff_ffff,
    decreases n,
{
    if n > 0 {
        lemma_sum_upper(v, n - 1);
        let c = integers_in(v, n - 1);
        assert((c + 1) * 0x7fff_ffff_ffff_ffff == c * 0x7fff_ffff_ffff_ffff
            + 0x7fff_ffff_ffff_ffff) by (nonlinear_arith);
    }
}

/// What an accumulator makes of values.
pub fn accumulate(a: Accumulator, v: Vec<Bson>) -> (r: Result<Bson, AggregationError>)
    ensures
        match r {
            Ok(x) => accumulated(a, values_view(v@)) == Ok::<BsonView, AggregationError>(x@),
            Err(e) => accumulated(a, values_view(v@)) == Err::<BsonView, AggregationError>(e),
        },
{
    match a {
        Accumulator::Sum => sum_values(&v),
        Accumulator::Avg => average_values(&v),
        Accumulator::Min => Ok(extreme(&v, false)),
        Accumulator::Max => Ok(extreme(&v, true)),
        Accumulator::First => {
            if v.len() > 0 {
                Ok(v[0].clone_value())
            } else {
                Ok(Bson::Null)
            }
        },
        Accumulator::Last => {
            if v.len() > 0 {
                assert(values_view(v@).last() == v@[v@.len() - 1]@);
                Ok(v[v.len() - 1].clone_value())
            } else {
                Ok(Bson::Null)
            }
        },
        Accumulator::Push => {
            proof {
                lemma_view_array(v);
            }
            Ok(Bson::Array(v))
        },
        Accumulator::AddToSet => {
            let d = distinct_values(&v);
            proof {
                lemma_view_array(d);
            }
            Ok(Bson::Array(d))
        },
        Accumulator::Count => Ok(crate::writes::count_to_bson(v.len())),
    }
}

/// The accumulator that a name stands for.
pub fn accumulator_named(name: &str) -> (r: Option<Accumulator>)
    ensures
        r == accumulator_of(name@),
{
    if str_eq(name, "$sum") {
        Some(Accumulator::Sum)
    } else if str_eq(name, "$avg") {
        Some(Accumulator::Avg)
    } else if str_eq(name, "$min") {
        Some(Accumulator::Min)
    } else if str_eq(name, "$max") {
        Some(Accumulator::Max)
    } else if str_eq(name, "$first") {
        Some(Accumulator::First)
    } else if str_eq(name, "$last") {
        Some(Accumulator::Last)
    } else if str_eq(name, "$push") {
        Some(Accumulator::Push)
    } else if str_eq(name, "$addToSet") {
        Some(Accumulator::AddToSet)
    } else if str_eq(name, "$count") {
        Some(Accumulator::Count)
    } else {
        None
    }
}

/// Whether a value is a document or an array.
fn is_compound(v: &Bson) -> (r: bool)
    ensures
        r == !expression_ok(v@),
{
    match v {
        Bson::Document(d) => {
            proof {
                lemma_view_document(*d);
            }
            true
        },
        Bson::Array(a) => {
            proof {
                lemma_view_array(*a);
            }
            true
        },
        _ => false,
    }
}

/// What a field of a group document asks for.
pub fn plan_field(v: &Bson) -> (r: Result<(Accumulator, Bson), AggregationError>)
    ensures
        match r {
            Ok((a, e)) => field_plan(v@) == Ok::<(Accumulator, BsonView), AggregationError>(
                (a, e@),
            ),
            Err(e) => field_plan(v@) == Err::<(Accumulator, BsonView), AggregationError>(e),
        },
{
    let d = match v {
        Bson::Document(d) => {
            proof {
                lemma_view_document(*d);
            }
            d
        },
        _ => {
            return Err(AggregationError::InvalidArgument);
        },
    };
    if d.len() != 1 {
        return Err(AggregationError::InvalidArgument);
    }
    let arg = d.value_at(0);
    match accumulator_named(d.key_at(0)) {
        None => Err(AggregationError::InvalidArgument),
        Some(Accumulator::Count) => {
            let empty = match arg {
                Bson::Document(x) => {
                    proof {
                        lemma_view_document(*x);
                        if x@.len() == 0 {
                            assert(x@ =~= Seq::<(Seq<char>, BsonView)>::empty());
                        }
                    }
                    x.len() == 0
                },
                _ => false,
            };
            if empty {
                Ok((Accumulator::Count, Bson::Null))
            } else {
                Err(AggregationError::InvalidArgument)
            }
        },
        Some(a) => {
            if is_compound(arg) {
                Err(AggregationError::NotImplemented)
            } else {
                Ok((a, arg.clone_value()))
            }
        },
    }
}

/// The value of one field of a group document for the group with the key
/// `key`.
pub fn compute_field(v: &Bson, id: &Bson, docs: &Vec<Document>, key: &Bson) -> (r: Result<
    Bson,
    AggregationError,
>)
    ensures
        match r {
            Ok(x) => field_result(v@, id@, docs_view(docs@), key@) == Ok::<
                BsonView,
                AggregationError,
            >(x@),
            Err(e) => field_result(v@, id@, docs_view(docs@), key@) == Err::<
                BsonView,
                AggregationError,
            >(e),
        },
{
    let (a, expr) = match plan_field(v) {
        Ok(p) => p,
        Err(e) => {
            return Err(e);
        },
    };
    let values = gather(&expr, id, key, docs);
    accumulate(a, values)
}

/// Appends the field for the entry `i` of a group document to the
/// document of the group with the key `key`.
pub fn push_group_field(
    out: &mut Document,
    g: &Document,
    i: usize,
    id: &Bson,
    docs: &Vec<Document>,
    key: &Bson,
) -> (r: Result<(), AggregationError>)
    requires
        i < g@.len(),
    ensures
        match r {
            Ok(()) => group_fields(g@, id@, docs_view(docs@), key@, i as int, old(out)@)
                == group_fields(g@, id@, docs_view(docs@), key@, i as int + 1, final(out)@),
            Err(e) => group_fields(g@, id@, docs_view(docs@), key@, i as int, old(out)@) == Err::<
                DocView,
                AggregationError,
            >(e),
        },
{
    let name = g.key_at(i);
    if str_eq(name, "_id") {
        return Ok(());
    }
    match compute_field(g.value_at(i), id, docs, key) {
        Ok(v) => {
            out.push(name.to_owned(), v);
            Ok(())
        },
        Err(e) => Err(e),
    }
}

/// The document of the group with the key `key`.
pub fn build_group(g: &Document, id: &Bson, docs: &Vec<Document>, key: Bson) -> (r: Result<
    Document,
    AggregationError,
>)
    ensures
        match r {
            Ok(d) => group_document(g@, id@, docs_view(docs@), key@) == Ok::<
                DocView,
                AggregationError,
            >(d@),
            Err(e) => group_document(g@, id@, docs_view(docs@), key@) == Err::<
                DocView,
                AggregationError,
            >(e),
        },
{
    let ghost dv = docs_view(docs@);
    let ghost kv = key@;
    let ghost target = group_document(g@, id@, dv, kv);
    let mut out = Document::new();
    let found = key.clone_value();
    out.push("_id".to_owned(), key);
    assert(out@ =~= seq![("_id"@, kv)]);
    let mut i: usize = 0;
    while i < g.len()
        invariant
            i <= g@.len(),
            dv == docs_view(docs@),
            kv == found@,
            kv == key@,
            target == group_document(g@, id@, dv, kv),
            group_fields(g@, id@, dv, kv, i as int, out@) == target,
        decreases g@.len() - i,
    {
        match push_group_field(&mut out, g, i, id, docs, &found) {
            Ok(()) => {},
            Err(e) => {
                return Err(e);
            },
        }
        i = i + 1;
    }
    Ok(out)
}

/// Whether one of the first `n` documents has the key `key`.
pub fn key_seen(id: &Bson, docs: &Vec<Document>, key: &Bson, n: usize) -> (r: bool)
    requires
        n <= docs@.len(),
    ensures
        r == seen_before(id@, docs_view(docs@), key@, n as int),
{
    let mut i: usize = 0;
    while i < n
        invariant
            i <= n <= docs@.len(),
            !seen_before(id@, docs_view(docs@), key@, i as int),
        decreases n - i,
    {
        let k = evaluate(id, &docs[i]);
        if keys_equal(&k, key) {
            proof {
                lemma_seen_later(id@, docs_view(docs@), key@, i as int + 1, n as int);
            }
            return true;
        }
        i = i + 1;
    }
    false
}

/// A key that was seen among the first `i` documents was seen among the
/// first `n`.
pub proof fn lemma_seen_later(id: BsonView, docs: Seq<DocView>, key: BsonView, i: int, n: int)
    requires
        0 <= i <= n <= docs.len(),
        seen_before(id, docs, key, i),
    ensures
        seen_before(id, docs, key, n),
    decreases n - i,
{
    if i < n {
        lemma_seen_later(id, docs, key, i, n - 1);
    }
}

/// Where the groups of the first documents cannot be made, the groups of
/// all cannot, and for the same reason.
pub proof fn lemma_group_error_stays(
    g: DocView,
    id: BsonView,
    docs: Seq<DocView>,
    i: int,
    n: int,
    e: AggregationError,
)
    requires
        0 <= i <= n <= docs.len(),
        groups_upto(g, id, docs, i) == Err::<Seq<DocView>, AggregationError>(e),
    ensures
        groups_upto(g, id, docs, n) == Err::<Seq<DocView>, AggregationError>(e),
    decreases n - i,
{
    if i < n {
        lemma_group_error_stays(g, id, docs, i, n - 1, e);
    }
}

/// Runs the argument of a `$group` stage on the documents that came in.
#[verifier::loop_isolation(false)]
pub fn group_documents(docs: &Vec<Document>, arg: Option<&Bson>) -> (r: Result<
    Vec<Document>,
    AggregationError,
>)
    ensures
        crate::aggregation::stage_matches(
            r,
            run_group(crate::aggregation::maybe_view(arg), docs_view(docs@)),
        ),
{
    let g = match arg {
        Some(Bson::Document(g)) => {
            proof {
                lemma_view_document(*g);
            }
            g
        },
        _ => {
            return Err(AggregationError::InvalidArgument);
        },
    };
    let id = match g.get("_id") {
        Some(id) => id,
        None => {
            return Err(AggregationError::InvalidArgument);
        },
    };
    if is_compound(id) {
        return Err(AggregationError::NotImplemented);
    }
    let ghost dv = docs_view(docs@);
    let mut out: Vec<Document> = Vec::new();
    assert(docs_view(out@) =~= Seq::<DocView>::empty());
    let mut i: usize = 0;
    while i < docs.len()
        invariant
            i <= docs.len(),
            groups_upto(g@, id@, dv, i as int) == Ok::<Seq<DocView>, AggregationError>(
                docs_view(out@),
            ),
        decreases docs.len() - i,
    {
        let key = evaluate(id, &docs[i]);
        if !key_seen(id, docs, &key, i) {
            match build_group(g, id, docs, key) {
                Ok(d) => {
                    let ghost before = docs_view(out@);
                    out.push(d);
                    assert(docs_view(out@) =~= before.push(d@));
                },
                Err(e) => {
                    proof {
                        assert(groups_upto(g@, id@, dv, i as int + 1) == Err::<
                            Seq<DocView>,
                            AggregationError,
                        >(e));
                        lemma_group_error_stays(g@, id@, dv, i as int + 1, dv.len() as int, e);
                    }
                    return Err(e);
                },
            }
        }
        i = i + 1;
    }
    Ok(out)
}

} // verus!
