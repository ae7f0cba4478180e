//! What holds of updates whatever the document: setting a value twice is
//! setting it once, and incrementing twice by a number is incrementing once
//! by its double.

use crate::bson::{
    has_key, lemma_position, lemma_position_skip, lookup, position, position_from, with_entry,
    BsonView, DocView,
};
use crate::update::{
    apply_operator, dot_from, get_in, inc_value, int_of, int_value, path_of, segments_from,
    set_in, Path, UpdateError,
};
use vstd::utf8::encode_utf8;
use vstd::prelude::*;

verus! {

/// The first entry with a name is where `position` points.
pub proof fn lemma_position_is(d: DocView, k: Seq<char>, i: int)
    requires
        0 <= i < d.len(),
        d[i].0 == k,
        forall|j: int| 0 <= j < i ==> (#[trigger] d[j]).0 != k,
    ensures
        position(d, k) == i,
        has_key(d, k),
{
    lemma_position_skip(d, k, i);
    assert(position_from(d, k, i) == i);
}

/// A value that was set under a name is found under it.
pub proof fn lemma_lookup_with_entry(d: DocView, k: Seq<char>, v: BsonView)
    ensures
        lookup(with_entry(d, k, v), k) == Some(v),
        has_key(with_entry(d, k, v), k),
        position(with_entry(d, k, v), k) == position(d, k),
{
    lemma_position(d, k);
    let i = position(d, k);
    let e = with_entry(d, k, v);
    if has_key(d, k) {
        assert forall|j: int| 0 <= j < i implies (#[trigger] e[j]).0 != k by {
            assert(e[j] == d[j]);
        }
        lemma_position_is(e, k, i);
    } else {
        assert forall|j: int| 0 <= j < d.len() implies (#[trigger] e[j]).0 != k by {
            assert(e[j] == d[j]);
        }
        lemma_position_is(e, k, d.len() as int);
    }
}

/// Of two values set under a name one after the other, the second stays.
pub proof fn lemma_with_entry_twice(d: DocView, k: Seq<char>, a: BsonView, b: BsonView)
    ensures
        with_entry(with_entry(d, k, a), k, b) == with_entry(d, k, b),
{
    lemma_lookup_with_entry(d, k, a);
    lemma_position(d, k);
    let e = with_entry(d, k, a);
    if has_key(d, k) {
        assert(with_entry(e, k, b) =~= with_entry(d, k, b));
    } else {
        assert(with_entry(e, k, b) =~= with_entry(d, k, b));
    }
}

/// A value that was set at the end of a path is found there; of two values
/// set there one after the other, the second stays; and whether a path can
/// be set does not depend on the value.
pub proof fn lemma_set_in(d: DocView, p: Path, a: BsonView, b: BsonView)
    requires
        p.len() >= 1,
    ensures
        set_in(d, p, a) matches Ok(x) ==> get_in(x, p) == Some(a) && set_in(x, p, b) == set_in(
            d,
            p,
            b,
        ),
        set_in(d, p, a) matches Err(e) ==> set_in(d, p, b) == Err::<DocView, UpdateError>(e),
        set_in(d, p, a) is Ok <==> set_in(d, p, b) is Ok,
    decreases p.len(),
{
    let k = p[0];
    if p.len() == 1 {
        lemma_lookup_with_entry(d, k, a);
        lemma_with_entry_twice(d, k, a, b);
    } else {
        let t = p.drop_first();
        let inner = match lookup(d, k) {
            Some(BsonView::Document(x)) => x,
            _ => Seq::empty(),
        };
        match lookup(d, k) {
            Some(v) => {
                if !(v is Document) {
                    return ;
                }
            },
            None => {},
        }
        lemma_set_in(inner, t, a, b);
        match set_in(inner, t, a) {
            Ok(y) => {
                let x = with_entry(d, k, BsonView::Document(y));
                assert(set_in(d, p, a) == Ok::<DocView, UpdateError>(x));
                lemma_lookup_with_entry(d, k, BsonView::Document(y));
                assert(lookup(x, k) == Some(BsonView::Document(y)));
                assert(get_in(x, p) == get_in(y, t));
                let z = set_in(y, t, b)->Ok_0;
                assert(set_in(y, t, b) == set_in(inner, t, b));
                lemma_with_entry_twice(d, k, BsonView::Document(y), BsonView::Document(z));
            },
            Err(_) => {},
        }
    }
}

/// Index of the first dot at or after `i` is at or after `i`.
proof fn lemma_dot_from_bounds(b: Seq<u8>, i: int)
    requires
        0 <= i <= b.len(),
    ensures
        i <= dot_from(b, i) <= b.len(),
    decreases b.len() - i,
{
    if i < b.len() && b[i] != 46u8 {
        lemma_dot_from_bounds(b, i + 1);
    }
}

/// Every field name spells a path of at least one part.
pub proof fn lemma_path_has_parts(f: Seq<char>)
    ensures
        path_of(f).len() >= 1,
{
    let b = encode_utf8(f);
    lemma_dot_from_bounds(b, 0);
    assert(segments_from(b, 0).len() >= 1);
}

/// Update idempotence: setting a field to a value and then to the same
/// value again leaves what the first setting made.
pub proof fn lemma_set_twice(d: DocView, field: Seq<char>, v: BsonView)
    ensures
        apply_operator(d, "$set"@, field, v) matches Ok(x) ==> apply_operator(
            x,
            "$set"@,
            field,
            v,
        ) == Ok::<DocView, UpdateError>(x),
{
    lemma_path_has_parts(field);
    lemma_set_in(d, path_of(field), v, v);
}

/// Twice a number, in the width of the number.
pub open spec fn doubled(n: BsonView) -> BsonView {
    match n {
        BsonView::Int32(i) => BsonView::Int32((2 * i) as i32),
        BsonView::Int64(i) => BsonView::Int64((2 * i) as i64),
        _ => n,
    }
}

/// Whether twice a number fits the width of the number.
pub open spec fn can_double(n: BsonView) -> bool {
    match n {
        BsonView::Int32(i) => i32::MIN <= 2 * i <= i32::MAX,
        BsonView::Int64(i) => i64::MIN <= 2 * i <= i64::MAX,
        _ => false,
    }
}

/// The document after a field has been incremented twice by `n`.
pub open spec fn incremented_twice(d: DocView, field: Seq<char>, n: BsonView) -> Result<
    DocView,
    UpdateError,
> {
    match apply_operator(d, "$inc"@, field, n) {
        Ok(x) => apply_operator(x, "$inc"@, field, n),
        Err(e) => Err(e),
    }
}

/// Incrementing a value twice by an integer is incrementing it once by
/// twice the integer.
proof fn lemma_inc_value_twice(c: Option<BsonView>, n: BsonView)
    requires
        can_double(n),
    ensures
        match inc_value(c, n) {
            Ok(v) => inc_value(Some(v), n) == inc_value(c, doubled(n)),
            Err(e) => inc_value(c, doubled(n)) == Err::<BsonView, UpdateError>(e),
        },
{
}

/// Update idempotence: incrementing a field twice by an integer has the
/// effect of incrementing it once by twice the integer, where twice the
/// integer fits the integer's width.
pub proof fn lemma_inc_twice(d: DocView, field: Seq<char>, n: BsonView)
    requires
        can_double(n),
    ensures
        incremented_twice(d, field, n) == apply_operator(d, "$inc"@, field, doubled(n)),
{
    lemma_path_has_parts(field);
    reveal_strlit("$set");
    reveal_strlit("$unset");
    reveal_strlit("$inc");
    assert("$inc"@[1] != "$set"@[1]);
    assert("$inc"@.len() != "$unset"@.len());
    let p = path_of(field);
    let c = get_in(d, p);
    lemma_inc_value_twice(c, n);
    match inc_value(c, n) {
        Err(_) => {},
        Ok(v1) => {
            let once = inc_value(c, doubled(n));
            assert(inc_value(Some(v1), n) == once);
            match once {
                Ok(v2) => {
                    lemma_set_in(d, p, v1, v2);
                },
                Err(_) => {
                    lemma_set_in(d, p, v1, v1);
                },
            }
            if c.is_some() {
                lemma_found_can_be_set(d, p, v1);
            }
            match set_in(d, p, v1) {
                Ok(x) => {
                    assert(get_in(x, p) == Some(v1));
                },
                Err(_) => {},
            }
        },
    }
}

/// Where a path leads to a value, a value can be set at its end.
pub proof fn lemma_found_can_be_set(d: DocView, p: Path, v: BsonView)
    requires
        p.len() >= 1,
        get_in(d, p).is_some(),
    ensures
        set_in(d, p, v) is Ok,
    decreases p.len(),
{
    if p.len() > 1 {
        match lookup(d, p[0]) {
            Some(BsonView::Document(x)) => {
                lemma_found_can_be_set(x, p.drop_first(), v);
            },
            _ => {},
        }
    }
}

} // verus!
