//! Filters: which documents a filter document selects.
//!
//! A filter is a document. An entry whose name starts with `$` combines
//! filters (`$and`, `$or`, `$not`); every other entry is a condition on the
//! field of that name, either a value that the field has to equal or a
//! document of operators that the field has to satisfy. A document is
//! selected where every entry of the filter holds.

use crate::bson::{
    lemma_view_array, lemma_view_document, lookup, str_eq, values_view, Bson, BsonView, DocView,
    Document,
};
use crate::numeric::{compare_i64, compare_ints, compare_numbers, compare_numeric, Comparison};
use crate::system::{regex_outcome, regex_search};
use crate::text::concat;
use vstd::prelude::*;
use vstd::utf8::encode_utf8;

verus! {

/// Why a filter cannot be evaluated.
#[derive(Debug, Clone, Copy, PartialEq, Eq, Structural)]
pub enum FilterError {
    /// An operator that is not known.
    UnsupportedOperator,
    /// An operator with an argument of the wrong type.
    BadOperand,
    /// A regular expression that is malformed, or that the matcher cannot
    /// take.
    UnsupportedRegex,
}

/// Whether a name starts with `$`.
pub open spec fn is_operator_name(k: Seq<char>) -> bool {
    encode_utf8(k).len() > 0 && encode_utf8(k)[0] == 36u8
}

/// Whether a value is a document of operators: a document whose first name
/// starts with `$`.
pub open spec fn is_operator_doc(v: BsonView) -> bool {
    v matches BsonView::Document(d) && d.len() > 0 && is_operator_name(d[0].0)
}

/// Whether a value is an integer or a double.
pub open spec fn is_number(v: BsonView) -> bool {
    v is Int32 || v is Int64 || v is Double
}

/// Equality as filters see it: two numbers are equal where they are equal
/// as doubles; everything else is equal where it is the same value.
pub open spec fn values_equal(a: BsonView, b: BsonView) -> bool {
    if is_number(a) && is_number(b) {
        compare_numbers(a, b) == Some(Comparison::Equal)
    } else {
        a == b
    }
}

/// How two byte strings stand to each other from index `i` on, byte by
/// byte; a string that ends first is the lesser one.
pub open spec fn compare_bytes_from(x: Seq<u8>, y: Seq<u8>, i: int) -> Comparison
    decreases x.len() - i,
{
    if i < 0 || i >= x.len() {
        if i >= y.len() {
            Comparison::Equal
        } else {
            Comparison::Less
        }
    } else if i >= y.len() {
        Comparison::Greater
    } else if x[i] < y[i] {
        Comparison::Less
    } else if x[i] > y[i] {
        Comparison::Greater
    } else {
        compare_bytes_from(x, y, i + 1)
    }
}

/// How two values stand to each other; `None` where they cannot be
/// compared. Numbers are compared as doubles, strings byte by byte,
/// booleans with false before true, dates by their time; two nulls are
/// equal, and null stands before every other value. Other values of
/// different types, numbers apart, cannot be compared.
pub open spec fn compare_values(a: BsonView, b: BsonView) -> Option<Comparison> {
    if is_number(a) && is_number(b) {
        compare_numbers(a, b)
    } else {
        match (a, b) {
            (BsonView::String(x), BsonView::String(y)) => Some(
                compare_bytes_from(encode_utf8(x), encode_utf8(y), 0),
            ),
            (BsonView::Boolean(x), BsonView::Boolean(y)) => Some(
                compare_ints(
                    if x {
                        1
                    } else {
                        0
                    },
                    if y {
                        1
                    } else {
                        0
                    },
                ),
            ),
            (BsonView::DateTime(x), BsonView::DateTime(y)) => Some(
                compare_ints(x as int, y as int),
            ),
            (BsonView::Null, BsonView::Null) => Some(Comparison::Equal),
            (BsonView::Null, _) => Some(Comparison::Less),
            (_, BsonView::Null) => Some(Comparison::Greater),
            _ => None,
        }
    }
}

/// Whether some item of `items` equals `v`.
pub open spec fn contains_equal(items: Seq<BsonView>, v: BsonView) -> bool {
    exists|i: int| 0 <= i < items.len() && values_equal(v, #[trigger] items[i])
}

/// The pattern that the operand of `$regex` asks for: the text of a
/// string, or the pattern of a regular expression, with its flags in
/// front as `(?flags)` where it has any. `None` for other values.
pub open spec fn pattern_of(arg: BsonView) -> Option<Seq<char>> {
    match arg {
        BsonView::String(p) => Some(p),
        BsonView::Regex(p, flags) => Some(
            if flags.len() == 0 {
                p
            } else {
                "(?"@ + flags + ")"@ + p
            },
        ),
        _ => None,
    }
}

/// The text in which a pattern is searched for a field: the text of a
/// string, the empty text for every other field and for none.
pub open spec fn searched_text(field: Option<BsonView>) -> Seq<char> {
    match field {
        Some(BsonView::String(s)) => s,
        _ => Seq::empty(),
    }
}

/// What a search says of a field. `outcome` is `None` where the pattern
/// was refused, which is an error whatever the field holds; else it says
/// whether the pattern was found in the searched text, and the field
/// matches where it was and the field is a string.
pub open spec fn regex_verdict_of(outcome: Option<bool>, is_text: bool) -> Result<
    bool,
    FilterError,
> {
    match outcome {
        None => Err(FilterError::UnsupportedRegex),
        Some(found) => Ok(is_text && found),
    }
}

/// Whether a field, `None` where the document has none of the name,
/// satisfies one operator.
pub open spec fn eval_operator(op: Seq<char>, arg: BsonView, field: Option<BsonView>) -> Result<
    bool,
    FilterError,
> {
    if op == "$eq"@ {
        Ok(field matches Some(v) && values_equal(v, arg))
    } else if op == "$ne"@ {
        Ok(!(field matches Some(v) && values_equal(v, arg)))
    } else if op == "$gt"@ {
        Ok(field matches Some(v) && compare_values(v, arg) == Some(Comparison::Greater))
    } else if op == "$gte"@ {
        Ok(
            field matches Some(v) && (compare_values(v, arg) == Some(Comparison::Greater)
                || compare_values(v, arg) == Some(Comparison::Equal)),
        )
    } else if op == "$lt"@ {
        Ok(field matches Some(v) && compare_values(v, arg) == Some(Comparison::Less))
    } else if op == "$lte"@ {
        Ok(
            field matches Some(v) && (compare_values(v, arg) == Some(Comparison::Less)
                || compare_values(v, arg) == Some(Comparison::Equal)),
        )
    } else if op == "$in"@ {
        match arg {
            BsonView::Array(items) => Ok(field matches Some(v) && contains_equal(items, v)),
            _ => Err(FilterError::BadOperand),
        }
    } else if op == "$nin"@ {
        match arg {
            BsonView::Array(items) => Ok(!(field matches Some(v) && contains_equal(items, v))),
            _ => Err(FilterError::BadOperand),
        }
    } else if op == "$exists"@ {
        match arg {
            BsonView::Boolean(b) => Ok(field.is_some() == b),
            _ => Err(FilterError::BadOperand),
        }
    } else if op == "$regex"@ {
        match pattern_of(arg) {
            Some(p) => regex_verdict_of(
                regex_outcome(p, searched_text(field)),
                field matches Some(BsonView::String(_)),
            ),
            None => Err(FilterError::BadOperand),
        }
    } else {
        Err(FilterError::UnsupportedOperator)
    }
}

/// `acc` and what `r` holds, or the error of `r`.
pub open spec fn and_also(acc: bool, r: Result<bool, FilterError>) -> Result<bool, FilterError> {
    match r {
        Ok(b) => Ok(acc && b),
        Err(e) => Err(e),
    }
}

/// `acc` or what `r` holds, or the error of `r`.
pub open spec fn or_else(acc: bool, r: Result<bool, FilterError>) -> Result<bool, FilterError> {
    match r {
        Ok(b) => Ok(acc || b),
        Err(e) => Err(e),
    }
}

/// Whether a field satisfies every operator of `ops` from index `i` on. An
/// operator that cannot be evaluated gives its error, whatever the others
/// say.
pub open spec fn eval_operators(ops: DocView, field: Option<BsonView>, i: int) -> Result<
    bool,
    FilterError,
>
    decreases ops.len() - i,
{
    if i < 0 || i >= ops.len() {
        Ok(true)
    } else {
        match eval_operator(ops[i].0, ops[i].1, field) {
            Err(e) => Err(e),
            Ok(b) => and_also(b, eval_operators(ops, field, i + 1)),
        }
    }
}

/// Whether `doc` satisfies one entry of a filter.
pub open spec fn matches_entry(key: Seq<char>, v: BsonView, doc: DocView) -> Result<
    bool,
    FilterError,
>
    decreases v, 0int,
{
    if is_operator_name(key) {
        if key == "$and"@ {
            match v {
                BsonView::Array(items) => matches_all(items, doc, 0),
                _ => Err(FilterError::BadOperand),
            }
        } else if key == "$or"@ {
            match v {
                BsonView::Array(items) => matches_any(items, doc, 0),
                _ => Err(FilterError::BadOperand),
            }
        } else if key == "$not"@ {
            match v {
                BsonView::Document(f) => match matches_from(f, doc, 0) {
                    Ok(b) => Ok(!b),
                    Err(e) => Err(e),
                },
                _ => Err(FilterError::BadOperand),
            }
        } else {
            Err(FilterError::UnsupportedOperator)
        }
    } else if is_operator_doc(v) {
        eval_operators(v->Document_0, lookup(doc, key), 0)
    } else {
        Ok(lookup(doc, key) matches Some(x) && values_equal(x, v))
    }
}

/// Whether `doc` satisfies every entry of `filter` from index `i` on.
pub open spec fn matches_from(filter: DocView, doc: DocView, i: int) -> Result<bool, FilterError>
    decreases filter, filter.len() - i,
{
    if i < 0 || i >= filter.len() {
        Ok(true)
    } else {
        match matches_entry(filter[i].0, filter[i].1, doc) {
            Err(e) => Err(e),
            Ok(b) => and_also(b, matches_from(filter, doc, i + 1)),
        }
    }
}

/// Whether `doc` satisfies every filter of `items` from index `i` on.
pub open spec fn matches_all(items: Seq<BsonView>, doc: DocView, i: int) -> Result<
    bool,
    FilterError,
>
    decreases items, items.len() - i,
{
    if i < 0 || i >= items.len() {
        Ok(true)
    } else {
        match items[i] {
            BsonView::Document(f) => match matches_from(f, doc, 0) {
                Err(e) => Err(e),
                Ok(b) => and_also(b, matches_all(items, doc, i + 1)),
            },
            _ => Err(FilterError::BadOperand),
        }
    }
}

/// Whether `doc` satisfies some filter of `items` from index `i` on.
pub open spec fn matches_any(items: Seq<BsonView>, doc: DocView, i: int) -> Result<
    bool,
    FilterError,
>
    decreases items, items.len() - i,
{
    if i < 0 || i >= items.len() {
        Ok(false)
    } else {
        match items[i] {
            BsonView::Document(f) => match matches_from(f, doc, 0) {
                Err(e) => Err(e),
                Ok(b) => or_else(b, matches_any(items, doc, i + 1)),
            },
            _ => Err(FilterError::BadOperand),
        }
    }
}

/// Whether a filter selects a document.
pub open spec fn matches_filter(filter: DocView, doc: DocView) -> Result<bool, FilterError> {
    matches_from(filter, doc, 0)
}

/// Whether a name starts with `$`.
pub fn starts_with_dollar(k: &str) -> (r: bool)
    ensures
        r == is_operator_name(k@),
{
    let b = k.as_bytes();
    b.len() > 0 && b[0] == 36
}

/// Whether a value is a document of operators.
pub fn is_operator_document(v: &Bson) -> (r: bool)
    ensures
        r == is_operator_doc(v@),
{
    match v {
        Bson::Document(d) => {
            proof {
                lemma_view_document(*d);
            }
            d.len() > 0 && starts_with_dollar(d.key_at(0))
        },
        _ => false,
    }
}

/// Equality as filters see it.
pub fn equal_values(a: &Bson, b: &Bson) -> (r: bool)
    ensures
        r == values_equal(a@, b@),
{
    if a.is_numeric() && b.is_numeric() {
        match compare_numeric(a, b) {
            Some(Comparison::Equal) => true,
            _ => false,
        }
    } else {
        a.equals(b)
    }
}

/// How two byte strings stand to each other, byte by byte.
pub fn compare_bytes(x: &[u8], y: &[u8]) -> (r: Comparison)
    ensures
        r == compare_bytes_from(x@, y@, 0),
{
    let mut i: usize = 0;
    while i < x.len() && i < y.len()
        invariant
            i <= x.len(),
            i <= y.len(),
            compare_bytes_from(x@, y@, i as int) == compare_bytes_from(x@, y@, 0),
        decreases x.len() - i,
    {
        if x[i] < y[i] {
            return Comparison::Less;
        }
        if x[i] > y[i] {
            return Comparison::Greater;
        }
        i = i + 1;
    }
    if i >= x.len() {
        if i >= y.len() {
            Comparison::Equal
        } else {
            Comparison::Less
        }
    } else {
        Comparison::Greater
    }
}

/// How two values stand to each other.
pub fn compare(a: &Bson, b: &Bson) -> (r: Option<Comparison>)
    ensures
        r == compare_values(a@, b@),
{
    if a.is_numeric() && b.is_numeric() {
        return compare_numeric(a, b);
    }
    match (a, b) {
        (Bson::String(x), Bson::String(y)) => Some(
            compare_bytes(x.as_str().as_bytes(), y.as_str().as_bytes()),
        ),
        (Bson::Boolean(x), Bson::Boolean(y)) => {
            let xi: i64 = if *x {
                1
            } else {
                0
            };
            let yi: i64 = if *y {
                1
            } else {
                0
            };
            Some(compare_i64(xi, yi))
        },
        (Bson::DateTime(x), Bson::DateTime(y)) => Some(compare_i64(*x, *y)),
        (Bson::Null, Bson::Null) => Some(Comparison::Equal),
        (Bson::Null, _) => Some(Comparison::Less),
        (_, Bson::Null) => Some(Comparison::Greater),
        _ => None,
    }
}

/// Whether some item equals `v`.
pub fn any_equal(items: &Vec<Bson>, v: &Bson) -> (r: bool)
    ensures
        r == contains_equal(values_view(items@), v@),
{
    let mut i: usize = 0;
    while i < items.len()
        invariant
            i <= items.len(),
            forall|j: int| 0 <= j < i ==> !values_equal(v@, #[trigger] values_view(items@)[j]),
        decreases items.len() - i,
    {
        if equal_values(v, &items[i]) {
            assert(values_equal(v@, values_view(items@)[i as int]));
            return true;
        }
        i = i + 1;
    }
    false
}

/// The pattern that the operand of `$regex` asks for.
pub fn operand_pattern(arg: &Bson) -> (r: Option<String>)
    ensures
        match r {
            Some(p) => pattern_of(arg@) == Some(p@),
            None => pattern_of(arg@).is_none(),
        },
{
    match arg {
        Bson::String(p) => Some(p.clone()),
        Bson::Regex { pattern, options } => {
            if options.as_str().is_empty() {
                Some(pattern.clone())
            } else {
                let mut p = concat("(?", options.as_str());
                p.append(")");
                p.append(pattern.as_str());
                Some(p)
            }
        },
        _ => None,
    }
}

/// What a search says of a field: the error for a pattern that was
/// refused, else whether the field is a string in which the pattern was
/// found.
pub fn regex_verdict(outcome: Option<bool>, is_text: bool) -> (r: Result<bool, FilterError>)
    ensures
        r == regex_verdict_of(outcome, is_text),
{
    match outcome {
        None => Err(FilterError::UnsupportedRegex),
        Some(found) => Ok(is_text && found),
    }
}

/// The model of a field that may be missing.
pub open spec fn field_view(f: Option<&Bson>) -> Option<BsonView> {
    match f {
        Some(v) => Some(v@),
        None => None,
    }
}

/// Whether a field satisfies one operator.
pub fn evaluate_operator(op: &str, arg: &Bson, field: Option<&Bson>) -> (r: Result<
    bool,
    FilterError,
>)
    ensures
        r == eval_operator(op@, arg@, field_view(field)),
{
    if str_eq(op, "$eq") {
        Ok(
            match field {
                Some(v) => equal_values(v, arg),
                None => false,
            },
        )
    } else if str_eq(op, "$ne") {
        Ok(
            match field {
                Some(v) => !equal_values(v, arg),
                None => true,
            },
        )
    } else if str_eq(op, "$gt") {
        Ok(
            match field {
                Some(v) => match compare(v, arg) {
                    Some(Comparison::Greater) => true,
                    _ => false,
                },
                None => false,
            },
        )
    } else if str_eq(op, "$gte") {
        Ok(
            match field {
                Some(v) => match compare(v, arg) {
                    Some(Comparison::Greater) => true,
                    Some(Comparison::Equal) => true,
                    _ => false,
                },
                None => false,
            },
        )
    } else if str_eq(op, "$lt") {
        Ok(
            match field {
                Some(v) => match compare(v, arg) {
                    Some(Comparison::Less) => true,
                    _ => false,
                },
                None => false,
            },
        )
    } else if str_eq(op, "$lte") {
        Ok(
            match field {
                Some(v) => match compare(v, arg) {
                    Some(Comparison::Less) => true,
                    Some(Comparison::Equal) => true,
                    _ => false,
                },
                None => false,
            },
        )
    } else if str_eq(op, "$in") {
        match arg.as_array() {
            Some(items) => Ok(
                match field {
                    Some(v) => any_equal(items, v),
                    None => false,
                },
            ),
            None => Err(FilterError::BadOperand),
        }
    } else if str_eq(op, "$nin") {
        match arg.as_array() {
            Some(items) => Ok(
                match field {
                    Some(v) => !any_equal(items, v),
                    None => true,
                },
            ),
            None => Err(FilterError::BadOperand),
        }
    } else if str_eq(op, "$exists") {
        match arg.as_bool() {
            Some(b) => Ok(field.is_some() == b),
            None => Err(FilterError::BadOperand),
        }
    } else if str_eq(op, "$regex") {
        match operand_pattern(arg) {
            Some(p) => {
                let (text, is_text): (&str, bool) = match field {
                    Some(Bson::String(s)) => (s.as_str(), true),
                    _ => ("", false),
                };
                proof {
                    reveal_strlit("");
                    assert(text@ =~= searched_text(field_view(field)));
                }
                regex_verdict(regex_search(p.as_str(), text), is_text)
            },
            None => Err(FilterError::BadOperand),
        }
    } else {
        Err(FilterError::UnsupportedOperator)
    }
}

/// Whether a field satisfies every operator of `ops`.
pub fn evaluate_operators(ops: &Document, field: Option<&Bson>) -> (r: Result<bool, FilterError>)
    ensures
        r == eval_operators(ops@, field_view(field), 0),
{
    let mut acc = true;
    let mut i: usize = 0;
    while i < ops.len()
        invariant
            i <= ops@.len(),
            eval_operators(ops@, field_view(field), 0) == and_also(
                acc,
                eval_operators(ops@, field_view(field), i as int),
            ),
        decreases ops@.len() - i,
    {
        match evaluate_operator(ops.key_at(i), ops.value_at(i), field) {
            Err(e) => {
                return Err(e);
            },
            Ok(b) => {
                acc = acc && b;
            },
        }
        i = i + 1;
    }
    Ok(acc)
}

/// Whether `doc` satisfies one entry of a filter.
#[verifier::loop_isolation(false)]
pub fn entry_matches(key: &str, v: &Bson, doc: &Document) -> (r: Result<bool, FilterError>)
    ensures
        r == matches_entry(key@, v@, doc@),
    decreases v, 0int,
{
    if starts_with_dollar(key) {
        let is_and = str_eq(key, "$and");
        let is_or = str_eq(key, "$or");
        if is_and || is_or {
            match v {
                Bson::Array(items) => {
                    proof {
                        lemma_view_array(*items);
                    }
                    let ghost iv = values_view(items@);
                    let mut acc = is_and;
                    let mut i: usize = 0;
                    while i < items.len()
                        invariant
                            i <= items.len(),
                            is_and ==> matches_all(iv, doc@, 0) == and_also(
                                acc,
                                matches_all(iv, doc@, i as int),
                            ),
                            !is_and ==> matches_any(iv, doc@, 0) == or_else(
                                acc,
                                matches_any(iv, doc@, i as int),
                            ),
                        decreases items.len() - i,
                    {
                        match &items[i] {
                            Bson::Document(f) => {
                                proof {
                                    lemma_view_document(*f);
                                }
                                match document_matches_from(f, doc) {
                                    Err(e) => {
                                        return Err(e);
                                    },
                                    Ok(b) => {
                                        if is_and {
                                            acc = acc && b;
                                        } else {
                                            acc = acc || b;
                                        }
                                    },
                                }
                            },
                            _ => {
                                return Err(FilterError::BadOperand);
                            },
                        }
                        i = i + 1;
                    }
                    Ok(acc)
                },
                _ => Err(FilterError::BadOperand),
            }
        } else if str_eq(key, "$not") {
            match v {
                Bson::Document(f) => {
                    proof {
                        lemma_view_document(*f);
                    }
                    match document_matches_from(f, doc) {
                        Ok(b) => Ok(!b),
                        Err(e) => Err(e),
                    }
                },
                _ => Err(FilterError::BadOperand),
            }
        } else {
            Err(FilterError::UnsupportedOperator)
        }
    } else if is_operator_document(v) {
        match v {
            Bson::Document(ops) => {
                proof {
                    lemma_view_document(*ops);
                }
                evaluate_operators(ops, doc.get(key))
            },
            _ => Ok(false),
        }
    } else {
        Ok(
            match doc.get(key) {
                Some(x) => equal_values(x, v),
                None => false,
            },
        )
    }
}

/// Whether `doc` satisfies every entry of `filter`.
#[verifier::loop_isolation(false)]
pub fn document_matches_from(filter: &Document, doc: &Document) -> (r: Result<bool, FilterError>)
    ensures
        r == matches_from(filter@, doc@, 0),
    decreases filter, 1int,
{
    let mut acc = true;
    let mut i: usize = 0;
    while i < filter.entries.len()
        invariant
            i <= filter.entries.len(),
            matches_from(filter@, doc@, 0) == and_also(acc, matches_from(filter@, doc@, i as int)),
        decreases filter.entries.len() - i,
    {
        match entry_matches(filter.entries[i].0.as_str(), &filter.entries[i].1, doc) {
            Err(e) => {
                return Err(e);
            },
            Ok(b) => {
                acc = acc && b;
            },
        }
        i = i + 1;
    }
    Ok(acc)
}

/// Whether a filter selects a document.
///
/// An operator that is not known gives `UnsupportedOperator`, an operator
/// with an argument of the wrong type `BadOperand`, a malformed regular
/// expression `UnsupportedRegex`, wherever in the filter it stands
/// and whatever the rest of the filter says.
pub fn document_matches(filter: &Document, doc: &Document) -> (r: Result<bool, FilterError>)
    ensures
        r == matches_filter(filter@, doc@),
{
    document_matches_from(filter, doc)
}

/// The documents of `docs` that a filter selects, in their order.
pub open spec fn select(filter: DocView, docs: Seq<DocView>) -> Seq<DocView>
    decreases docs.len(),
{
    if docs.len() == 0 {
        docs
    } else if matches_filter(filter, docs.last()) == Ok::<bool, FilterError>(true) {
        select(filter, docs.drop_last()).push(docs.last())
    } else {
        select(filter, docs.drop_last())
    }
}

/// The first document of `docs` on which a filter cannot be evaluated.
pub open spec fn first_failure(filter: DocView, docs: Seq<DocView>, i: int) -> Option<FilterError>
    decreases docs.len() - i,
{
    if i < 0 || i >= docs.len() {
        None
    } else {
        match matches_filter(filter, docs[i]) {
            Err(e) => Some(e),
            Ok(_) => first_failure(filter, docs, i + 1),
        }
    }
}

/// Filter equivalence: the documents that `select` keeps are exactly those
/// that the filter matches, and they keep their order.
pub proof fn lemma_select(filter: DocView, docs: Seq<DocView>)
    ensures
        select(filter, docs).len() <= docs.len(),
        forall|d: DocView|
            select(filter, docs).contains(d) <==> docs.contains(d) && matches_filter(filter, d)
                == Ok::<bool, FilterError>(true),
    decreases docs.len(),
{
    if docs.len() > 0 {
        let front = docs.drop_last();
        let last = docs.last();
        lemma_select(filter, front);
        assert forall|d: DocView|
            select(filter, docs).contains(d) <==> docs.contains(d) && matches_filter(filter, d)
                == Ok::<bool, FilterError>(true) by {
            let keep = matches_filter(filter, last) == Ok::<bool, FilterError>(true);
            if select(filter, docs).contains(d) {
                let s = select(filter, docs);
                let i = choose|i: int| 0 <= i < s.len() && s[i] == d;
                if keep && i == s.len() - 1 {
                    assert(docs[docs.len() - 1] == d);
                } else {
                    assert(select(filter, front)[i] == d);
                    assert(select(filter, front).contains(d));
                    let j = choose|j: int| 0 <= j < front.len() && front[j] == d;
                    assert(docs[j] == d);
                }
            }
            if docs.contains(d) && matches_filter(filter, d) == Ok::<bool, FilterError>(true) {
                let j = choose|j: int| 0 <= j < docs.len() && docs[j] == d;
                if j == docs.len() - 1 {
                    let s = select(filter, docs);
                    assert(s[s.len() - 1] == d);
                } else {
                    assert(front[j] == d);
                    assert(front.contains(d));
                    let sf = select(filter, front);
                    let i = choose|i: int| 0 <= i < sf.len() && sf[i] == d;
                    assert(select(filter, docs)[i] == d);
                }
            }
        }
    }
}

} // verus!
