//! Indexes: what a request for an index may ask for, the names of
//! indexes, and the statements that make and drop them in the backend.
//!
//! Statements that define indexes take no parameters. Field names and
//! literals are written into them as quoted literals, the names of
//! indexes and tables as checked identifiers.

use crate::bson::{
    lemma_view_document, lookup, str_eq, Bson, BsonView, DocView, Document,
};
use crate::filter::{is_operator_name, starts_with_dollar};
use crate::text::concat;
use vstd::prelude::*;

verus! {

/// What an index may be asked to do beyond its key. Doubles are held as
/// their IEEE-754 bits.
#[derive(Debug, PartialEq)]
pub struct IndexOptions {
    pub unique: Option<bool>,
    pub sparse: Option<bool>,
    pub background: Option<bool>,
    pub name: Option<String>,
    pub drop_dups: Option<bool>,
    pub min: Option<u64>,
    pub max: Option<u64>,
    pub v: Option<i32>,
    pub weights: Option<Document>,
    pub default_language: Option<String>,
    pub language_override: Option<String>,
    pub text_index_version: Option<i32>,
    pub sphere_index_version: Option<i32>,
    pub bits: Option<i32>,
    pub min_longitude: Option<u64>,
    pub max_longitude: Option<u64>,
    pub min_latitude: Option<u64>,
    pub max_latitude: Option<u64>,
    pub expire_after_seconds: Option<i32>,
    pub partial_filter_expression: Option<Document>,
    pub collation: Option<Document>,
    pub wildcard_projection: Option<Document>,
    pub hidden: Option<bool>,
    pub prepare_unique: Option<bool>,
    pub clustered: Option<bool>,
}

/// An index on a collection. The time is in milliseconds since the Unix
/// epoch.
#[derive(Debug, PartialEq)]
pub struct IndexSpec {
    pub name: String,
    pub key: Document,
    pub options: IndexOptions,
    pub created_at: i64,
    pub collection: String,
    pub database: String,
}

/// The kinds of indexes.
#[derive(Debug, Clone, Copy, PartialEq, Eq, Structural)]
pub enum IndexType {
    Ascending,
    Descending,
    Text,
    Geospatial2d,
    Geospatial2dSphere,
    Hashed,
    Wildcard,
    Clustered,
    Partial,
    Sparse,
    Unique,
    TTL,
}

/// What a field of an index key asks for.
#[derive(Debug, Clone, Copy, PartialEq, Eq, Structural)]
pub enum KeyKind {
    Ascending,
    Descending,
    Text,
    Sphere,
    Hashed,
}

/// Why an index cannot be made or dropped.
#[derive(Debug, Clone, Copy, PartialEq, Eq, Structural)]
pub enum IndexError {
    /// A key without fields.
    EmptyKey,
    /// A field whose name starts with `$`.
    OperatorField,
    /// A field with something else than 1, -1, `text`, `2dsphere` or
    /// `hashed`.
    BadDirection,
    /// A text field beside other fields.
    TextNotAlone,
    /// More than one `2dsphere` field.
    TooManyGeoFields,
    /// An index that lets documents expire with more than one field.
    TtlNeedsOneField,
    /// An index that lets documents expire on a field that is neither
    /// ascending nor descending.
    TtlNeedsDirection,
    /// A name that is no identifier once it is sanitized.
    InvalidIdentifier,
    /// A text that cannot be written as a literal.
    BadLiteral,
    /// A partial filter beyond equality, `$ne` and `$exists`.
    UnsupportedPartialFilter,
    /// No index of the name on the collection.
    NotFound,
    /// The index on `_id` cannot be dropped.
    CannotDropIdIndex,
}

/// Whether `o` asks for nothing: every option is left out.
pub open spec fn asks_nothing(o: IndexOptions) -> bool {
    &&& o.unique.is_none()
    &&& o.sparse.is_none()
    &&& o.background.is_none()
    &&& o.name.is_none()
    &&& o.drop_dups.is_none()
    &&& o.min.is_none()
    &&& o.max.is_none()
    &&& o.v.is_none()
    &&& o.weights.is_none()
    &&& o.default_language.is_none()
    &&& o.language_override.is_none()
    &&& o.text_index_version.is_none()
    &&& o.sphere_index_version.is_none()
    &&& o.bits.is_none()
    &&& o.min_longitude.is_none()
    &&& o.max_longitude.is_none()
    &&& o.min_latitude.is_none()
    &&& o.max_latitude.is_none()
    &&& o.expire_after_seconds.is_none()
    &&& o.partial_filter_expression.is_none()
    &&& o.collation.is_none()
    &&& o.wildcard_projection.is_none()
    &&& o.hidden.is_none()
    &&& o.prepare_unique.is_none()
    &&& o.clustered.is_none()
}

impl IndexOptions {
    /// Options that ask for nothing.
    pub fn new() -> (r: Self)
        ensures
            asks_nothing(r),
    {
        IndexOptions {
            unique: None,
            sparse: None,
            background: None,
            name: None,
            drop_dups: None,
            min: None,
            max: None,
            v: None,
            weights: None,
            default_language: None,
            language_override: None,
            text_index_version: None,
            sphere_index_version: None,
            bits: None,
            min_longitude: None,
            max_longitude: None,
            min_latitude: None,
            max_latitude: None,
            expire_after_seconds: None,
            partial_filter_expression: None,
            collation: None,
            wildcard_projection: None,
            hidden: None,
            prepare_unique: None,
            clustered: None,
        }
    }
}

/// What the value of a field of an index key asks for.
pub open spec fn kind_of_key(v: BsonView) -> Option<KeyKind> {
    match v {
        BsonView::Int32(i) => if i == 1 {
            Some(KeyKind::Ascending)
        } else if i == -1 {
            Some(KeyKind::Descending)
        } else {
            None
        },
        BsonView::Int64(i) => if i == 1 {
            Some(KeyKind::Ascending)
        } else if i == -1 {
            Some(KeyKind::Descending)
        } else {
            None
        },
        BsonView::String(s) => if s == "text"@ {
            Some(KeyKind::Text)
        } else if s == "2dsphere"@ {
            Some(KeyKind::Sphere)
        } else if s == "hashed"@ {
            Some(KeyKind::Hashed)
        } else {
            None
        },
        _ => None,
    }
}

/// The first fault of the fields of a key from index `i` on: a name that
/// starts with `$`, or a value that asks for nothing known.
pub open spec fn field_fault(key: DocView, i: int) -> Option<IndexError>
    decreases key.len() - i,
{
    if i < 0 || i >= key.len() {
        None
    } else if is_operator_name(key[i].0) {
        Some(IndexError::OperatorField)
    } else if kind_of_key(key[i].1).is_none() {
        Some(IndexError::BadDirection)
    } else {
        field_fault(key, i + 1)
    }
}

/// Number of fields of a key from index `i` on that ask for `kind`.
pub open spec fn kind_count(key: DocView, kind: KeyKind, i: int) -> int
    decreases key.len() - i,
{
    if i < 0 || i >= key.len() {
        0
    } else {
        (if kind_of_key(key[i].1) == Some(kind) {
            1int
        } else {
            0int
        }) + kind_count(key, kind, i + 1)
    }
}

/// Why an index with the given key cannot be made, if it cannot; `ttl`
/// says whether the index lets documents expire.
///
/// The key has to have a field; no field may start with `$`, and each has
/// to ask for something known; a text field stands alone; at most one
/// field is a `2dsphere` field; and an index that lets documents expire
/// has one field, ascending or descending.
pub open spec fn index_fault(key: DocView, ttl: bool) -> Option<IndexError> {
    if key.len() == 0 {
        Some(IndexError::EmptyKey)
    } else if field_fault(key, 0).is_some() {
        field_fault(key, 0)
    } else if kind_count(key, KeyKind::Text, 0) > 0 && key.len() > 1 {
        Some(IndexError::TextNotAlone)
    } else if kind_count(key, KeyKind::Sphere, 0) > 1 {
        Some(IndexError::TooManyGeoFields)
    } else if ttl && key.len() != 1 {
        Some(IndexError::TtlNeedsOneField)
    } else if ttl && kind_of_key(key[0].1) != Some(KeyKind::Ascending) && kind_of_key(key[0].1)
        != Some(KeyKind::Descending) {
        Some(IndexError::TtlNeedsDirection)
    } else {
        None
    }
}

/// How a kind is written in the name of an index.
pub open spec fn kind_text(k: Option<KeyKind>) -> Seq<char> {
    match k {
        Some(KeyKind::Descending) => "-1"@,
        Some(KeyKind::Text) => "text"@,
        Some(KeyKind::Sphere) => "2dsphere"@,
        Some(KeyKind::Hashed) => "hashed"@,
        _ => "1"@,
    }
}

/// `so_far` with the parts of a default name for the fields of a key from
/// index `i` on: each field with what it asks for, joined by underscores.
pub open spec fn with_name_parts(so_far: Seq<char>, key: DocView, i: int) -> Seq<char>
    decreases key.len() - i,
{
    if i < 0 || i >= key.len() {
        so_far
    } else {
        with_name_parts(
            (if i > 0 {
                so_far + "_"@
            } else {
                so_far
            }) + key[i].0 + "_"@ + kind_text(kind_of_key(key[i].1)),
            key,
            i + 1,
        )
    }
}

/// The name of an index that was given none.
pub open spec fn default_index_name(key: DocView) -> Seq<char> {
    with_name_parts("idx_"@, key, 0)
}

/// The kind of an index: what its options ask for decides first, then the
/// first field of its key that asks for something special.
pub open spec fn special_kind(key: DocView, i: int) -> IndexType
    decreases key.len() - i,
{
    if i < 0 || i >= key.len() {
        IndexType::Ascending
    } else {
        match key[i].1 {
            BsonView::String(s) => if s == "text"@ {
                IndexType::Text
            } else if s == "2dsphere"@ {
                IndexType::Geospatial2dSphere
            } else if s == "2d"@ {
                IndexType::Geospatial2d
            } else if s == "hashed"@ {
                IndexType::Hashed
            } else {
                special_kind(key, i + 1)
            },
            _ => special_kind(key, i + 1),
        }
    }
}

/// The kind of an index.
pub open spec fn index_type_of(spec: IndexSpec) -> IndexType {
    if spec.options.unique == Some(true) {
        IndexType::Unique
    } else if spec.options.sparse == Some(true) {
        IndexType::Sparse
    } else if spec.options.expire_after_seconds.is_some() {
        IndexType::TTL
    } else if spec.options.partial_filter_expression.is_some() {
        IndexType::Partial
    } else {
        special_kind(spec.key@, 0)
    }
}

/// What the value of a field of an index key asks for.
pub fn key_kind(v: &Bson) -> (r: Option<KeyKind>)
    ensures
        r == kind_of_key(v@),
{
    match v {
        Bson::Int32(i) => {
            if *i == 1 {
                Some(KeyKind::Ascending)
            } else if *i == -1 {
                Some(KeyKind::Descending)
            } else {
                None
            }
        },
        Bson::Int64(i) => {
            if *i == 1 {
                Some(KeyKind::Ascending)
            } else if *i == -1 {
                Some(KeyKind::Descending)
            } else {
                None
            }
        },
        Bson::String(s) => {
            if str_eq(s.as_str(), "text") {
                Some(KeyKind::Text)
            } else if str_eq(s.as_str(), "2dsphere") {
                Some(KeyKind::Sphere)
            } else if str_eq(s.as_str(), "hashed") {
                Some(KeyKind::Hashed)
            } else {
                None
            }
        },
        _ => None,
    }
}

/// How a kind is written in the name of an index.
pub fn kind_name(k: Option<KeyKind>) -> (r: &'static str)
    ensures
        r@ == kind_text(k),
{
    match k {
        Some(KeyKind::Descending) => "-1",
        Some(KeyKind::Text) => "text",
        Some(KeyKind::Sphere) => "2dsphere",
        Some(KeyKind::Hashed) => "hashed",
        _ => "1",
    }
}

/// Number of fields of a key that ask for `kind`.
fn count_kind(key: &Document, kind: KeyKind) -> (r: usize)
    ensures
        r == kind_count(key@, kind, 0),
        r <= key@.len(),
{
    let mut n: usize = 0;
    let mut i: usize = key.len();
    while i > 0
        invariant
            i <= key@.len(),
            n == kind_count(key@, kind, i as int),
            n <= key@.len() - i,
        decreases i,
    {
        i = i - 1;
        match key_kind(key.value_at(i)) {
            Some(k) => {
                if same_kind(k, kind) {
                    n = n + 1;
                }
            },
            None => {},
        }
    }
    n
}

fn same_kind(a: KeyKind, b: KeyKind) -> (r: bool)
    ensures
        r == (a == b),
{
    match (a, b) {
        (KeyKind::Ascending, KeyKind::Ascending) => true,
        (KeyKind::Descending, KeyKind::Descending) => true,
        (KeyKind::Text, KeyKind::Text) => true,
        (KeyKind::Sphere, KeyKind::Sphere) => true,
        (KeyKind::Hashed, KeyKind::Hashed) => true,
        _ => false,
    }
}

/// The first fault of the fields of a key.
fn first_field_fault(key: &Document) -> (r: Option<IndexError>)
    ensures
        r == field_fault(key@, 0),
{
    let mut i: usize = 0;
    while i < key.len()
        invariant
            i <= key@.len(),
            field_fault(key@, i as int) == field_fault(key@, 0),
        decreases key@.len() - i,
    {
        if starts_with_dollar(key.key_at(i)) {
            return Some(IndexError::OperatorField);
        }
        if key_kind(key.value_at(i)).is_none() {
            return Some(IndexError::BadDirection);
        }
        i = i + 1;
    }
    None
}

/// Checks the key and the options of an index.
pub fn validate_index_spec(spec: &IndexSpec) -> (r: Result<(), IndexError>)
    ensures
        match r {
            Ok(()) => index_fault(spec.key@, spec.options.expire_after_seconds.is_some()).is_none(),
            Err(e) => index_fault(spec.key@, spec.options.expire_after_seconds.is_some()) == Some(
                e,
            ),
        },
{
    let key = &spec.key;
    if key.len() == 0 {
        return Err(IndexError::EmptyKey);
    }
    match first_field_fault(key) {
        Some(e) => {
            return Err(e);
        },
        None => {},
    }
    if count_kind(key, KeyKind::Text) > 0 && key.len() > 1 {
        return Err(IndexError::TextNotAlone);
    }
    if count_kind(key, KeyKind::Sphere) > 1 {
        return Err(IndexError::TooManyGeoFields);
    }
    if spec.options.expire_after_seconds.is_some() {
        if key.len() != 1 {
            return Err(IndexError::TtlNeedsOneField);
        }
        match key_kind(key.value_at(0)) {
            Some(KeyKind::Ascending) => {},
            Some(KeyKind::Descending) => {},
            _ => {
                return Err(IndexError::TtlNeedsDirection);
            },
        }
    }
    Ok(())
}

/// The name of an index: the name that its options give it, or one made
/// of its fields.
pub fn generate_index_name(spec: &IndexSpec) -> (r: String)
    ensures
        r@ == (match spec.options.name {
            Some(n) => n@,
            None => default_index_name(spec.key@),
        }),
{
    match &spec.options.name {
        Some(n) => {
            return n.clone();
        },
        None => {},
    }
    let key = &spec.key;
    let mut out = String::from_str("idx_");
    let mut i: usize = 0;
    while i < key.len()
        invariant
            i <= key@.len(),
            with_name_parts(out@, key@, i as int) == default_index_name(key@),
        decreases key@.len() - i,
    {
        let ghost before = out@;
        if i > 0 {
            out.append("_");
        }
        out.append(key.key_at(i));
        out.append("_");
        out.append(kind_name(key_kind(key.value_at(i))));
        assert(out@ =~= (if i > 0 {
            before + "_"@
        } else {
            before
        }) + key@[i as int].0 + "_"@ + kind_text(kind_of_key(key@[i as int].1)));
        i = i + 1;
    }
    out
}

fn special_kind_of(key: &Document) -> (r: IndexType)
    ensures
        r == special_kind(key@, 0),
{
    let mut i: usize = 0;
    while i < key.len()
        invariant
            i <= key@.len(),
            special_kind(key@, i as int) == special_kind(key@, 0),
        decreases key@.len() - i,
    {
        match key.value_at(i) {
            Bson::String(s) => {
                if str_eq(s.as_str(), "text") {
                    return IndexType::Text;
                } else if str_eq(s.as_str(), "2dsphere") {
                    return IndexType::Geospatial2dSphere;
                } else if str_eq(s.as_str(), "2d") {
                    return IndexType::Geospatial2d;
                } else if str_eq(s.as_str(), "hashed") {
                    return IndexType::Hashed;
                }
            },
            _ => {},
        }
        i = i + 1;
    }
    IndexType::Ascending
}

/// The kind of an index.
pub fn determine_index_type(spec: &IndexSpec) -> (r: IndexType)
    ensures
        r == index_type_of(*spec),
{
    match spec.options.unique {
        Some(true) => {
            return IndexType::Unique;
        },
        _ => {},
    }
    match spec.options.sparse {
        Some(true) => {
            return IndexType::Sparse;
        },
        _ => {},
    }
    if spec.options.expire_after_seconds.is_some() {
        return IndexType::TTL;
    }
    if spec.options.partial_filter_expression.is_some() {
        return IndexType::Partial;
    }
    special_kind_of(&spec.key)
}

/// Whether a field of a list of indexes is part of one of their keys.
pub fn field_has_index(indexes: &Vec<IndexSpec>, field: &str) -> (r: bool)
    ensures
        r == exists|i: int|
            0 <= i < indexes@.len() && crate::bson::has_key(
                (#[trigger] indexes@[i]).key@,
                field@,
            ),
{
    let mut i: usize = 0;
    while i < indexes.len()
        invariant
            i <= indexes.len(),
            forall|j: int|
                0 <= j < i ==> !crate::bson::has_key((#[trigger] indexes@[j]).key@, field@),
        decreases indexes.len() - i,
    {
        if indexes[i].key.contains_key(field) {
            return true;
        }
        i = i + 1;
    }
    false
}

/// The first `n` characters of a text with every single quote doubled.
pub open spec fn doubled(s: Seq<char>, n: int) -> Seq<char>
    decreases n,
{
    if n <= 0 || n > s.len() {
        Seq::empty()
    } else {
        doubled(s, n - 1) + (if s[n - 1] == '\'' {
            "''"@
        } else {
            seq![s[n - 1]]
        })
    }
}

/// A text as a literal of a statement: between single quotes, with every
/// single quote inside doubled.
pub open spec fn quoted(s: Seq<char>) -> Seq<char> {
    "'"@ + doubled(s, s.len() as int) + "'"@
}

/// Whether a text can be written as a literal: it holds no character
/// zero.
pub open spec fn can_quote(s: Seq<char>) -> bool {
    forall|i: int| 0 <= i < s.len() ==> #[trigger] s[i] != '\0'
}

/// A text as a literal of a statement. A text with the character zero in
/// it gives `BadLiteral`.
pub fn quote_literal(s: &str) -> (r: Result<String, IndexError>)
    ensures
        match r {
            Ok(q) => can_quote(s@) && q@ == quoted(s@),
            Err(e) => e == IndexError::BadLiteral && !can_quote(s@),
        },
{
    let n = s.unicode_len();
    let mut out = String::from_str("'");
    let mut i: usize = 0;
    while i < n
        invariant
            i <= n,
            n == s@.len(),
            out@ == "'"@ + doubled(s@, i as int),
            forall|j: int| 0 <= j < i ==> #[trigger] s@[j] != '\0',
        decreases n - i,
    {
        let c = s.get_char(i);
        if c == '\0' {
            return Err(IndexError::BadLiteral);
        }
        let ghost before = out@;
        if c == '\'' {
            out.append("''");
        } else {
            let one = s.substring_char(i, i + 1);
            assert(one@ =~= seq![s@[i as int]]);
            out.append(one);
        }
        assert(out@ =~= "'"@ + doubled(s@, i as int + 1));
        i = i + 1;
    }
    out.append("'");
    Ok(out)
}

/// The text of a literal of a partial filter: a string, an integer or a
/// boolean.
pub open spec fn partial_literal(v: BsonView) -> Option<Seq<char>> {
    match crate::sql::literal_param(v) {
        Some(crate::sql::ParamView::Text(t)) => Some(t),
        _ => None,
    }
}

/// The condition that one entry of a partial filter lowers to: equality
/// for a literal, and the operators `$exists` and `$ne`.
pub open spec fn partial_condition(field: Seq<char>, v: BsonView) -> Result<
    Seq<char>,
    IndexError,
> {
    if !can_quote(field) {
        Err(IndexError::BadLiteral)
    } else {
        match v {
            BsonView::Document(d) => if d.len() != 1 {
                Err(IndexError::UnsupportedPartialFilter)
            } else if d[0].0 == "$exists"@ {
                match d[0].1 {
                    BsonView::Boolean(b) => if b {
                        Ok("data ? "@ + quoted(field))
                    } else {
                        Ok("NOT (data ? "@ + quoted(field) + ")"@)
                    },
                    _ => Err(IndexError::UnsupportedPartialFilter),
                }
            } else if d[0].0 == "$ne"@ {
                match partial_literal(d[0].1) {
                    Some(t) => if can_quote(t) {
                        Ok("data ->> "@ + quoted(field) + " IS DISTINCT FROM "@ + quoted(t))
                    } else {
                        Err(IndexError::BadLiteral)
                    },
                    None => Err(IndexError::UnsupportedPartialFilter),
                }
            } else {
                Err(IndexError::UnsupportedPartialFilter)
            },
            _ => match partial_literal(v) {
                Some(t) => if can_quote(t) {
                    Ok("data ->> "@ + quoted(field) + " = "@ + quoted(t))
                } else {
                    Err(IndexError::BadLiteral)
                },
                None => Err(IndexError::UnsupportedPartialFilter),
            },
        }
    }
}

/// `so_far` with the conditions of a partial filter from index `i` on,
/// joined by `AND`.
pub open spec fn with_conditions(so_far: Seq<char>, filter: DocView, i: int) -> Result<
    Seq<char>,
    IndexError,
>
    decreases filter.len() - i,
{
    if i < 0 || i >= filter.len() {
        Ok(so_far)
    } else {
        match partial_condition(filter[i].0, filter[i].1) {
            Err(e) => Err(e),
            Ok(c) => with_conditions(
                (if i > 0 {
                    so_far + " AND "@
                } else {
                    so_far
                }) + c,
                filter,
                i + 1,
            ),
        }
    }
}

/// The condition that a partial filter lowers to; `TRUE` for a filter
/// without entries.
pub open spec fn partial_filter_text(filter: DocView) -> Result<Seq<char>, IndexError> {
    if filter.len() == 0 {
        Ok("TRUE"@)
    } else {
        with_conditions(Seq::empty(), filter, 0)
    }
}

/// A text agrees with what the model says.
pub open spec fn text_matches(r: Result<String, IndexError>, m: Result<Seq<char>, IndexError>) -> bool {
    match r {
        Ok(s) => m == Ok::<Seq<char>, IndexError>(s@),
        Err(e) => m == Err::<Seq<char>, IndexError>(e),
    }
}

/// The text of a literal of a partial filter, quoted.
fn quote_value(v: &Bson) -> (r: Result<String, IndexError>)
    ensures
        match r {
            Ok(q) => partial_literal(v@) matches Some(t) && can_quote(t) && q@ == quoted(t),
            Err(e) => match partial_literal(v@) {
                Some(t) => !can_quote(t) && e == IndexError::BadLiteral,
                None => e == IndexError::UnsupportedPartialFilter,
            },
        },
{
    match crate::sql::param_of_literal(v) {
        Some(crate::sql::SqlParam::Text(t)) => quote_literal(t.as_str()),
        _ => Err(IndexError::UnsupportedPartialFilter),
    }
}

/// The condition that one entry of a partial filter lowers to.
pub fn condition_to_sql(field: &str, v: &Bson) -> (r: Result<String, IndexError>)
    ensures
        text_matches(r, partial_condition(field@, v@)),
{
    let q = match quote_literal(field) {
        Ok(q) => q,
        Err(e) => {
            return Err(e);
        },
    };
    match v {
        Bson::Document(d) => {
            proof {
                lemma_view_document(*d);
            }
            if d.len() != 1 {
                return Err(IndexError::UnsupportedPartialFilter);
            }
            let op = d.key_at(0);
            let arg = d.value_at(0);
            if str_eq(op, "$exists") {
                match arg {
                    Bson::Boolean(b) => {
                        if *b {
                            Ok(concat("data ? ", q.as_str()))
                        } else {
                            let mut out = concat("NOT (data ? ", q.as_str());
                            out.append(")");
                            Ok(out)
                        }
                    },
                    _ => Err(IndexError::UnsupportedPartialFilter),
                }
            } else if str_eq(op, "$ne") {
                let t = match quote_value(arg) {
                    Ok(t) => t,
                    Err(e) => {
                        return Err(e);
                    },
                };
                let mut out = concat("data ->> ", q.as_str());
                out.append(" IS DISTINCT FROM ");
                out.append(t.as_str());
                Ok(out)
            } else {
                Err(IndexError::UnsupportedPartialFilter)
            }
        },
        _ => {
            let t = match quote_value(v) {
                Ok(t) => t,
                Err(e) => {
                    return Err(e);
                },
            };
            let mut out = concat("data ->> ", q.as_str());
            out.append(" = ");
            out.append(t.as_str());
            Ok(out)
        },
    }
}

/// The condition that a partial filter lowers to. An entry beyond
/// equality, `$ne` and `$exists` gives `UnsupportedPartialFilter`: no part
/// of a filter is left out.
pub fn partial_filter_to_sql(filter: &Document) -> (r: Result<String, IndexError>)
    ensures
        text_matches(r, partial_filter_text(filter@)),
{
    if filter.len() == 0 {
        return Ok(String::from_str("TRUE"));
    }
    let mut out = String::new();
    assert(out@ =~= Seq::<char>::empty());
    let mut i: usize = 0;
    while i < filter.len()
        invariant
            i <= filter@.len(),
            filter@.len() > 0,
            with_conditions(out@, filter@, i as int) == partial_filter_text(filter@),
        decreases filter@.len() - i,
    {
        let c = match condition_to_sql(filter.key_at(i), filter.value_at(i)) {
            Ok(c) => c,
            Err(e) => {
                return Err(e);
            },
        };
        let ghost before = out@;
        if i > 0 {
            out.append(" AND ");
        }
        out.append(c.as_str());
        assert(out@ =~= (if i > 0 {
            before + " AND "@
        } else {
            before
        }) + c@);
        i = i + 1;
    }
    Ok(out)
}

/// How a field appears in the column list of an index.
pub open spec fn column_text(field: Seq<char>, kind: KeyKind) -> Seq<char> {
    match kind {
        KeyKind::Ascending => "(data ->> "@ + quoted(field) + ")"@,
        KeyKind::Descending => "(data ->> "@ + quoted(field) + ") DESC"@,
        KeyKind::Text => "to_tsvector('english', data ->> "@ + quoted(field) + ")"@,
        KeyKind::Sphere => "(data -> "@ + quoted(field) + ")"@,
        KeyKind::Hashed => "(data ->> "@ + quoted(field) + ")"@,
    }
}

/// `so_far` with the columns for the fields of a key from index `i` on,
/// joined by commas.
pub open spec fn with_columns(so_far: Seq<char>, key: DocView, i: int) -> Result<
    Seq<char>,
    IndexError,
>
    decreases key.len() - i,
{
    if i < 0 || i >= key.len() {
        Ok(so_far)
    } else {
        match kind_of_key(key[i].1) {
            None => Err(IndexError::BadDirection),
            Some(k) => if !can_quote(key[i].0) {
                Err(IndexError::BadLiteral)
            } else {
                with_columns(
                    (if i > 0 {
                        so_far + ", "@
                    } else {
                        so_far
                    }) + column_text(key[i].0, k),
                    key,
                    i + 1,
                )
            },
        }
    }
}

/// The access method that the backend is asked to use for an index.
pub open spec fn method_text(t: IndexType) -> Seq<char> {
    match t {
        IndexType::Text => " USING GIN"@,
        IndexType::Geospatial2dSphere => " USING GIN"@,
        IndexType::Geospatial2d => " USING GIN"@,
        IndexType::Hashed => " USING HASH"@,
        _ => Seq::empty(),
    }
}

/// The name from which the identifier of an index in the backend is made:
/// database, collection and name of the index.
pub open spec fn backend_name(database: Seq<char>, collection: Seq<char>, name: Seq<char>) -> Seq<
    char,
> {
    database + "_"@ + collection + "_"@ + name
}

/// Whether the names of an index can stand in a statement.
pub open spec fn names_ok(database: Seq<char>, collection: Seq<char>, name: Seq<char>) -> bool {
    &&& crate::sql::identifier_ok(vstd::utf8::encode_utf8(database))
    &&& crate::sql::identifier_ok(vstd::utf8::encode_utf8(collection))
    &&& crate::sql::identifier_ok(
        vstd::utf8::encode_utf8(backend_name(database, collection, name)),
    )
}

/// The start of the statement that makes an index, up to its column list.
pub open spec fn create_index_head(spec: IndexSpec) -> Seq<char> {
    "CREATE "@ + (if spec.options.unique == Some(true) {
        "UNIQUE "@
    } else {
        Seq::empty()
    }) + "INDEX IF NOT EXISTS "@ + crate::sql::table_name(
        backend_name(spec.database@, spec.collection@, spec.name@),
    ) + " ON "@ + crate::sql::table_name(spec.database@) + "."@ + crate::sql::table_name(
        spec.collection@,
    ) + method_text(special_kind(spec.key@, 0)) + " ("@
}

/// The statement that makes an index unless it is there.
pub open spec fn create_index_text(spec: IndexSpec) -> Result<Seq<char>, IndexError> {
    if !names_ok(spec.database@, spec.collection@, spec.name@) {
        Err(IndexError::InvalidIdentifier)
    } else {
        match with_columns(Seq::empty(), spec.key@, 0) {
            Err(e) => Err(e),
            Ok(cols) => match spec.options.partial_filter_expression {
                None => Ok(create_index_head(spec) + cols + ")"@),
                Some(f) => match partial_filter_text(f@) {
                    Err(e) => Err(e),
                    Ok(w) => Ok(create_index_head(spec) + cols + ")"@ + " WHERE "@ + w),
                },
            },
        }
    }
}

/// The statement that drops an index if it is there.
pub open spec fn drop_index_text(database: Seq<char>, collection: Seq<char>, name: Seq<char>) -> Result<
    Seq<char>,
    IndexError,
> {
    if !names_ok(database, collection, name) {
        Err(IndexError::InvalidIdentifier)
    } else {
        Ok(
            "DROP INDEX IF EXISTS "@ + crate::sql::table_name(database) + "."@
                + crate::sql::table_name(backend_name(database, collection, name)),
        )
    }
}

/// The identifiers of an index in the backend: its schema, its table and
/// itself.
fn backend_identifiers(database: &str, collection: &str, name: &str) -> (r: Result<
    (String, String, String),
    IndexError,
>)
    ensures
        match r {
            Ok((s, t, i)) => {
                &&& names_ok(database@, collection@, name@)
                &&& s@ == crate::sql::table_name(database@)
                &&& t@ == crate::sql::table_name(collection@)
                &&& i@ == crate::sql::table_name(backend_name(database@, collection@, name@))
            },
            Err(e) => e == IndexError::InvalidIdentifier && !names_ok(
                database@,
                collection@,
                name@,
            ),
        },
{
    let s = match crate::sql::sanitize_identifier(database) {
        Ok(s) => s,
        Err(_) => {
            return Err(IndexError::InvalidIdentifier);
        },
    };
    let t = match crate::sql::sanitize_identifier(collection) {
        Ok(t) => t,
        Err(_) => {
            return Err(IndexError::InvalidIdentifier);
        },
    };
    let mut full = concat(database, "_");
    full.append(collection);
    full.append("_");
    full.append(name);
    assert(full@ =~= backend_name(database@, collection@, name@));
    let i = match crate::sql::sanitize_identifier(full.as_str()) {
        Ok(i) => i,
        Err(_) => {
            return Err(IndexError::InvalidIdentifier);
        },
    };
    Ok((s, t, i))
}

/// How a field appears in the column list of an index.
fn column_to_sql(field: &str, kind: KeyKind) -> (r: Result<String, IndexError>)
    ensures
        match r {
            Ok(c) => can_quote(field@) && c@ == column_text(field@, kind),
            Err(e) => e == IndexError::BadLiteral && !can_quote(field@),
        },
{
    let q = match quote_literal(field) {
        Ok(q) => q,
        Err(e) => {
            return Err(e);
        },
    };
    let (open, close): (&str, &str) = match kind {
        KeyKind::Ascending => ("(data ->> ", ")"),
        KeyKind::Descending => ("(data ->> ", ") DESC"),
        KeyKind::Text => ("to_tsvector('english', data ->> ", ")"),
        KeyKind::Sphere => ("(data -> ", ")"),
        KeyKind::Hashed => ("(data ->> ", ")"),
    };
    let mut out = concat(open, q.as_str());
    out.append(close);
    Ok(out)
}

/// The column list of an index.
fn columns_to_sql(key: &Document) -> (r: Result<String, IndexError>)
    ensures
        text_matches(r, with_columns(Seq::empty(), key@, 0)),
{
    let mut out = String::new();
    assert(out@ =~= Seq::<char>::empty());
    let mut i: usize = 0;
    while i < key.len()
        invariant
            i <= key@.len(),
            with_columns(out@, key@, i as int) == with_columns(Seq::empty(), key@, 0),
        decreases key@.len() - i,
    {
        let kind = match key_kind(key.value_at(i)) {
            Some(k) => k,
            None => {
                return Err(IndexError::BadDirection);
            },
        };
        let c = match column_to_sql(key.key_at(i), kind) {
            Ok(c) => c,
            Err(e) => {
                return Err(e);
            },
        };
        let ghost before = out@;
        if i > 0 {
            out.append(", ");
        }
        out.append(c.as_str());
        assert(out@ =~= (if i > 0 {
            before + ", "@
        } else {
            before
        }) + c@);
        i = i + 1;
    }
    Ok(out)
}

/// The statement that makes an index unless it is there.
///
/// The names of the database, of the collection and of the index have to
/// be identifiers once they are sanitized. Fields and literals are
/// written as quoted literals.
pub fn generate_create_index_sql(spec: &IndexSpec) -> (r: Result<String, IndexError>)
    ensures
        text_matches(r, create_index_text(*spec)),
{
    let (schema, table, index) = match backend_identifiers(
        spec.database.as_str(),
        spec.collection.as_str(),
        spec.name.as_str(),
    ) {
        Ok(x) => x,
        Err(e) => {
            return Err(e);
        },
    };
    let cols = match columns_to_sql(&spec.key) {
        Ok(c) => c,
        Err(e) => {
            return Err(e);
        },
    };
    let mut out = String::from_str("CREATE ");
    match spec.options.unique {
        Some(true) => {
            out.append("UNIQUE ");
        },
        _ => {},
    }
    out.append("INDEX IF NOT EXISTS ");
    out.append(index.as_str());
    out.append(" ON ");
    out.append(schema.as_str());
    out.append(".");
    out.append(table.as_str());
    let method: &str = match special_kind_of(&spec.key) {
        IndexType::Text => " USING GIN",
        IndexType::Geospatial2dSphere => " USING GIN",
        IndexType::Geospatial2d => " USING GIN",
        IndexType::Hashed => " USING HASH",
        _ => "",
    };
    proof {
        reveal_strlit("");
        assert(""@ =~= Seq::<char>::empty());
    }
    out.append(method);
    out.append(" (");
    assert(out@ =~= create_index_head(*spec));
    out.append(cols.as_str());
    out.append(")");
    match &spec.options.partial_filter_expression {
        None => {
            assert(out@ =~= create_index_head(*spec) + cols@ + ")"@);
            Ok(out)
        },
        Some(f) => {
            let w = match partial_filter_to_sql(f) {
                Ok(w) => w,
                Err(e) => {
                    return Err(e);
                },
            };
            out.append(" WHERE ");
            out.append(w.as_str());
            assert(out@ =~= create_index_head(*spec) + cols@ + ")"@ + " WHERE "@ + w@);
            Ok(out)
        },
    }
}

/// The statement that drops an index if it is there.
pub fn generate_drop_index_sql(database: &str, collection: &str, name: &str) -> (r: Result<
    String,
    IndexError,
>)
    ensures
        text_matches(r, drop_index_text(database@, collection@, name@)),
{
    let (schema, _, index) = match backend_identifiers(database, collection, name) {
        Ok(x) => x,
        Err(e) => {
            return Err(e);
        },
    };
    let mut out = concat("DROP INDEX IF EXISTS ", schema.as_str());
    out.append(".");
    out.append(index.as_str());
    Ok(out)
}

/// What the commands see of an index.
pub struct IndexView {
    pub database: Seq<char>,
    pub collection: Seq<char>,
    pub name: Seq<char>,
    pub key: DocView,
    pub unique: bool,
    pub sparse: bool,
    pub expire_after_seconds: Option<i32>,
}

impl View for IndexSpec {
    type V = IndexView;

    open spec fn view(&self) -> IndexView {
        IndexView {
            database: self.database@,
            collection: self.collection@,
            name: self.name@,
            key: self.key@,
            unique: self.options.unique == Some(true),
            sparse: self.options.sparse == Some(true),
            expire_after_seconds: self.options.expire_after_seconds,
        }
    }
}

/// The indexes that were made, in the order in which they were made. The
/// index on `_id`, which every collection has, is not among them.
#[derive(Debug, PartialEq)]
pub struct IndexManager {
    pub indexes: Vec<IndexSpec>,
}

impl View for IndexManager {
    type V = Seq<IndexView>;

    open spec fn view(&self) -> Seq<IndexView> {
        Seq::new(self.indexes@.len(), |i: int| self.indexes@[i]@)
    }
}

/// Whether an index is one of the given collection.
pub open spec fn on_collection(s: IndexView, database: Seq<char>, collection: Seq<char>) -> bool {
    s.database == database && s.collection == collection
}

/// Index of the first of the indexes at or after `i` that is on the given
/// collection and has the given name; the number of indexes where there
/// is none.
pub open spec fn index_position_from(
    ix: Seq<IndexView>,
    database: Seq<char>,
    collection: Seq<char>,
    name: Seq<char>,
    i: int,
) -> int
    decreases ix.len() - i,
{
    if i < 0 || i >= ix.len() {
        ix.len() as int
    } else if on_collection(ix[i], database, collection) && ix[i].name == name {
        i
    } else {
        index_position_from(ix, database, collection, name, i + 1)
    }
}

/// Index of the index of the given name on the given collection; the
/// number of indexes where there is none.
pub open spec fn index_position(
    ix: Seq<IndexView>,
    database: Seq<char>,
    collection: Seq<char>,
    name: Seq<char>,
) -> int {
    index_position_from(ix, database, collection, name, 0)
}

/// Number of the first `n` indexes that are on the given collection.
pub open spec fn count_on(ix: Seq<IndexView>, database: Seq<char>, collection: Seq<char>, n: int) -> int
    decreases n,
{
    if n <= 0 || n > ix.len() {
        0
    } else {
        count_on(ix, database, collection, n - 1) + (if on_collection(
            ix[n - 1],
            database,
            collection,
        ) {
            1int
        } else {
            0int
        })
    }
}

/// The first `n` indexes without those on the given collection.
pub open spec fn without_collection(
    ix: Seq<IndexView>,
    database: Seq<char>,
    collection: Seq<char>,
    n: int,
) -> Seq<IndexView>
    decreases n,
{
    if n <= 0 || n > ix.len() {
        Seq::empty()
    } else if on_collection(ix[n - 1], database, collection) {
        without_collection(ix, database, collection, n - 1)
    } else {
        without_collection(ix, database, collection, n - 1).push(ix[n - 1])
    }
}

/// The description of the index on `_id`.
pub open spec fn id_descriptor() -> DocView {
    seq![
        ("v"@, BsonView::Int32(2)),
        ("key"@, BsonView::Document(seq![("_id"@, BsonView::Int32(1))])),
        ("name"@, BsonView::String("_id_"@)),
    ]
}

/// The description of an index: version, key and name, and what it was
/// asked to do beyond that.
pub open spec fn descriptor(s: IndexView) -> DocView {
    seq![
        ("v"@, BsonView::Int32(2)),
        ("key"@, BsonView::Document(s.key)),
        ("name"@, BsonView::String(s.name)),
    ] + (if s.unique {
        seq![("unique"@, BsonView::Boolean(true))]
    } else {
        Seq::empty()
    }) + (if s.sparse {
        seq![("sparse"@, BsonView::Boolean(true))]
    } else {
        Seq::empty()
    }) + (match s.expire_after_seconds {
        Some(n) => seq![("expireAfterSeconds"@, BsonView::Int32(n))],
        None => Seq::empty(),
    })
}

/// The descriptions of those of the first `n` indexes that are on the
/// given collection, behind the description of the index on `_id`.
pub open spec fn described(ix: Seq<IndexView>, database: Seq<char>, collection: Seq<char>, n: int) -> Seq<
    DocView,
>
    decreases n,
{
    if n <= 0 || n > ix.len() {
        seq![id_descriptor()]
    } else if on_collection(ix[n - 1], database, collection) {
        described(ix, database, collection, n - 1).push(descriptor(ix[n - 1]))
    } else {
        described(ix, database, collection, n - 1)
    }
}

proof fn lemma_index_position_skip(
    ix: Seq<IndexView>,
    database: Seq<char>,
    collection: Seq<char>,
    name: Seq<char>,
    i: int,
)
    requires
        0 <= i <= ix.len(),
        forall|j: int|
            0 <= j < i ==> !(on_collection(#[trigger] ix[j], database, collection) && ix[j].name
                == name),
    ensures
        index_position_from(ix, database, collection, name, i) == index_position(
            ix,
            database,
            collection,
            name,
        ),
    decreases i,
{
    if i > 0 {
        lemma_index_position_skip(ix, database, collection, name, i - 1);
        assert(!(on_collection(ix[i - 1], database, collection) && ix[i - 1].name == name));
    }
}

/// The description of an index.
pub fn describe_index(s: &IndexSpec) -> (r: Document)
    ensures
        r@ == descriptor(s@),
{
    let mut d = Document::new();
    d.push("v".to_owned(), Bson::Int32(2));
    let key = s.key.clone_document();
    proof {
        lemma_view_document(key);
    }
    d.push("key".to_owned(), Bson::Document(key));
    d.push("name".to_owned(), Bson::String(s.name.clone()));
    match s.options.unique {
        Some(true) => {
            d.push("unique".to_owned(), Bson::Boolean(true));
        },
        _ => {},
    }
    match s.options.sparse {
        Some(true) => {
            d.push("sparse".to_owned(), Bson::Boolean(true));
        },
        _ => {},
    }
    match s.options.expire_after_seconds {
        Some(n) => {
            d.push("expireAfterSeconds".to_owned(), Bson::Int32(n));
        },
        None => {},
    }
    assert(d@ =~= descriptor(s@));
    d
}

/// The description of the index on `_id`.
pub fn describe_id_index() -> (r: Document)
    ensures
        r@ == id_descriptor(),
{
    let mut key = Document::new();
    key.push("_id".to_owned(), Bson::Int32(1));
    proof {
        lemma_view_document(key);
    }
    let mut d = Document::new();
    d.push("v".to_owned(), Bson::Int32(2));
    d.push("key".to_owned(), Bson::Document(key));
    d.push("name".to_owned(), Bson::String("_id_".to_owned()));
    assert(d@ =~= id_descriptor());
    d
}

/// The name that an index gets: the name that its options give it, or one
/// made of its fields.
pub open spec fn name_of_index(spec: IndexSpec) -> Seq<char> {
    match spec.options.name {
        Some(n) => n@,
        None => default_index_name(spec.key@),
    }
}

/// An index as the commands see it once it has the name `name`.
pub open spec fn named(spec: IndexSpec, name: Seq<char>) -> IndexView {
    IndexView {
        database: spec.database@,
        collection: spec.collection@,
        name,
        key: spec.key@,
        unique: spec.options.unique == Some(true),
        sparse: spec.options.sparse == Some(true),
        expire_after_seconds: spec.options.expire_after_seconds,
    }
}

/// Whether the times of the indexes of `after` continue those of
/// `before`: an index at a place that `before` has keeps the time of the
/// index there, and every index beyond those was made at `stamp`.
pub open spec fn made_at(before: Seq<IndexSpec>, after: Seq<IndexSpec>, stamp: i64) -> bool {
    &&& before.len() <= after.len()
    &&& forall|j: int|
        0 <= j < after.len() ==> (#[trigger] after[j]).created_at == (if j < before.len() {
            before[j].created_at
        } else {
            stamp
        })
}

impl IndexManager {
    /// A manager without indexes.
    pub fn new() -> (r: Self)
        ensures
            r@ == Seq::<IndexView>::empty(),
    {
        let r = IndexManager { indexes: Vec::new() };
        assert(r@ =~= Seq::<IndexView>::empty());
        r
    }

    /// Index of the index of the given name on the given collection.
    pub fn find(&self, database: &str, collection: &str, name: &str) -> (r: Option<usize>)
        ensures
            match r {
                Some(i) => i < self@.len() && i == index_position(
                    self@,
                    database@,
                    collection@,
                    name@,
                ),
                None => index_position(self@, database@, collection@, name@) == self@.len(),
            },
    {
        let mut i: usize = 0;
        while i < self.indexes.len()
            invariant
                i <= self.indexes.len(),
                forall|j: int|
                    0 <= j < i ==> !(on_collection(#[trigger] self@[j], database@, collection@)
                        && self@[j].name == name@),
            decreases self.indexes.len() - i,
        {
            let s = &self.indexes[i];
            assert(self@[i as int] == s@);
            if str_eq(s.database.as_str(), database) && str_eq(s.collection.as_str(), collection)
                && str_eq(s.name.as_str(), name) {
                proof {
                    lemma_index_position_skip(self@, database@, collection@, name@, i as int);
                }
                return Some(i);
            }
            i = i + 1;
        }
        proof {
            lemma_index_position_skip(self@, database@, collection@, name@, i as int);
        }
        None
    }

    /// Number of indexes on a collection, the index on `_id` apart.
    pub fn count(&self, database: &str, collection: &str) -> (r: usize)
        ensures
            r == count_on(self@, database@, collection@, self@.len() as int),
    {
        let mut n: usize = 0;
        let mut i: usize = 0;
        while i < self.indexes.len()
            invariant
                i <= self.indexes.len(),
                n == count_on(self@, database@, collection@, i as int),
                n <= i,
            decreases self.indexes.len() - i,
        {
            let s = &self.indexes[i];
            assert(self@[i as int] == s@);
            if str_eq(s.database.as_str(), database) && str_eq(s.collection.as_str(), collection) {
                n = n + 1;
            }
            i = i + 1;
        }
        n
    }

    /// Makes an index at `now`. The index gets the name that its options
    /// give it, or one made of its fields. An index that breaks a rule is
    /// refused. Where the collection has an index of the name already,
    /// nothing is made. Returns whether an index was made.
    pub fn create_index(&mut self, spec: IndexSpec, now: i64) -> (r: Result<bool, IndexError>)
        ensures
            ({
                let name = name_of_index(spec);
                let at = index_position(old(self)@, spec.database@, spec.collection@, name);
                match r {
                    Err(e) => index_fault(spec.key@, spec.options.expire_after_seconds.is_some())
                        == Some(e) && final(self)@ == old(self)@,
                    Ok(made) => {
                        &&& index_fault(
                            spec.key@,
                            spec.options.expire_after_seconds.is_some(),
                        ).is_none()
                        &&& made == (at == old(self)@.len())
                        &&& !made ==> final(self)@ == old(self)@
                        &&& made ==> final(self)@ == old(self)@.push(named(spec, name))
                            && final(self).indexes@.last().created_at == now
                            && final(self).indexes@.last().options == spec.options
                    },
                }
            }),
            made_at(old(self).indexes@, final(self).indexes@, now),
    {
        match validate_index_spec(&spec) {
            Ok(()) => {},
            Err(e) => {
                return Err(e);
            },
        }
        let name = generate_index_name(&spec);
        if self.find(spec.database.as_str(), spec.collection.as_str(), name.as_str()).is_some() {
            return Ok(false);
        }
        let IndexSpec { name: _, key, options, created_at: _, collection, database } = spec;
        self.indexes.push(IndexSpec { name, key, options, created_at: now, collection, database });
        assert(self@ =~= old(self)@.push(named(spec, name@)));
        Ok(true)
    }

    /// Drops the index of the given name on a collection. The index on
    /// `_id` cannot be dropped; a name that no index of the collection has
    /// gives `NotFound`.
    pub fn drop_index(&mut self, database: &str, collection: &str, name: &str) -> (r: Result<
        (),
        IndexError,
    >)
        ensures
            ({
                let at = index_position(old(self)@, database@, collection@, name@);
                if name@ == "_id_"@ {
                    r == Err::<(), IndexError>(IndexError::CannotDropIdIndex) && final(self)@
                        == old(self)@
                } else if at >= old(self)@.len() {
                    r == Err::<(), IndexError>(IndexError::NotFound) && final(self)@ == old(self)@
                } else {
                    r == Ok::<(), IndexError>(()) && final(self)@ == old(self)@.remove(at)
                }
            }),
    {
        if str_eq(name, "_id_") {
            return Err(IndexError::CannotDropIdIndex);
        }
        match self.find(database, collection, name) {
            None => Err(IndexError::NotFound),
            Some(i) => {
                let _ = self.indexes.remove(i);
                assert(self@ =~= old(self)@.remove(i as int));
                Ok(())
            },
        }
    }

    /// Drops the indexes of a collection, the index on `_id` apart.
    /// Returns how many were dropped.
    pub fn drop_collection_indexes(&mut self, database: &str, collection: &str) -> (r: usize)
        ensures
            final(self)@ == without_collection(
                old(self)@,
                database@,
                collection@,
                old(self)@.len() as int,
            ),
            r == old(self)@.len() - final(self)@.len(),
    {
        let mut kept = IndexManager { indexes: Vec::new() };
        assert(kept@ =~= Seq::<IndexView>::empty());
        let mut rest: Vec<IndexSpec> = Vec::new();
        core::mem::swap(&mut rest, &mut self.indexes);
        let total = rest.len();
        let ghost before = old(self)@;
        let ghost all = rest@;
        let mut i: usize = 0;
        while rest.len() > 0
            invariant
                i + rest@.len() == all.len(),
                all.len() == total,
                before.len() == total,
                forall|j: int| 0 <= j < all.len() ==> before[j] == (#[trigger] all[j])@,
                rest@ == all.skip(i as int),
                kept@ == without_collection(before, database@, collection@, i as int),
                kept@.len() <= i,
            decreases rest@.len(),
        {
            let s = rest.remove(0);
            assert(s == all[i as int]);
            assert(rest@ =~= all.skip(i as int + 1));
            if !(str_eq(s.database.as_str(), database) && str_eq(
                s.collection.as_str(),
                collection,
            )) {
                let ghost so_far = kept@;
                kept.indexes.push(s);
                assert(kept@ =~= so_far.push(s@));
            }
            i = i + 1;
        }
        let dropped = total - kept.indexes.len();
        self.indexes = kept.indexes;
        assert(self@ =~= kept@);
        dropped
    }

    /// The descriptions of the indexes of a collection, the index on
    /// `_id` first.
    pub fn list_indexes(&self, database: &str, collection: &str) -> (r: Vec<Document>)
        ensures
            crate::bson::docs_view(r@) == described(
                self@,
                database@,
                collection@,
                self@.len() as int,
            ),
    {
        let mut out: Vec<Document> = Vec::new();
        out.push(describe_id_index());
        assert(crate::bson::docs_view(out@) =~= seq![id_descriptor()]);
        let mut i: usize = 0;
        while i < self.indexes.len()
            invariant
                i <= self.indexes.len(),
                crate::bson::docs_view(out@) == described(self@, database@, collection@, i as int),
            decreases self.indexes.len() - i,
        {
            let s = &self.indexes[i];
            assert(self@[i as int] == s@);
            if str_eq(s.database.as_str(), database) && str_eq(s.collection.as_str(), collection) {
                let ghost before = crate::bson::docs_view(out@);
                let d = describe_index(s);
                out.push(d);
                assert(crate::bson::docs_view(out@) =~= before.push(d@));
            }
            i = i + 1;
        }
        out
    }
}

} // verus!
