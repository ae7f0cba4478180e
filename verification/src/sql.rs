//! Statements for the relational backend.
//!
//! A collection is a table with a JSON column `data`. A filter document is
//! lowered to a boolean expression over that column. Every field name and
//! every literal of a filter travels as a parameter: the text of a
//! statement holds placeholders and nothing that a client has sent. Only
//! the names of tables are written into the text, after they have been
//! checked against the identifier grammar.

use crate::bson::{lemma_view_array, lemma_view_document, str_eq, values_view, Bson, BsonView, DocView, Document};
use crate::codec::bytes_to_string;
use crate::filter::{is_operator_doc, is_operator_document, is_operator_name, starts_with_dollar};
use crate::text::{decimal, i64_to_string, signed_decimal, u64_to_string};
use vstd::prelude::*;
use vstd::utf8::{decode_utf8, encode_utf8, valid_utf8};

verus! {

/// A value bound to a placeholder.
#[derive(Debug, PartialEq)]
pub enum SqlParam {
    Text(String),
    /// A double, as its IEEE-754 bits.
    Double(u64),
}

/// Model of a parameter.
pub enum ParamView {
    Text(Seq<char>),
    Double(u64),
}

impl View for SqlParam {
    type V = ParamView;

    open spec fn view(&self) -> ParamView {
        match self {
            SqlParam::Text(s) => ParamView::Text(s@),
            SqlParam::Double(b) => ParamView::Double(*b),
        }
    }
}

/// A statement: its text and the values of its placeholders, `$1` first.
#[derive(Debug, PartialEq)]
pub struct SqlQuery {
    pub text: String,
    pub params: Vec<SqlParam>,
}

/// Model of a statement.
pub struct SqlView {
    pub text: Seq<char>,
    pub params: Seq<ParamView>,
}

impl View for SqlQuery {
    type V = SqlView;

    open spec fn view(&self) -> SqlView {
        SqlView { text: self.text@, params: Seq::new(self.params@.len(), |i: int| self.params@[i]@) }
    }
}

/// Why a statement cannot be written.
#[derive(Debug, Clone, Copy, PartialEq, Eq, Structural)]
pub enum SqlError {
    /// An operator that is not known.
    UnsupportedOperator,
    /// An operator with an argument of the wrong type.
    BadOperand,
    /// A literal of a type that has no form in a statement.
    UnsupportedLiteral,
    /// A name that is empty or holds a character beyond letters, digits
    /// and the underscore.
    InvalidIdentifier,
    /// A sort direction other than 1 and -1.
    BadSortDirection,
    /// A stage of a pipeline that the backend cannot run.
    UnsupportedStage,
}

/// The statement with `t` appended to its text.
pub open spec fn with_text(q: SqlView, t: Seq<char>) -> SqlView {
    SqlView { text: q.text + t, params: q.params }
}

/// The statement with one more parameter, and its placeholder appended to
/// the text.
pub open spec fn with_param(q: SqlView, p: ParamView) -> SqlView {
    SqlView {
        text: q.text + "$"@ + decimal((q.params.len() + 1) as nat),
        params: q.params.push(p),
    }
}

/// The byte that takes the place of `b` in a table name: an underscore for
/// a dot, a hyphen and a dollar sign, the byte itself otherwise.
pub open spec fn sanitized_byte(b: u8) -> u8 {
    if b == 46 || b == 45 || b == 36 {
        95
    } else {
        b
    }
}

/// Whether a byte is a letter, a digit or the underscore.
pub open spec fn identifier_byte(b: u8) -> bool {
    (48 <= b <= 57) || (65 <= b <= 90) || (97 <= b <= 122) || b == 95
}

/// The bytes of a name with every dot, hyphen and dollar sign replaced by
/// an underscore.
pub open spec fn sanitized(name: Seq<u8>) -> Seq<u8> {
    Seq::new(name.len(), |i: int| sanitized_byte(name[i]))
}

/// Whether a name, once sanitized, is an identifier: not empty, and
/// letters, digits and underscores only.
pub open spec fn identifier_ok(name: Seq<u8>) -> bool {
    name.len() > 0 && forall|i: int| 0 <= i < name.len() ==> identifier_byte(
        sanitized_byte(#[trigger] name[i]),
    )
}

/// The identifier that stands for a name in a statement: the text of its
/// sanitized bytes.
pub open spec fn table_name(name: Seq<char>) -> Seq<char> {
    decode_utf8(sanitized(encode_utf8(name)))
}

/// Letters, digits and underscores are UTF-8 as they stand.
pub proof fn lemma_identifier_is_utf8(b: Seq<u8>)
    requires
        forall|i: int| 0 <= i < b.len() ==> identifier_byte(#[trigger] b[i]),
    ensures
        valid_utf8(b),
{
    assert(valid_utf8(b.subrange(0, 0))) by {
        reveal_with_fuel(valid_utf8, 1);
        assert(b.subrange(0, 0).len() == 0);
    }
    assert forall|i: int| 0 <= i < b.len() implies #[trigger] vstd::utf8::is_leading_byte_width_1(
        b[i],
    ) by {
        let x = b[i];
        assert(identifier_byte(x));
        assert(x <= 122);
        assert(x & 0x80 == 0) by (bit_vector)
            requires
                x <= 122,
        ;
    }
    vstd::utf8::partial_valid_utf8_extend_ascii_block(b, 0, b.len() as int);
    assert(b.subrange(0, b.len() as int) =~= b);
}

/// The identifier that stands for a name in a statement.
///
/// Dots, hyphens and dollar signs become underscores. A name that is empty
/// or holds any other character beyond letters and digits is refused. The
/// identifier that is returned holds letters, digits and underscores only.
#[verifier::loop_isolation(false)]
pub fn sanitize_identifier(name: &str) -> (r: Result<String, SqlError>)
    ensures
        match r {
            Ok(s) => identifier_ok(encode_utf8(name@)) && s@ == table_name(name@) && encode_utf8(
                s@,
            ) == sanitized(encode_utf8(name@)),
            Err(e) => e == SqlError::InvalidIdentifier && !identifier_ok(encode_utf8(name@)),
        },
{
    let b = name.as_bytes();
    if b.len() == 0 {
        return Err(SqlError::InvalidIdentifier);
    }
    let mut out: Vec<u8> = Vec::new();
    let mut i: usize = 0;
    while i < b.len()
        invariant
            i <= b.len(),
            out@.len() == i,
            forall|j: int| 0 <= j < i ==> out@[j] == sanitized_byte(b@[j]) && identifier_byte(
                #[trigger] out@[j],
            ),
        decreases b.len() - i,
    {
        let c = b[i];
        let s: u8 = if c == 46 || c == 45 || c == 36 {
            95
        } else {
            c
        };
        let ok = (48 <= s && s <= 57) || (65 <= s && s <= 90) || (97 <= s && s <= 122) || s == 95;
        if !ok {
            assert(!identifier_byte(sanitized_byte(b@[i as int])));
            return Err(SqlError::InvalidIdentifier);
        }
        out.push(s);
        i = i + 1;
    }
    assert(out@ =~= sanitized(b@));
    assert(identifier_ok(b@)) by {
        assert forall|j: int| 0 <= j < b@.len() implies identifier_byte(
            sanitized_byte(#[trigger] b@[j]),
        ) by {
            assert(identifier_byte(out@[j]));
        }
    }
    proof {
        lemma_identifier_is_utf8(out@);
    }
    match bytes_to_string(out.as_slice()) {
        Some(s) => {
            proof {
                vstd::utf8::decode_utf8_encode_utf8(out@);
                vstd::utf8::encode_utf8_decode_utf8(s@);
            }
            Ok(s)
        },
        None => {
            proof {
                assert(false);
            }
            Err(SqlError::InvalidIdentifier)
        },
    }
}

/// The parameter that carries a literal: the text of a string, an integer
/// or a boolean, the bits of a double, the hexadecimal text of an object
/// id; `None` for other values.
pub open spec fn literal_param(v: BsonView) -> Option<ParamView> {
    match v {
        BsonView::String(s) => Some(ParamView::Text(s)),
        BsonView::Int32(i) => Some(ParamView::Text(signed_decimal(i as int))),
        BsonView::Int64(i) => Some(ParamView::Text(signed_decimal(i as int))),
        BsonView::Boolean(b) => Some(
            ParamView::Text(
                if b {
                    "true"@
                } else {
                    "false"@
                },
            ),
        ),
        BsonView::Double(b) => Some(ParamView::Double(b)),
        BsonView::ObjectId(b) => Some(ParamView::Text(crate::system::hex_text(b))),
        _ => None,
    }
}

/// The statement with a literal as a parameter that is compared as text.
pub open spec fn with_text_literal(q: SqlView, v: BsonView) -> Result<SqlView, SqlError> {
    match literal_param(v) {
        Some(ParamView::Double(b)) => Ok(
            with_text(with_param(with_text(q, "("@), ParamView::Double(b)), "::float8)::text"@),
        ),
        Some(p) => Ok(with_param(q, p)),
        None => Err(SqlError::UnsupportedLiteral),
    }
}

/// The statement with a literal as a parameter that is compared as a
/// number.
pub open spec fn with_numeric_literal(q: SqlView, v: BsonView) -> Result<SqlView, SqlError> {
    match literal_param(v) {
        Some(p) => Ok(with_text(with_param(q, p), "::numeric"@)),
        None => Err(SqlError::UnsupportedLiteral),
    }
}

/// The statement with the text of the field `field`.
pub open spec fn with_field(q: SqlView, field: Seq<char>) -> SqlView {
    with_param(with_text(q, "data ->> "@), ParamView::Text(field))
}

/// The statement with the comparison of a field and a literal by `op`,
/// one of `=`, `IS DISTINCT FROM`, `>`, `>=`, `<`, `<=` and `~`. A number
/// is compared as a number by the four order operators, and everything
/// else as text. A null literal is tested with `IS NULL` and
/// `IS NOT NULL`.
pub open spec fn with_comparison(
    q: SqlView,
    field: Seq<char>,
    op: Seq<char>,
    numeric: bool,
    v: BsonView,
) -> Result<SqlView, SqlError> {
    if v is Null {
        if op == " = "@ {
            Ok(with_text(with_field(q, field), " IS NULL"@))
        } else if op == " IS DISTINCT FROM "@ {
            Ok(with_text(with_field(q, field), " IS NOT NULL"@))
        } else {
            Err(SqlError::UnsupportedLiteral)
        }
    } else if numeric && (v is Int32 || v is Int64 || v is Double) {
        with_numeric_literal(
            with_text(with_text(with_field(with_text(q, "("@), field), ")::numeric"@), op),
            v,
        )
    } else {
        with_text_literal(with_text(with_field(q, field), op), v)
    }
}

/// The statement with the literals of `items` from index `i` on, separated
/// by commas.
pub open spec fn with_list(q: SqlView, items: Seq<BsonView>, i: int) -> Result<SqlView, SqlError>
    decreases items.len() - i,
{
    if i < 0 || i >= items.len() {
        Ok(q)
    } else {
        match with_text_literal(
            if i > 0 {
                with_text(q, ", "@)
            } else {
                q
            },
            items[i],
        ) {
            Err(e) => Err(e),
            Ok(x) => with_list(x, items, i + 1),
        }
    }
}

/// The statement with the condition that one operator puts on a field.
pub open spec fn with_operator(q: SqlView, field: Seq<char>, op: Seq<char>, arg: BsonView) -> Result<
    SqlView,
    SqlError,
> {
    if op == "$eq"@ {
        with_comparison(q, field, " = "@, false, arg)
    } else if op == "$ne"@ {
        with_comparison(q, field, " IS DISTINCT FROM "@, false, arg)
    } else if op == "$gt"@ {
        with_comparison(q, field, " > "@, true, arg)
    } else if op == "$gte"@ {
        with_comparison(q, field, " >= "@, true, arg)
    } else if op == "$lt"@ {
        with_comparison(q, field, " < "@, true, arg)
    } else if op == "$lte"@ {
        with_comparison(q, field, " <= "@, true, arg)
    } else if op == "$in"@ {
        match arg {
            BsonView::Array(items) => if items.len() == 0 {
                Ok(with_text(q, "FALSE"@))
            } else {
                match with_list(with_text(with_field(q, field), " IN ("@), items, 0) {
                    Ok(x) => Ok(with_text(x, ")"@)),
                    Err(e) => Err(e),
                }
            },
            _ => Err(SqlError::BadOperand),
        }
    } else if op == "$nin"@ {
        match arg {
            BsonView::Array(items) => if items.len() == 0 {
                Ok(with_text(q, "TRUE"@))
            } else {
                match with_list(with_text(with_field(q, field), " NOT IN ("@), items, 0) {
                    Ok(x) => Ok(with_text(x, ")"@)),
                    Err(e) => Err(e),
                }
            },
            _ => Err(SqlError::BadOperand),
        }
    } else if op == "$exists"@ {
        match arg {
            BsonView::Boolean(b) => if b {
                Ok(with_param(with_text(q, "data ? "@), ParamView::Text(field)))
            } else {
                Ok(
                    with_text(
                        with_param(with_text(q, "NOT (data ? "@), ParamView::Text(field)),
                        ")"@,
                    ),
                )
            },
            _ => Err(SqlError::BadOperand),
        }
    } else if op == "$regex"@ {
        match crate::filter::pattern_of(arg) {
            Some(p) => Ok(with_param(with_text(with_field(q, field), " ~ "@), ParamView::Text(p))),
            None => Err(SqlError::BadOperand),
        }
    } else {
        Err(SqlError::UnsupportedOperator)
    }
}

/// The statement with the conditions that the operators of `ops` from
/// index `i` on put on a field, joined by `AND`.
pub open spec fn with_operators(q: SqlView, field: Seq<char>, ops: DocView, i: int) -> Result<
    SqlView,
    SqlError,
>
    decreases ops.len() - i,
{
    if i < 0 || i >= ops.len() {
        Ok(q)
    } else {
        match with_operator(
            if i > 0 {
                with_text(q, " AND "@)
            } else {
                q
            },
            field,
            ops[i].0,
            ops[i].1,
        ) {
            Err(e) => Err(e),
            Ok(x) => with_operators(x, field, ops, i + 1),
        }
    }
}

/// The statement with the expression for one entry of a filter.
pub open spec fn with_entry_sql(q: SqlView, key: Seq<char>, v: BsonView) -> Result<SqlView, SqlError>
    decreases v, 0int,
{
    if is_operator_name(key) {
        if key == "$and"@ {
            match v {
                BsonView::Array(items) => if items.len() == 0 {
                    Ok(with_text(q, "TRUE"@))
                } else {
                    match with_filters(with_text(q, "("@), items, " AND "@, 0) {
                        Ok(x) => Ok(with_text(x, ")"@)),
                        Err(e) => Err(e),
                    }
                },
                _ => Err(SqlError::BadOperand),
            }
        } else if key == "$or"@ {
            match v {
                BsonView::Array(items) => if items.len() == 0 {
                    Ok(with_text(q, "FALSE"@))
                } else {
                    match with_filters(with_text(q, "("@), items, " OR "@, 0) {
                        Ok(x) => Ok(with_text(x, ")"@)),
                        Err(e) => Err(e),
                    }
                },
                _ => Err(SqlError::BadOperand),
            }
        } else if key == "$not"@ {
            match v {
                BsonView::Document(f) => match with_filter(with_text(q, "NOT ("@), f, 0) {
                    Ok(x) => Ok(with_text(x, ")"@)),
                    Err(e) => Err(e),
                },
                _ => Err(SqlError::BadOperand),
            }
        } else {
            Err(SqlError::UnsupportedOperator)
        }
    } else if is_operator_doc(v) {
        with_operators(q, key, v->Document_0, 0)
    } else {
        with_comparison(q, key, " = "@, false, v)
    }
}

/// The statement with the expression for the entries of a filter from
/// index `i` on, joined by `AND`; `TRUE` for a filter without entries.
pub open spec fn with_filter(q: SqlView, filter: DocView, i: int) -> Result<SqlView, SqlError>
    decreases filter, filter.len() - i,
{
    if filter.len() == 0 {
        Ok(with_text(q, "TRUE"@))
    } else if i < 0 || i >= filter.len() {
        Ok(q)
    } else {
        match with_entry_sql(
            if i > 0 {
                with_text(q, " AND "@)
            } else {
                q
            },
            filter[i].0,
            filter[i].1,
        ) {
            Err(e) => Err(e),
            Ok(x) => with_filter(x, filter, i + 1),
        }
    }
}

/// The statement with the expressions for the filters of `items` from
/// index `i` on, each in parentheses, joined by `sep`.
pub open spec fn with_filters(q: SqlView, items: Seq<BsonView>, sep: Seq<char>, i: int) -> Result<
    SqlView,
    SqlError,
>
    decreases items, items.len() - i,
{
    if i < 0 || i >= items.len() {
        Ok(q)
    } else {
        match items[i] {
            BsonView::Document(f) => match with_filter(
                with_text(
                    if i > 0 {
                        with_text(q, sep)
                    } else {
                        q
                    },
                    "("@,
                ),
                f,
                0,
            ) {
                Err(e) => Err(e),
                Ok(x) => with_filters(with_text(x, ")"@), items, sep, i + 1),
            },
            _ => Err(SqlError::BadOperand),
        }
    }
}

/// The boolean expression that a filter lowers to, appended to `q`.
pub open spec fn lowered(q: SqlView, filter: DocView) -> Result<SqlView, SqlError> {
    with_filter(q, filter, 0)
}

/// An exec result agrees with what the model says.
pub open spec fn step_matches(r: Result<(), SqlError>, before: SqlView, after: SqlView, m: Result<SqlView, SqlError>) -> bool {
    match r {
        Ok(()) => m == Ok::<SqlView, SqlError>(after),
        Err(e) => m == Err::<SqlView, SqlError>(e),
    }
}

impl SqlQuery {
    /// A statement with the given text and no parameter.
    pub fn new(text: &str) -> (r: Self)
        ensures
            r@ == (SqlView { text: text@, params: Seq::empty() }),
    {
        let r = SqlQuery { text: text.to_owned(), params: Vec::new() };
        assert(r@.params =~= Seq::empty());
        r
    }

    /// Appends text.
    pub fn push_text(&mut self, t: &str)
        ensures
            final(self)@ == with_text(old(self)@, t@),
    {
        self.text.append(t);
        assert(self@.params =~= old(self)@.params);
    }

    /// Appends a parameter and its placeholder.
    pub fn push_param(&mut self, p: SqlParam)
        ensures
            final(self)@ == with_param(old(self)@, p@),
    {
        self.params.push(p);
        self.text.append("$");
        let k: u64 = self.params.len() as u64;
        let digits = u64_to_string(k);
        self.text.append(digits.as_str());
        assert(self@.params =~= old(self)@.params.push(p@));
        assert(self@.text =~= old(self)@.text + "$"@ + decimal((old(self)@.params.len() + 1) as nat));
    }

    /// Appends the text of a field.
    pub fn push_field(&mut self, field: &str)
        ensures
            final(self)@ == with_field(old(self)@, field@),
    {
        self.push_text("data ->> ");
        self.push_param(SqlParam::Text(field.to_owned()));
    }
}

/// The parameter that carries a literal.
pub fn param_of_literal(v: &Bson) -> (r: Option<SqlParam>)
    ensures
        match r {
            Some(p) => literal_param(v@) == Some(p@),
            None => literal_param(v@).is_none(),
        },
{
    match v {
        Bson::String(s) => Some(SqlParam::Text(s.clone())),
        Bson::Int32(i) => Some(SqlParam::Text(i64_to_string(*i as i64))),
        Bson::Int64(i) => Some(SqlParam::Text(i64_to_string(*i))),
        Bson::Boolean(b) => Some(
            SqlParam::Text(
                if *b {
                    "true".to_owned()
                } else {
                    "false".to_owned()
                },
            ),
        ),
        Bson::Double(b) => Some(SqlParam::Double(*b)),
        Bson::ObjectId(b) => Some(SqlParam::Text(crate::system::to_hex(b.as_slice()))),
        _ => None,
    }
}

/// Appends a literal that is compared as text.
pub fn push_text_literal(q: &mut SqlQuery, v: &Bson) -> (r: Result<(), SqlError>)
    ensures
        step_matches(r, old(q)@, final(q)@, with_text_literal(old(q)@, v@)),
{
    match param_of_literal(v) {
        Some(SqlParam::Double(b)) => {
            q.push_text("(");
            q.push_param(SqlParam::Double(b));
            q.push_text("::float8)::text");
            Ok(())
        },
        Some(p) => {
            q.push_param(p);
            Ok(())
        },
        None => Err(SqlError::UnsupportedLiteral),
    }
}

/// Appends a literal that is compared as a number.
pub fn push_numeric_literal(q: &mut SqlQuery, v: &Bson) -> (r: Result<(), SqlError>)
    ensures
        step_matches(r, old(q)@, final(q)@, with_numeric_literal(old(q)@, v@)),
{
    match param_of_literal(v) {
        Some(p) => {
            q.push_param(p);
            q.push_text("::numeric");
            Ok(())
        },
        None => Err(SqlError::UnsupportedLiteral),
    }
}

/// Appends the comparison of a field and a literal.
pub fn push_comparison(q: &mut SqlQuery, field: &str, op: &str, numeric: bool, v: &Bson) -> (r:
    Result<(), SqlError>)
    ensures
        step_matches(r, old(q)@, final(q)@, with_comparison(old(q)@, field@, op@, numeric, v@)),
{
    let is_null = match v {
        Bson::Null => true,
        _ => false,
    };
    if is_null {
        if str_eq(op, " = ") {
            q.push_field(field);
            q.push_text(" IS NULL");
            Ok(())
        } else if str_eq(op, " IS DISTINCT FROM ") {
            q.push_field(field);
            q.push_text(" IS NOT NULL");
            Ok(())
        } else {
            Err(SqlError::UnsupportedLiteral)
        }
    } else if numeric && v.is_numeric() {
        q.push_text("(");
        q.push_field(field);
        q.push_text(")::numeric");
        q.push_text(op);
        push_numeric_literal(q, v)
    } else {
        q.push_field(field);
        q.push_text(op);
        push_text_literal(q, v)
    }
}

/// Appends the literals of a list, separated by commas.
pub fn push_list(q: &mut SqlQuery, items: &Vec<Bson>) -> (r: Result<(), SqlError>)
    ensures
        step_matches(r, old(q)@, final(q)@, with_list(old(q)@, values_view(items@), 0)),
{
    let ghost iv = values_view(items@);
    let mut i: usize = 0;
    while i < items.len()
        invariant
            i <= items.len(),
            iv == values_view(items@),
            with_list(q@, iv, i as int) == with_list(old(q)@, iv, 0),
        decreases items.len() - i,
    {
        if i > 0 {
            q.push_text(", ");
        }
        match push_text_literal(q, &items[i]) {
            Ok(()) => {},
            Err(e) => {
                return Err(e);
            },
        }
        i = i + 1;
    }
    Ok(())
}

/// Appends the condition that one operator puts on a field.
pub fn push_operator(q: &mut SqlQuery, field: &str, op: &str, arg: &Bson) -> (r: Result<
    (),
    SqlError,
>)
    ensures
        step_matches(r, old(q)@, final(q)@, with_operator(old(q)@, field@, op@, arg@)),
{
    if str_eq(op, "$eq") {
        push_comparison(q, field, " = ", false, arg)
    } else if str_eq(op, "$ne") {
        push_comparison(q, field, " IS DISTINCT FROM ", false, arg)
    } else if str_eq(op, "$gt") {
        push_comparison(q, field, " > ", true, arg)
    } else if str_eq(op, "$gte") {
        push_comparison(q, field, " >= ", true, arg)
    } else if str_eq(op, "$lt") {
        push_comparison(q, field, " < ", true, arg)
    } else if str_eq(op, "$lte") {
        push_comparison(q, field, " <= ", true, arg)
    } else if str_eq(op, "$in") {
        match arg.as_array() {
            Some(items) => {
                if items.len() == 0 {
                    q.push_text("FALSE");
                    Ok(())
                } else {
                    q.push_field(field);
                    q.push_text(" IN (");
                    match push_list(q, items) {
                        Ok(()) => {
                            q.push_text(")");
                            Ok(())
                        },
                        Err(e) => Err(e),
                    }
                }
            },
            None => Err(SqlError::BadOperand),
        }
    } else if str_eq(op, "$nin") {
        match arg.as_array() {
            Some(items) => {
                if items.len() == 0 {
                    q.push_text("TRUE");
                    Ok(())
                } else {
                    q.push_field(field);
                    q.push_text(" NOT IN (");
                    match push_list(q, items) {
                        Ok(()) => {
                            q.push_text(")");
                            Ok(())
                        },
                        Err(e) => Err(e),
                    }
                }
            },
            None => Err(SqlError::BadOperand),
        }
    } else if str_eq(op, "$exists") {
        match arg.as_bool() {
            Some(b) => {
                if b {
                    q.push_text("data ? ");
                    q.push_param(SqlParam::Text(field.to_owned()));
                } else {
                    q.push_text("NOT (data ? ");
                    q.push_param(SqlParam::Text(field.to_owned()));
                    q.push_text(")");
                }
                Ok(())
            },
            None => Err(SqlError::BadOperand),
        }
    } else if str_eq(op, "$regex") {
        match crate::filter::operand_pattern(arg) {
            Some(p) => {
                q.push_field(field);
                q.push_text(" ~ ");
                q.push_param(SqlParam::Text(p));
                Ok(())
            },
            None => Err(SqlError::BadOperand),
        }
    } else {
        Err(SqlError::UnsupportedOperator)
    }
}

/// Appends the conditions that a document of operators puts on a field.
pub fn push_operators(q: &mut SqlQuery, field: &str, ops: &Document) -> (r: Result<(), SqlError>)
    ensures
        step_matches(r, old(q)@, final(q)@, with_operators(old(q)@, field@, ops@, 0)),
{
    let mut i: usize = 0;
    while i < ops.len()
        invariant
            i <= ops@.len(),
            with_operators(q@, field@, ops@, i as int) == with_operators(old(q)@, field@, ops@, 0),
        decreases ops@.len() - i,
    {
        if i > 0 {
            q.push_text(" AND ");
        }
        match push_operator(q, field, ops.key_at(i), ops.value_at(i)) {
            Ok(()) => {},
            Err(e) => {
                return Err(e);
            },
        }
        i = i + 1;
    }
    Ok(())
}

/// Appends the expression for one entry of a filter.
#[verifier::loop_isolation(false)]
pub fn push_entry(q: &mut SqlQuery, key: &str, v: &Bson) -> (r: Result<(), SqlError>)
    ensures
        step_matches(r, old(q)@, final(q)@, with_entry_sql(old(q)@, key@, v@)),
    decreases v, 0int,
{
    if starts_with_dollar(key) {
        let is_and = str_eq(key, "$and");
        let is_or = str_eq(key, "$or");
        if is_and || is_or {
            match v {
                Bson::Array(items) => {
                    proof {
                        lemma_view_array(*items);
                    }
                    let ghost iv = values_view(items@);
                    if items.len() == 0 {
                        if is_and {
                            q.push_text("TRUE");
                        } else {
                            q.push_text("FALSE");
                        }
                        return Ok(());
                    }
                    q.push_text("(");
                    let sep: &str = if is_and {
                        " AND "
                    } else {
                        " OR "
                    };
                    let ghost start = q@;
                    let mut i: usize = 0;
                    while i < items.len()
                        invariant
                            i <= items.len(),
                            with_filters(q@, iv, sep@, i as int) == with_filters(start, iv, sep@, 0),
                        decreases items.len() - i,
                    {
                        match &items[i] {
                            Bson::Document(f) => {
                                proof {
                                    lemma_view_document(*f);
                                }
                                if i > 0 {
                                    q.push_text(sep);
                                }
                                q.push_text("(");
                                match push_filter(q, f) {
                                    Ok(()) => {},
                                    Err(e) => {
                                        return Err(e);
                                    },
                                }
                                q.push_text(")");
                            },
                            _ => {
                                return Err(SqlError::BadOperand);
                            },
                        }
                        i = i + 1;
                    }
                    q.push_text(")");
                    Ok(())
                },
                _ => Err(SqlError::BadOperand),
            }
        } else if str_eq(key, "$not") {
            match v {
                Bson::Document(f) => {
                    proof {
                        lemma_view_document(*f);
                    }
                    q.push_text("NOT (");
                    match push_filter(q, f) {
                        Ok(()) => {
                            q.push_text(")");
                            Ok(())
                        },
                        Err(e) => Err(e),
                    }
                },
                _ => Err(SqlError::BadOperand),
            }
        } else {
            Err(SqlError::UnsupportedOperator)
        }
    } else if is_operator_document(v) {
        match v {
            Bson::Document(ops) => {
                proof {
                    lemma_view_document(*ops);
                }
                push_operators(q, key, ops)
            },
            _ => Ok(()),
        }
    } else {
        push_comparison(q, key, " = ", false, v)
    }
}

/// Appends the boolean expression that a filter lowers to.
///
/// An operator that is not known gives `UnsupportedOperator`: no part of a
/// filter is ever left out of the expression.
#[verifier::loop_isolation(false)]
pub fn push_filter(q: &mut SqlQuery, filter: &Document) -> (r: Result<(), SqlError>)
    ensures
        step_matches(r, old(q)@, final(q)@, lowered(old(q)@, filter@)),
    decreases filter, 1int,
{
    if filter.entries.len() == 0 {
        q.push_text("TRUE");
        return Ok(());
    }
    let mut i: usize = 0;
    while i < filter.entries.len()
        invariant
            i <= filter.entries.len(),
            with_filter(q@, filter@, i as int) == with_filter(old(q)@, filter@, 0),
        decreases filter.entries.len() - i,
    {
        if i > 0 {
            q.push_text(" AND ");
        }
        match push_entry(q, filter.entries[i].0.as_str(), &filter.entries[i].1) {
            Ok(()) => {},
            Err(e) => {
                return Err(e);
            },
        }
        i = i + 1;
    }
    Ok(())
}

} // verus!
