//! In-memory model of BSON values and ordered documents.
//!
//! A document is an ordered list of `(name, value)` entries. Names may repeat;
//! every lookup by name returns the first entry that carries it. Doubles are
//! held as their IEEE-754 bit pattern, so that a value read from the wire is
//! written back bit for bit.

use vstd::prelude::*;

verus! {

/// Mathematical model of a BSON value.
pub enum BsonView {
    Double(u64),
    String(Seq<char>),
    Document(Seq<(Seq<char>, BsonView)>),
    Array(Seq<BsonView>),
    Binary(u8, Seq<u8>),
    ObjectId(Seq<u8>),
    Boolean(bool),
    DateTime(i64),
    Null,
    Regex(Seq<char>, Seq<char>),
    Int32(i32),
    Timestamp(u32, u32),
    Int64(i64),
}

/// Mathematical model of a document: its entries in order.
pub type DocView = Seq<(Seq<char>, BsonView)>;

/// A BSON value.
#[derive(Debug, PartialEq)]
pub enum Bson {
    /// A 64-bit float, held as its IEEE-754 bits.
    Double(u64),
    String(String),
    Document(Document),
    Array(Vec<Bson>),
    Binary { subtype: u8, bytes: Vec<u8> },
    ObjectId([u8; 12]),
    Boolean(bool),
    /// Milliseconds since the Unix epoch.
    DateTime(i64),
    Null,
    Regex { pattern: String, options: String },
    Int32(i32),
    Timestamp { time: u32, increment: u32 },
    Int64(i64),
}

/// An ordered document.
#[derive(Debug, PartialEq)]
pub struct Document {
    pub entries: Vec<(String, Bson)>,
}

/// Why a typed lookup in a document failed.
#[derive(Debug, Clone, Copy, PartialEq, Eq, Structural)]
pub enum AccessError {
    /// No entry carries the name.
    NotPresent,
    /// The first entry with the name holds another type.
    WrongType,
}

/// The bits of the double 1.0.
pub const DOUBLE_ONE: u64 = 0x3FF0_0000_0000_0000;

/// The bits of the double 0.0.
pub const DOUBLE_ZERO: u64 = 0;

/// The binary subtype that marks a UUID.
pub const SUBTYPE_UUID: u8 = 4;

/// The model of a value.
pub open spec fn bson_view(b: Bson) -> BsonView
    decreases b,
{
    match b {
        Bson::Double(x) => BsonView::Double(x),
        Bson::String(s) => BsonView::String(s@),
        Bson::Document(d) => BsonView::Document(
            Seq::new(
                d.entries.len() as nat,
                |i: int|
                    if 0 <= i < d.entries.len() {
                        (d.entries[i].0@, bson_view(d.entries[i].1))
                    } else {
                        (Seq::empty(), BsonView::Null)
                    },
            ),
        ),
        Bson::Array(a) => BsonView::Array(
            Seq::new(
                a.len() as nat,
                |i: int|
                    if 0 <= i < a.len() {
                        bson_view(a[i])
                    } else {
                        BsonView::Null
                    },
            ),
        ),
        Bson::Binary { subtype, bytes } => BsonView::Binary(subtype, bytes@),
        Bson::ObjectId(x) => BsonView::ObjectId(x@),
        Bson::Boolean(x) => BsonView::Boolean(x),
        Bson::DateTime(t) => BsonView::DateTime(t),
        Bson::Null => BsonView::Null,
        Bson::Regex { pattern, options } => BsonView::Regex(pattern@, options@),
        Bson::Int32(i) => BsonView::Int32(i),
        Bson::Timestamp { time, increment } => BsonView::Timestamp(time, increment),
        Bson::Int64(i) => BsonView::Int64(i),
    }
}

impl View for Bson {
    type V = BsonView;

    open spec fn view(&self) -> BsonView {
        bson_view(*self)
    }
}

impl View for Document {
    type V = DocView;

    open spec fn view(&self) -> DocView {
        Seq::new(
            self.entries.len() as nat,
            |i: int|
                if 0 <= i < self.entries.len() {
                    (self.entries[i].0@, self.entries[i].1@)
                } else {
                    (Seq::empty(), BsonView::Null)
                },
        )
    }
}

/// The views of a vector of values, in order.
pub open spec fn values_view(a: Seq<Bson>) -> Seq<BsonView> {
    Seq::new(a.len(), |i: int| a[i]@)
}

/// The views of a vector of documents, in order.
pub open spec fn docs_view(a: Seq<Document>) -> Seq<DocView> {
    Seq::new(a.len(), |i: int| a[i]@)
}

/// The view of a `Bson::Document` is the view of the document inside.
pub proof fn lemma_view_document(d: Document)
    ensures
        Bson::Document(d)@ == BsonView::Document(d@),
{
    reveal_with_fuel(bson_view, 2);
    assert(Bson::Document(d)@->Document_0 =~= d@);
}

/// The view of a `Bson::Array` lists the views of its items.
pub proof fn lemma_view_array(a: Vec<Bson>)
    ensures
        Bson::Array(a)@ == BsonView::Array(values_view(a@)),
{
    reveal_with_fuel(bson_view, 2);
    assert(Bson::Array(a)@->Array_0 =~= values_view(a@));
}

/// Index of the first entry at or after `i` whose name is `key`; the length
/// of `d` where there is none.
pub open spec fn position_from(d: DocView, key: Seq<char>, i: int) -> int
    decreases d.len() - i,
{
    if i < 0 || i >= d.len() {
        d.len() as int
    } else if d[i].0 == key {
        i
    } else {
        position_from(d, key, i + 1)
    }
}

/// Index of the first entry named `key`; the length of `d` where there is none.
pub open spec fn position(d: DocView, key: Seq<char>) -> int {
    position_from(d, key, 0)
}

/// Whether some entry of `d` is named `key`.
pub open spec fn has_key(d: DocView, key: Seq<char>) -> bool {
    position(d, key) < d.len()
}

/// The value of the first entry named `key`.
pub open spec fn lookup(d: DocView, key: Seq<char>) -> Option<BsonView> {
    if has_key(d, key) {
        Some(d[position(d, key)].1)
    } else {
        None
    }
}

/// `position_from` returns the first match at or after `i`.
pub proof fn lemma_position_from(d: DocView, key: Seq<char>, i: int)
    requires
        0 <= i <= d.len(),
    ensures
        i <= position_from(d, key, i) <= d.len(),
        position_from(d, key, i) < d.len() ==> d[position_from(d, key, i)].0 == key,
        forall|j: int| i <= j < position_from(d, key, i) ==> (#[trigger] d[j]).0 != key,
    decreases d.len() - i,
{
    if i < d.len() && d[i].0 != key {
        lemma_position_from(d, key, i + 1);
    }
}

/// `position` returns the first entry with the name, and none comes before it.
pub proof fn lemma_position(d: DocView, key: Seq<char>)
    ensures
        0 <= position(d, key) <= d.len(),
        has_key(d, key) ==> d[position(d, key)].0 == key,
        forall|j: int| 0 <= j < position(d, key) ==> (#[trigger] d[j]).0 != key,
        has_key(d, key) <==> exists|j: int| 0 <= j < d.len() && (#[trigger] d[j]).0 == key,
{
    lemma_position_from(d, key, 0);
    if exists|j: int| 0 <= j < d.len() && (#[trigger] d[j]).0 == key {
        let j = choose|j: int| 0 <= j < d.len() && (#[trigger] d[j]).0 == key;
        if position(d, key) >= d.len() {
            assert(d[j].0 != key);
        }
    }
}

/// Where no entry before `i` is named `key`, the search from `i` finds what
/// the search from the start finds.
pub proof fn lemma_position_skip(d: DocView, key: Seq<char>, i: int)
    requires
        0 <= i <= d.len(),
        forall|j: int| 0 <= j < i ==> (#[trigger] d[j]).0 != key,
    ensures
        position_from(d, key, i) == position(d, key),
    decreases i,
{
    if i > 0 {
        lemma_position_skip(d, key, i - 1);
        assert(d[i - 1].0 != key);
    }
}

/// `d` with the value of its first entry named `key` replaced by `v`, or
/// with `(key, v)` appended where no entry carries the name.
pub open spec fn with_entry(d: DocView, key: Seq<char>, v: BsonView) -> DocView {
    if has_key(d, key) {
        d.update(position(d, key), (key, v))
    } else {
        d.push((key, v))
    }
}

/// `d` without its first entry named `key`.
pub open spec fn without_entry(d: DocView, key: Seq<char>) -> DocView {
    if has_key(d, key) {
        d.remove(position(d, key))
    } else {
        d
    }
}

/// Compares two string slices by their characters.
#[verifier::loop_isolation(false)]
pub fn str_eq(a: &str, b: &str) -> (r: bool)
    ensures
        r == (a@ == b@),
{
    let x = a.as_bytes();
    let y = b.as_bytes();
    proof {
        vstd::utf8::encode_utf8_decode_utf8(a@);
        vstd::utf8::encode_utf8_decode_utf8(b@);
    }
    if x.len() != y.len() {
        return false;
    }
    let mut i: usize = 0;
    while i < x.len()
        invariant
            i <= x.len(),
            x.len() == y.len(),
            forall|j: int| 0 <= j < i ==> x@[j] == y@[j],
        decreases x.len() - i,
    {
        if x[i] != y[i] {
            assert(x@[i as int] != y@[i as int]);
            return false;
        }
        i = i + 1;
    }
    assert(x@ =~= y@);
    true
}

/// Compares two byte vectors.
pub fn bytes_eq(x: &Vec<u8>, y: &Vec<u8>) -> (r: bool)
    ensures
        r == (x@ == y@),
{
    if x.len() != y.len() {
        return false;
    }
    let mut i: usize = 0;
    while i < x.len()
        invariant
            i <= x.len(),
            x.len() == y.len(),
            forall|j: int| 0 <= j < i ==> x@[j] == y@[j],
        decreases x.len() - i,
    {
        if x[i] != y[i] {
            return false;
        }
        i = i + 1;
    }
    assert(x@ =~= y@);
    true
}

/// Compares two object ids.
pub fn object_id_eq(x: &[u8; 12], y: &[u8; 12]) -> (r: bool)
    ensures
        r == (x@ == y@),
{
    let mut i: usize = 0;
    while i < 12
        invariant
            i <= 12,
            forall|j: int| 0 <= j < i ==> x@[j] == y@[j],
        decreases 12 - i,
    {
        if x[i] != y[i] {
            return false;
        }
        i = i + 1;
    }
    assert(x@ =~= y@);
    true
}

/// Copies a byte vector.
pub fn bytes_clone(x: &Vec<u8>) -> (r: Vec<u8>)
    ensures
        r@ == x@,
{
    let mut r: Vec<u8> = Vec::new();
    let mut i: usize = 0;
    while i < x.len()
        invariant
            i <= x.len(),
            r@ == x@.subrange(0, i as int),
        decreases x.len() - i,
    {
        r.push(x[i]);
        assert(r@ =~= x@.subrange(0, i + 1));
        i = i + 1;
    }
    assert(r@ =~= x@);
    r
}

impl Bson {
    /// A deep copy.
    #[verifier::loop_isolation(false)]
    pub fn clone_value(&self) -> (r: Bson)
        ensures
            r@ == self@,
        decreases self,
    {
        match self {
            Bson::Double(b) => Bson::Double(*b),
            Bson::String(s) => Bson::String(s.clone()),
            Bson::Document(d) => {
                let c = d.clone_document();
                proof {
                    lemma_view_document(*d);
                    lemma_view_document(c);
                }
                Bson::Document(c)
            },
            Bson::Array(a) => {
                let mut out: Vec<Bson> = Vec::new();
                let mut i: usize = 0;
                while i < a.len()
                    invariant
                        i <= a.len(),
                        out.len() == i,
                        forall|j: int| 0 <= j < i ==> out[j]@ == a[j]@,
                    decreases a.len() - i,
                {
                    let c = a[i].clone_value();
                    out.push(c);
                    i = i + 1;
                }
                proof {
                    lemma_view_array(*a);
                    lemma_view_array(out);
                    assert(values_view(out@) =~= values_view(a@));
                }
                Bson::Array(out)
            },
            Bson::Binary { subtype, bytes } => Bson::Binary {
                subtype: *subtype,
                bytes: bytes_clone(bytes),
            },
            Bson::ObjectId(b) => Bson::ObjectId(*b),
            Bson::Boolean(b) => Bson::Boolean(*b),
            Bson::DateTime(t) => Bson::DateTime(*t),
            Bson::Null => Bson::Null,
            Bson::Regex { pattern, options } => Bson::Regex {
                pattern: pattern.clone(),
                options: options.clone(),
            },
            Bson::Int32(i) => Bson::Int32(*i),
            Bson::Timestamp { time, increment } => Bson::Timestamp {
                time: *time,
                increment: *increment,
            },
            Bson::Int64(i) => Bson::Int64(*i),
        }
    }

    /// Structural equality: same variant, same contents, entries in the same
    /// order.
    #[verifier::loop_isolation(false)]
    pub fn equals(&self, other: &Bson) -> (r: bool)
        ensures
            r == (self@ == other@),
        decreases self,
    {
        match (self, other) {
            (Bson::Double(a), Bson::Double(b)) => *a == *b,
            (Bson::String(a), Bson::String(b)) => str_eq(a.as_str(), b.as_str()),
            (Bson::Document(a), Bson::Document(b)) => {
                proof {
                    lemma_view_document(*a);
                    lemma_view_document(*b);
                }
                a.equals(b)
            },
            (Bson::Array(a), Bson::Array(b)) => {
                proof {
                    lemma_view_array(*a);
                    lemma_view_array(*b);
                }
                if a.len() != b.len() {
                    assert(values_view(a@).len() != values_view(b@).len());
                    return false;
                }
                let mut i: usize = 0;
                while i < a.len()
                    invariant
                        i <= a.len(),
                        a.len() == b.len(),
                        forall|j: int| 0 <= j < i ==> a[j]@ == b[j]@,
                    decreases a.len() - i,
                {
                    if !a[i].equals(&b[i]) {
                        assert(values_view(a@)[i as int] != values_view(b@)[i as int]);
                        return false;
                    }
                    i = i + 1;
                }
                assert(values_view(a@) =~= values_view(b@));
                true
            },
            (Bson::Binary { subtype: s1, bytes: b1 }, Bson::Binary { subtype: s2, bytes: b2 }) => {
                *s1 == *s2 && bytes_eq(b1, b2)
            },
            (Bson::ObjectId(a), Bson::ObjectId(b)) => object_id_eq(a, b),
            (Bson::Boolean(a), Bson::Boolean(b)) => *a == *b,
            (Bson::DateTime(a), Bson::DateTime(b)) => *a == *b,
            (Bson::Null, Bson::Null) => true,
            (Bson::Regex { pattern: p1, options: o1 }, Bson::Regex { pattern: p2, options: o2 }) => {
                str_eq(p1.as_str(), p2.as_str()) && str_eq(o1.as_str(), o2.as_str())
            },
            (Bson::Int32(a), Bson::Int32(b)) => *a == *b,
            (
                Bson::Timestamp { time: t1, increment: i1 },
                Bson::Timestamp { time: t2, increment: i2 },
            ) => *t1 == *t2 && *i1 == *i2,
            (Bson::Int64(a), Bson::Int64(b)) => *a == *b,
            _ => false,
        }
    }

    /// The string inside, if this is a string.
    pub fn as_str(&self) -> (r: Option<&str>)
        ensures
            match r {
                Some(s) => self@ == BsonView::String(s@),
                None => !(self@ is String),
            },
    {
        match self {
            Bson::String(s) => Some(s.as_str()),
            _ => None,
        }
    }

    /// The integer inside, if this is a 32-bit integer.
    pub fn as_i32(&self) -> (r: Option<i32>)
        ensures
            match r {
                Some(i) => self@ == BsonView::Int32(i),
                None => !(self@ is Int32),
            },
    {
        match self {
            Bson::Int32(i) => Some(*i),
            _ => None,
        }
    }

    /// The integer inside, if this is a 64-bit integer.
    pub fn as_i64(&self) -> (r: Option<i64>)
        ensures
            match r {
                Some(i) => self@ == BsonView::Int64(i),
                None => !(self@ is Int64),
            },
    {
        match self {
            Bson::Int64(i) => Some(*i),
            _ => None,
        }
    }

    /// The truth value inside, if this is a boolean.
    pub fn as_bool(&self) -> (r: Option<bool>)
        ensures
            match r {
                Some(b) => self@ == BsonView::Boolean(b),
                None => !(self@ is Boolean),
            },
    {
        match self {
            Bson::Boolean(b) => Some(*b),
            _ => None,
        }
    }

    /// The document inside, if this is a document.
    pub fn as_document(&self) -> (r: Option<&Document>)
        ensures
            match r {
                Some(d) => self@ == BsonView::Document(d@),
                None => !(self@ is Document),
            },
    {
        match self {
            Bson::Document(d) => {
                proof {
                    lemma_view_document(*d);
                }
                Some(d)
            },
            _ => None,
        }
    }

    /// The items inside, if this is an array.
    pub fn as_array(&self) -> (r: Option<&Vec<Bson>>)
        ensures
            match r {
                Some(a) => self@ == BsonView::Array(values_view(a@)),
                None => !(self@ is Array),
            },
    {
        match self {
            Bson::Array(a) => {
                proof {
                    lemma_view_array(*a);
                }
                Some(a)
            },
            _ => None,
        }
    }

    /// Whether this is an integer or a double.
    pub fn is_numeric(&self) -> (r: bool)
        ensures
            r == is_numeric_view(self@),
    {
        match self {
            Bson::Int32(_) => true,
            Bson::Int64(_) => true,
            Bson::Double(_) => true,
            _ => false,
        }
    }

    /// A UUID value: binary data of the UUID subtype.
    pub fn uuid(bytes: Vec<u8>) -> (r: Bson)
        requires
            bytes@.len() == 16,
        ensures
            r@ == BsonView::Binary(SUBTYPE_UUID, bytes@),
    {
        Bson::Binary { subtype: SUBTYPE_UUID, bytes }
    }

    /// The sixteen bytes of a UUID value.
    pub fn as_uuid(&self) -> (r: Option<&Vec<u8>>)
        ensures
            match r {
                Some(b) => b@.len() == 16 && self@ == BsonView::Binary(SUBTYPE_UUID, b@),
                None => !(self@ matches BsonView::Binary(s, b) && s == SUBTYPE_UUID && b.len()
                    == 16),
            },
    {
        match self {
            Bson::Binary { subtype, bytes } => {
                if *subtype == SUBTYPE_UUID && bytes.len() == 16 {
                    Some(bytes)
                } else {
                    None
                }
            },
            _ => None,
        }
    }
}

/// Whether a value is an integer or a double.
pub open spec fn is_numeric_view(v: BsonView) -> bool {
    v is Int32 || v is Int64 || v is Double
}

impl Document {
    /// The empty document.
    pub fn new() -> (d: Document)
        ensures
            d@ == Seq::<(Seq<char>, BsonView)>::empty(),
    {
        let d = Document { entries: Vec::new() };
        assert(d@ =~= Seq::<(Seq<char>, BsonView)>::empty());
        d
    }

    /// Number of entries.
    pub fn len(&self) -> (n: usize)
        ensures
            n == self@.len(),
    {
        self.entries.len()
    }

    /// Whether the document has no entry.
    pub fn is_empty(&self) -> (r: bool)
        ensures
            r == (self@.len() == 0),
    {
        self.entries.len() == 0
    }

    /// The name of the entry at `i`.
    pub fn key_at(&self, i: usize) -> (r: &str)
        requires
            i < self@.len(),
        ensures
            r@ == self@[i as int].0,
    {
        self.entries[i].0.as_str()
    }

    /// The value of the entry at `i`.
    pub fn value_at(&self, i: usize) -> (r: &Bson)
        requires
            i < self@.len(),
        ensures
            r@ == self@[i as int].1,
    {
        &self.entries[i].1
    }

    /// The name of the first entry, if there is one.
    pub fn first_key(&self) -> (r: Option<&str>)
        ensures
            match r {
                Some(k) => self@.len() > 0 && k@ == self@[0].0,
                None => self@.len() == 0,
            },
    {
        if self.entries.len() == 0 {
            None
        } else {
            Some(self.entries[0].0.as_str())
        }
    }

    /// Index of the first entry named `key`.
    pub fn find(&self, key: &str) -> (r: Option<usize>)
        ensures
            match r {
                Some(i) => has_key(self@, key@) && i == position(self@, key@),
                None => !has_key(self@, key@),
            },
    {
        let mut i: usize = 0;
        while i < self.entries.len()
            invariant
                i <= self.entries.len(),
                forall|j: int| 0 <= j < i ==> (#[trigger] self@[j]).0 != key@,
            decreases self.entries.len() - i,
        {
            if str_eq(self.entries[i].0.as_str(), key) {
                proof {
                    lemma_position_skip(self@, key@, i as int);
                }
                return Some(i);
            }
            i = i + 1;
        }
        proof {
            lemma_position_skip(self@, key@, i as int);
        }
        None
    }

    /// Whether some entry is named `key`.
    pub fn contains_key(&self, key: &str) -> (r: bool)
        ensures
            r == has_key(self@, key@),
    {
        self.find(key).is_some()
    }

    /// The value of the first entry named `key`.
    pub fn get(&self, key: &str) -> (r: Option<&Bson>)
        ensures
            match r {
                Some(v) => lookup(self@, key@) == Some(v@),
                None => lookup(self@, key@).is_none(),
            },
    {
        match self.find(key) {
            Some(i) => Some(&self.entries[i].1),
            None => None,
        }
    }

    /// The string under `key`.
    pub fn get_str(&self, key: &str) -> (r: Result<&str, AccessError>)
        ensures
            match r {
                Ok(s) => lookup(self@, key@) == Some(BsonView::String(s@)),
                Err(AccessError::NotPresent) => lookup(self@, key@).is_none(),
                Err(AccessError::WrongType) => lookup(self@, key@) matches Some(v) && !(v is String),
            },
    {
        match self.get(key) {
            None => Err(AccessError::NotPresent),
            Some(v) => match v.as_str() {
                Some(s) => Ok(s),
                None => Err(AccessError::WrongType),
            },
        }
    }

    /// The 32-bit integer under `key`.
    pub fn get_i32(&self, key: &str) -> (r: Result<i32, AccessError>)
        ensures
            match r {
                Ok(i) => lookup(self@, key@) == Some(BsonView::Int32(i)),
                Err(AccessError::NotPresent) => lookup(self@, key@).is_none(),
                Err(AccessError::WrongType) => lookup(self@, key@) matches Some(v) && !(v is Int32),
            },
    {
        match self.get(key) {
            None => Err(AccessError::NotPresent),
            Some(v) => match v.as_i32() {
                Some(i) => Ok(i),
                None => Err(AccessError::WrongType),
            },
        }
    }

    /// The 64-bit integer under `key`.
    pub fn get_i64(&self, key: &str) -> (r: Result<i64, AccessError>)
        ensures
            match r {
                Ok(i) => lookup(self@, key@) == Some(BsonView::Int64(i)),
                Err(AccessError::NotPresent) => lookup(self@, key@).is_none(),
                Err(AccessError::WrongType) => lookup(self@, key@) matches Some(v) && !(v is Int64),
            },
    {
        match self.get(key) {
            None => Err(AccessError::NotPresent),
            Some(v) => match v.as_i64() {
                Some(i) => Ok(i),
                None => Err(AccessError::WrongType),
            },
        }
    }

    /// The truth value under `key`.
    pub fn get_bool(&self, key: &str) -> (r: Result<bool, AccessError>)
        ensures
            match r {
                Ok(b) => lookup(self@, key@) == Some(BsonView::Boolean(b)),
                Err(AccessError::NotPresent) => lookup(self@, key@).is_none(),
                Err(AccessError::WrongType) => lookup(self@, key@) matches Some(v) && !(v is Boolean),
            },
    {
        match self.get(key) {
            None => Err(AccessError::NotPresent),
            Some(v) => match v.as_bool() {
                Some(b) => Ok(b),
                None => Err(AccessError::WrongType),
            },
        }
    }

    /// The document under `key`.
    pub fn get_document(&self, key: &str) -> (r: Result<&Document, AccessError>)
        ensures
            match r {
                Ok(d) => lookup(self@, key@) == Some(BsonView::Document(d@)),
                Err(AccessError::NotPresent) => lookup(self@, key@).is_none(),
                Err(AccessError::WrongType) => lookup(self@, key@) matches Some(v) && !(v is Document),
            },
    {
        match self.get(key) {
            None => Err(AccessError::NotPresent),
            Some(v) => match v.as_document() {
                Some(d) => Ok(d),
                None => Err(AccessError::WrongType),
            },
        }
    }

    /// The array under `key`.
    pub fn get_array(&self, key: &str) -> (r: Result<&Vec<Bson>, AccessError>)
        ensures
            match r {
                Ok(a) => lookup(self@, key@) == Some(BsonView::Array(values_view(a@))),
                Err(AccessError::NotPresent) => lookup(self@, key@).is_none(),
                Err(AccessError::WrongType) => lookup(self@, key@) matches Some(v) && !(v is Array),
            },
    {
        match self.get(key) {
            None => Err(AccessError::NotPresent),
            Some(v) => match v.as_array() {
                Some(a) => Ok(a),
                None => Err(AccessError::WrongType),
            },
        }
    }

    /// Appends an entry, whatever names the document already holds.
    pub fn push(&mut self, key: String, value: Bson)
        ensures
            final(self)@ == old(self)@.push((key@, value@)),
    {
        self.entries.push((key, value));
        assert(self@ =~= old(self)@.push((key@, value@)));
    }

    /// Sets the value under `key`: the first entry with the name takes the
    /// value and keeps its place; where there is none, the entry is appended.
    pub fn insert(&mut self, key: &str, value: Bson)
        ensures
            final(self)@ == with_entry(old(self)@, key@, value@),
    {
        match self.find(key) {
            Some(i) => {
                proof {
                    lemma_position(self@, key@);
                }
                let name = self.entries.remove(i).0;
                self.entries.insert(i, (name, value));
                assert(self@ =~= old(self)@.update(i as int, (key@, value@)));
            },
            None => {
                self.entries.push((key.to_owned(), value));
                assert(self@ =~= old(self)@.push((key@, value@)));
            },
        }
    }

    /// Removes the first entry named `key` and returns its value.
    pub fn remove(&mut self, key: &str) -> (r: Option<Bson>)
        ensures
            final(self)@ == without_entry(old(self)@, key@),
            match r {
                Some(v) => lookup(old(self)@, key@) == Some(v@),
                None => lookup(old(self)@, key@).is_none(),
            },
    {
        match self.find(key) {
            Some(i) => {
                let e = self.entries.remove(i);
                assert(self@ =~= old(self)@.remove(i as int));
                Some(e.1)
            },
            None => None,
        }
    }

    /// A deep copy.
    pub fn clone_document(&self) -> (r: Document)
        ensures
            r@ == self@,
        decreases self,
    {
        let mut out: Vec<(String, Bson)> = Vec::new();
        let mut i: usize = 0;
        while i < self.entries.len()
            invariant
                i <= self.entries.len(),
                out.len() == i,
                forall|j: int|
                    0 <= j < i ==> (#[trigger] out[j]).0@ == self.entries[j].0@ && out[j].1@
                        == self.entries[j].1@,
            decreases self.entries.len() - i,
        {
            let k = self.entries[i].0.clone();
            let v = self.entries[i].1.clone_value();
            out.push((k, v));
            i = i + 1;
        }
        let r = Document { entries: out };
        assert(r@ =~= self@);
        r
    }

    /// Structural equality: the same entries in the same order.
    pub fn equals(&self, other: &Document) -> (r: bool)
        ensures
            r == (self@ == other@),
        decreases self,
    {
        if self.entries.len() != other.entries.len() {
            assert(self@.len() != other@.len());
            return false;
        }
        let mut i: usize = 0;
        while i < self.entries.len()
            invariant
                i <= self.entries.len(),
                self.entries.len() == other.entries.len(),
                forall|j: int| 0 <= j < i ==> self@[j] == other@[j],
            decreases self.entries.len() - i,
        {
            if !str_eq(self.entries[i].0.as_str(), other.entries[i].0.as_str()) {
                assert(self@[i as int].0 != other@[i as int].0);
                return false;
            }
            if !self.entries[i].1.equals(&other.entries[i].1) {
                assert(self@[i as int].1 != other@[i as int].1);
                return false;
            }
            i = i + 1;
        }
        assert(self@ =~= other@);
        true
    }
}

/// Deep copy of a list of documents.
pub fn clone_documents(docs: &Vec<Document>) -> (r: Vec<Document>)
    ensures
        docs_view(r@) == docs_view(docs@),
{
    let mut out: Vec<Document> = Vec::new();
    let mut i: usize = 0;
    while i < docs.len()
        invariant
            i <= docs.len(),
            out.len() == i,
            forall|j: int| 0 <= j < i ==> out[j]@ == docs[j]@,
        decreases docs.len() - i,
    {
        out.push(docs[i].clone_document());
        i = i + 1;
    }
    assert(docs_view(out@) =~= docs_view(docs@));
    out
}

} // verus!
