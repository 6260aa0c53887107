//! JSON values, and what `serde_json` reads and writes of them.
use vstd::prelude::*;

use serde_json::Value;

use crate::text;

verus! {

// ── The outside types ───────────────────────────────────────────────────────

/// `serde_json::Number`, carried through without being looked into.
#[verifier::external_type_specification]
#[verifier::external_body]
pub struct ExNumber(serde_json::Number);

/// `serde_json::Value`; what it holds is named by [`value_model`].
#[verifier::external_type_specification]
#[verifier::external_body]
pub struct ExValue(serde_json::Value);

/// `serde_json::Error`, which a failed parse gives.
#[verifier::external_type_specification]
#[verifier::external_body]
pub struct ExError(serde_json::Error);

/// `serde_json::Number`'s `Clone`: the copy is the same number.
pub assume_specification[ <serde_json::Number as Clone>::clone ](
    n: &serde_json::Number,
) -> (r: serde_json::Number)
    ensures
        r == *n,
;

// ── The library's own values ────────────────────────────────────────────────

/// A number that is no 64-bit integer, such as `0.7`; carried through unread.
pub struct OtherNumber {
    number: serde_json::Number,
}

/// A number. An integer that fits 64 bits is read as one.
pub enum Num {
    Unsigned(u64),
    Signed(i64),
    Other(OtherNumber),
}

/// The number with one way of writing each integer: `Signed` is for those below zero.
pub open spec fn plain(n: Num) -> Num {
    match n {
        Num::Signed(i) => if i >= 0 {
            Num::Unsigned(i as u64)
        } else {
            n
        },
        _ => n,
    }
}

/// A JSON value.
pub enum Json {
    Null,
    Bool(bool),
    Number(Num),
    Str(String),
    Array(Vec<Json>),
    Object(Object),
}

/// The fields of a JSON object in the order of their writing: of two fields with one name
/// the later one counts.
pub struct Object {
    pub entries: Vec<(String, Json)>,
}

/// What a JSON value is.
#[verifier::ext_equal]
pub enum JsonModel {
    Null,
    Bool(bool),
    Number(Num),
    Str(Seq<char>),
    Array(Seq<JsonModel>),
    Object(Map<Seq<char>, JsonModel>),
}

/// What each of a list of values is.
pub open spec fn models(s: Seq<Json>) -> Seq<JsonModel>
    decreases s,
{
    if s.len() == 0 {
        seq![]
    } else {
        models(s.drop_last()).push(model(s.last()))
    }
}

/// The fields that a list of entries leaves, the later one of a name counting.
pub open spec fn fields(s: Seq<(String, Json)>) -> Map<Seq<char>, JsonModel>
    decreases s,
{
    if s.len() == 0 {
        Map::empty()
    } else {
        fields(s.drop_last()).insert(s.last().0@, model(s.last().1))
    }
}

/// What a value is.
pub open spec fn model(j: Json) -> JsonModel
    decreases j,
{
    match j {
        Json::Null => JsonModel::Null,
        Json::Bool(b) => JsonModel::Bool(b),
        Json::Number(n) => JsonModel::Number(plain(n)),
        Json::Str(s) => JsonModel::Str(s@),
        Json::Array(v) => JsonModel::Array(models(v@)),
        Json::Object(o) => JsonModel::Object(fields(o.entries@)),
    }
}

impl View for Json {
    type V = JsonModel;

    open spec fn view(&self) -> JsonModel {
        model(*self)
    }
}

impl View for Object {
    type V = Map<Seq<char>, JsonModel>;

    open spec fn view(&self) -> Map<Seq<char>, JsonModel> {
        fields(self.entries@)
    }
}

pub proof fn models_at(s: Seq<Json>)
    ensures
        models(s).len() == s.len(),
        forall|i: int| 0 <= i < s.len() ==> (#[trigger] models(s)[i]) == s[i]@,
    decreases s.len(),
{
    if s.len() > 0 {
        models_at(s.drop_last());
        assert forall|i: int| 0 <= i < s.len() implies (#[trigger] models(s)[i]) == s[i]@ by {
            if i < s.len() - 1 {
                assert(models(s)[i] == models(s.drop_last())[i]);
                assert(s.drop_last()[i] == s[i]);
            }
        }
    }
}

pub proof fn models_push(s: Seq<Json>, j: Json)
    ensures
        models(s.push(j)) == models(s).push(j@),
{
    assert(s.push(j).drop_last() =~= s);
}

pub proof fn models_add(a: Seq<Json>, b: Seq<Json>)
    ensures
        models(a + b) == models(a) + models(b),
    decreases b.len(),
{
    if b.len() == 0 {
        assert(a + b =~= a);
        assert(models(a) + models(b) =~= models(a));
    } else {
        models_add(a, b.drop_last());
        assert((a + b).drop_last() =~= a + b.drop_last());
        assert((a + b).last() == b.last());
        assert(models(a) + models(b) =~= (models(a) + models(b.drop_last())).push(b.last()@));
    }
}

// ── Reading a model ─────────────────────────────────────────────────────────

impl JsonModel {
    pub open spec fn str(self) -> Option<Seq<char>> {
        match self {
            JsonModel::Str(s) => Some(s),
            _ => None,
        }
    }

    pub open spec fn unsigned(self) -> Option<u64> {
        match self {
            JsonModel::Number(Num::Unsigned(n)) => Some(n),
            _ => None,
        }
    }

    pub open spec fn signed(self) -> Option<i64> {
        match self {
            JsonModel::Number(Num::Unsigned(n)) => if n <= i64::MAX {
                Some(n as i64)
            } else {
                None
            },
            JsonModel::Number(Num::Signed(n)) => Some(n),
            _ => None,
        }
    }

    pub open spec fn array(self) -> Option<Seq<JsonModel>> {
        match self {
            JsonModel::Array(a) => Some(a),
            _ => None,
        }
    }

    /// The value of the field `key` of an object.
    pub open spec fn field(self, key: Seq<char>) -> Option<JsonModel> {
        match self {
            JsonModel::Object(m) => if m.dom().contains(key) {
                Some(m[key])
            } else {
                None
            },
            _ => None,
        }
    }

    /// The element `i` of an array.
    pub open spec fn item(self, i: int) -> Option<JsonModel> {
        match self {
            JsonModel::Array(a) => if 0 <= i < a.len() {
                Some(a[i])
            } else {
                None
            },
            _ => None,
        }
    }

    /// The field `key`, or null where there is none.
    pub open spec fn field_or_null(self, key: Seq<char>) -> JsonModel {
        match self.field(key) {
            Some(v) => v,
            None => JsonModel::Null,
        }
    }

    pub open spec fn str_at(self, key: Seq<char>) -> Option<Seq<char>> {
        match self.field(key) {
            Some(v) => v.str(),
            None => None,
        }
    }

    pub open spec fn unsigned_at(self, key: Seq<char>) -> Option<u64> {
        match self.field(key) {
            Some(v) => v.unsigned(),
            None => None,
        }
    }

    pub open spec fn array_at(self, key: Seq<char>) -> Option<Seq<JsonModel>> {
        match self.field(key) {
            Some(v) => v.array(),
            None => None,
        }
    }

    pub open spec fn field_of_field(self, a: Seq<char>, b: Seq<char>) -> Option<JsonModel> {
        match self.field(a) {
            Some(v) => v.field(b),
            None => None,
        }
    }
}

/// What an optional value is.
pub open spec fn opt_model(o: Option<Json>) -> Option<JsonModel> {
    match o {
        Some(j) => Some(j@),
        None => None,
    }
}

pub open spec fn opt_model_ref(o: Option<&Json>) -> Option<JsonModel> {
    match o {
        Some(j) => Some(j@),
        None => None,
    }
}

pub open spec fn opt_str_ref(o: Option<&str>) -> Option<Seq<char>> {
    match o {
        Some(s) => Some(s@),
        None => None,
    }
}

pub open spec fn opt_array_ref(o: Option<&Vec<Json>>) -> Option<Seq<JsonModel>> {
    match o {
        Some(s) => Some(models(s@)),
        None => None,
    }
}

pub open spec fn or_empty(o: Option<Seq<char>>) -> Seq<char> {
    match o {
        Some(s) => s,
        None => seq![],
    }
}

pub open spec fn number(n: u64) -> JsonModel {
    JsonModel::Number(Num::Unsigned(n))
}

pub open spec fn nothing() -> Map<Seq<char>, JsonModel> {
    Map::empty()
}

/// The string `s`, or null.
pub open spec fn text_or_null(s: Option<Seq<char>>) -> JsonModel {
    match s {
        Some(t) => JsonModel::Str(t),
        None => JsonModel::Null,
    }
}

// ── Reading a value ─────────────────────────────────────────────────────────

impl Num {
    pub fn dup(&self) -> (r: Num)
        ensures
            r == *self,
    {
        match self {
            Num::Unsigned(n) => Num::Unsigned(*n),
            Num::Signed(n) => Num::Signed(*n),
            Num::Other(n) => Num::Other(OtherNumber { number: n.number.clone() }),
        }
    }
}

impl Object {
    pub fn new() -> (r: Object)
        ensures
            r@ == nothing(),
            r.entries@.len() == 0,
    {
        Object { entries: Vec::new() }
    }

    /// The object with the field `key` set to `value`.
    pub fn with(self, key: &str, value: Json) -> (r: Object)
        ensures
            r@ == self@.insert(key@, value@),
    {
        let mut o = self;
        let ghost before = o.entries@;
        o.entries.push((text::owned(key), value));
        proof {
            assert(o.entries@.drop_last() =~= before);
        }
        o
    }

    /// Sets the field `key`.
    pub fn put(&mut self, key: &str, value: Json)
        ensures
            final(self)@ == old(self)@.insert(key@, value@),
    {
        let ghost before = self.entries@;
        self.entries.push((text::owned(key), value));
        proof {
            assert(self.entries@.drop_last() =~= before);
        }
    }

    pub fn get(&self, key: &str) -> (r: Option<&Json>)
        ensures
            opt_model_ref(r) == (if self@.dom().contains(key@) {
                Some(self@[key@])
            } else {
                None
            }),
            r matches Some(j) ==> decreases_to!(*self => *j),
    {
        let ghost all = self.entries@;
        let mut i: usize = self.entries.len();
        assert(all.take(all.len() as int) =~= all);
        while i > 0
            invariant
                i <= self.entries.len(),
                all == self.entries@,
                fields(all.take(i as int)).dom().contains(key@) == fields(all).dom().contains(
                    key@,
                ),
                fields(all.take(i as int)).dom().contains(key@) ==> fields(
                    all.take(i as int),
                )[key@] == fields(all)[key@],
            decreases i,
        {
            assert(all.take(i as int).drop_last() =~= all.take(i - 1));
            assert(all.take(i as int).last() == all[i - 1]);
            if text::str_eq(self.entries[i - 1].0.as_str(), key) {
                let found = &self.entries[i - 1].1;
                assert(decreases_to!(*self => self.entries));
                assert(decreases_to!(self.entries => self.entries@));
                assert(decreases_to!(self.entries@ => self.entries@[i - 1]));
                assert(decreases_to!(self.entries@[i - 1] => self.entries@[i - 1].1));
                return Some(found);
            }
            i = i - 1;
        }
        None
    }

    pub fn dup(&self) -> (r: Object)
        ensures
            r@ == self@,
        decreases *self,
    {
        let mut out: Vec<(String, Json)> = Vec::new();
        let ghost all = self.entries@;
        let mut i: usize = 0;
        while i < self.entries.len()
            invariant
                i <= self.entries.len(),
                all == self.entries@,
                fields(out@) == fields(all.take(i as int)),
            decreases self.entries.len() - i,
        {
            let ghost before = out@;
            assert(decreases_to!(*self => self.entries@[i as int].1)) by {
                assert(decreases_to!(*self => self.entries));
                assert(decreases_to!(self.entries => self.entries@));
                assert(decreases_to!(self.entries@ => self.entries@[i as int]));
                assert(decreases_to!(self.entries@[i as int] => self.entries@[i as int].1));
            }
            let value = self.entries[i].1.dup();
            let key = self.entries[i].0.clone();
            out.push((key, value));
            proof {
                assert(out@.drop_last() =~= before);
                assert(all.take(i + 1).drop_last() =~= all.take(i as int));
                assert(all.take(i + 1).last() == all[i as int]);
            }
            i = i + 1;
        }
        assert(all.take(all.len() as int) =~= all);
        Object { entries: out }
    }
}

impl Json {
    pub fn text(s: &str) -> (r: Json)
        ensures
            r@ == JsonModel::Str(s@),
    {
        Json::Str(text::owned(s))
    }

    pub fn number(n: u64) -> (r: Json)
        ensures
            r@ == number(n),
    {
        Json::Number(Num::Unsigned(n))
    }

    pub fn text_or_null(s: &Option<String>) -> (r: Json)
        ensures
            r@ == text_or_null(text::opt_text(*s)),
    {
        match s {
            Some(t) => Json::Str(t.clone()),
            None => Json::Null,
        }
    }

    /// A copy of the value.
    pub fn dup(&self) -> (r: Json)
        ensures
            r@ == self@,
        decreases *self,
    {
        match self {
            Json::Null => Json::Null,
            Json::Bool(b) => Json::Bool(*b),
            Json::Number(n) => Json::Number(n.dup()),
            Json::Str(s) => Json::Str(s.clone()),
            Json::Array(v) => {
                assert(decreases_to!(*self => self->Array_0));
                Json::Array(dup_list(v))
            },
            Json::Object(o) => Json::Object(o.dup()),
        }
    }

    pub fn get(&self, key: &str) -> (r: Option<&Json>)
        ensures
            opt_model_ref(r) == self@.field(key@),
            r matches Some(j) ==> decreases_to!(*self => *j),
    {
        match self {
            Json::Object(o) => {
                assert(decreases_to!(*self => *o));
                o.get(key)
            },
            _ => None,
        }
    }

    pub fn item(&self, i: usize) -> (r: Option<&Json>)
        ensures
            opt_model_ref(r) == self@.item(i as int),
    {
        match self {
            Json::Array(v) => {
                proof {
                    models_at(v@);
                }
                if i < v.len() {
                    Some(&v[i])
                } else {
                    None
                }
            },
            _ => None,
        }
    }

    pub fn as_str(&self) -> (r: Option<&str>)
        ensures
            opt_str_ref(r) == self@.str(),
    {
        match self {
            Json::Str(s) => Some(s.as_str()),
            _ => None,
        }
    }

    pub fn as_u64(&self) -> (r: Option<u64>)
        ensures
            r == self@.unsigned(),
    {
        match self {
            Json::Number(Num::Unsigned(n)) => Some(*n),
            Json::Number(Num::Signed(n)) => if *n >= 0 {
                Some(*n as u64)
            } else {
                None
            },
            _ => None,
        }
    }

    pub fn as_i64(&self) -> (r: Option<i64>)
        ensures
            r == self@.signed(),
    {
        match self {
            Json::Number(Num::Unsigned(n)) => if *n <= 0x7fff_ffff_ffff_ffff {
                Some(*n as i64)
            } else {
                None
            },
            Json::Number(Num::Signed(n)) => Some(*n),
            _ => None,
        }
    }

    pub fn as_array(&self) -> (r: Option<&Vec<Json>>)
        ensures
            opt_array_ref(r) == self@.array(),
    {
        match self {
            Json::Array(v) => Some(v),
            _ => None,
        }
    }

    pub fn is_null(&self) -> (r: bool)
        ensures
            r == (self@ is Null),
    {
        match self {
            Json::Null => true,
            _ => false,
        }
    }

    pub fn str_at(&self, key: &str) -> (r: Option<&str>)
        ensures
            opt_str_ref(r) == self@.str_at(key@),
    {
        match self.get(key) {
            Some(v) => v.as_str(),
            None => None,
        }
    }

    pub fn u64_at(&self, key: &str) -> (r: Option<u64>)
        ensures
            r == self@.unsigned_at(key@),
    {
        match self.get(key) {
            Some(v) => v.as_u64(),
            None => None,
        }
    }

    pub fn array_at(&self, key: &str) -> (r: Option<&Vec<Json>>)
        ensures
            opt_array_ref(r) == self@.array_at(key@),
    {
        match self.get(key) {
            Some(v) => v.as_array(),
            None => None,
        }
    }

    pub fn get_in(&self, a: &str, b: &str) -> (r: Option<&Json>)
        ensures
            opt_model_ref(r) == self@.field_of_field(a@, b@),
    {
        match self.get(a) {
            Some(v) => v.get(b),
            None => None,
        }
    }
}

/// A copy of each of the values.
pub fn dup_list(v: &Vec<Json>) -> (r: Vec<Json>)
    ensures
        models(r@) == models(v@),
        r@.len() == v@.len(),
    decreases *v,
{
    let mut out: Vec<Json> = Vec::new();
    let mut i: usize = 0;
    while i < v.len()
        invariant
            i <= v.len(),
            out@.len() == i,
            models(out@) == models(v@.take(i as int)),
        decreases v.len() - i,
    {
        assert(decreases_to!(*v => v@[i as int])) by {
            assert(decreases_to!(*v => v@));
            assert(decreases_to!(v@ => v@[i as int]));
        }
        let item = v[i].dup();
        proof {
            models_push(out@, item);
            models_push(v@.take(i as int), v@[i as int]);
            assert(v@.take(i as int).push(v@[i as int]) =~= v@.take(i + 1));
        }
        out.push(item);
        i = i + 1;
    }
    assert(v@.take(v@.len() as int) =~= v@);
    out
}

pub fn dup_opt_num(n: &Option<Num>) -> (r: Option<Num>)
    ensures
        r == *n,
{
    match n {
        Some(v) => Some(v.dup()),
        None => None,
    }
}

pub fn dup_opt_json(o: &Option<Json>) -> (r: Option<Json>)
    ensures
        opt_model(r) == opt_model(*o),
{
    match o {
        Some(j) => Some(j.dup()),
        None => None,
    }
}

// ── What serde_json reads and writes ────────────────────────────────────────

/// What a `serde_json::Value` holds.
pub uninterp spec fn value_model(v: serde_json::Value) -> JsonModel;

/// The words of a `serde_json::Error`.
pub uninterp spec fn error_words(e: serde_json::Error) -> Seq<char>;

/// What `serde_json` reads from a text, or the words in which it refuses the text.
pub uninterp spec fn json_read(s: Seq<char>) -> Result<JsonModel, Seq<char>>;

/// What `serde_json` reads from bytes, or the words in which it refuses them.
pub uninterp spec fn json_read_bytes(b: Seq<u8>) -> Result<JsonModel, Seq<char>>;

/// What `serde_json` reads from a text; `None` where the text is not JSON to it.
pub open spec fn json_parse(s: Seq<char>) -> Option<JsonModel> {
    match json_read(s) {
        Ok(v) => Some(v),
        Err(_) => None,
    }
}

/// What `serde_json` reads from bytes; `None` where they are not JSON to it.
pub open spec fn json_parse_bytes(b: Seq<u8>) -> Option<JsonModel> {
    match json_read_bytes(b) {
        Ok(v) => Some(v),
        Err(_) => None,
    }
}

/// The text that `serde_json` writes for a value, with no blanks between its parts.
pub uninterp spec fn json_text(m: JsonModel) -> Seq<char>;

/// Takes a `serde_json::Value` apart, variant by variant. An integer of 64 bits is told from
/// the other numbers by `Number::as_u64` and `Number::as_i64`. The claim is that the parts
/// are what the value holds.
#[verifier::external_body]
pub(crate) fn json_of(v: serde_json::Value) -> (r: Json)
    ensures
        r@ == value_model(v),
{
    match v {
        Value::Null => Json::Null,
        Value::Bool(b) => Json::Bool(b),
        Value::Number(n) => Json::Number(match (n.as_u64(), n.as_i64()) {
            (Some(u), _) => Num::Unsigned(u),
            (None, Some(i)) => Num::Signed(i),
            (None, None) => Num::Other(OtherNumber { number: n }),
        }),
        Value::String(s) => Json::Str(s),
        Value::Array(a) => Json::Array(a.into_iter().map(json_of).collect()),
        Value::Object(m) => Json::Object(
            Object { entries: m.into_iter().map(|(k, x)| (k, json_of(x))).collect() }),
    }
}

/// Builds a `serde_json::Value` out of the parts, variant by variant. The fields of an object
/// are given to `serde_json::Map::insert` one by one, which updates the value where the map has
/// the name already, so that of two fields with one name the later one stays.
#[verifier::external_body]
pub(crate) fn value_of(j: &Json) -> (r: serde_json::Value)
    ensures
        value_model(r) == j@,
{
    match j {
        Json::Null => Value::Null,
        Json::Bool(b) => Value::Bool(*b),
        Json::Number(Num::Unsigned(n)) => Value::from(*n),
        Json::Number(Num::Signed(n)) => Value::from(*n),
        Json::Number(Num::Other(n)) => Value::Number(n.number.clone()),
        Json::Str(s) => Value::String(s.clone()),
        Json::Array(a) => Value::Array(a.iter().map(value_of).collect()),
        Json::Object(o) => {
            let mut m = serde_json::Map::new();
            for e in o.entries.iter() { m.insert(e.0.clone(), value_of(&e.1)); }
            Value::Object(m)
        },
    }
}

/// `serde_json::from_str` into a `Value`: a function of the text alone, as are the words of the
/// error.
#[verifier::external_body]
pub(crate) fn from_str(s: &str) -> (r: Result<serde_json::Value, serde_json::Error>)
    ensures
        match r {
            Ok(v) => json_read(s@) == Ok::<JsonModel, Seq<char>>(value_model(v)),
            Err(e) => json_read(s@) == Err::<JsonModel, Seq<char>>(error_words(e)),
        },
{
    serde_json::from_str(s)
}

/// `serde_json::from_slice` into a `Value`: a function of the bytes alone, as are the words of
/// the error. It reads bytes that are the UTF-8 of a text as `serde_json::from_str` reads the
/// text.
#[verifier::external_body]
pub(crate) fn from_slice(b: &[u8]) -> (r: Result<serde_json::Value, serde_json::Error>)
    ensures
        match r {
            Ok(v) => json_read_bytes(b@) == Ok::<JsonModel, Seq<char>>(value_model(v)),
            Err(e) => json_read_bytes(b@) == Err::<JsonModel, Seq<char>>(error_words(e)),
        },
        r is Ok && vstd::utf8::valid_utf8(b@) ==> json_parse(vstd::utf8::decode_utf8(b@))
            == json_parse_bytes(b@),
        r is Err && vstd::utf8::valid_utf8(b@) ==> json_parse(vstd::utf8::decode_utf8(b@)) is None,
{
    serde_json::from_slice(b)
}

/// The `Display` of `serde_json::Value`, in its compact form: a function of what the value
/// holds alone. Control characters are escaped, so that none stands in the text.
#[verifier::external_body]
pub(crate) fn value_text(v: &serde_json::Value) -> (r: String)
    ensures
        r@ == json_text(value_model(*v)),
        forall|i: int| 0 <= i < r@.len() ==> #[trigger] r@[i] >= ' ',
{
    v.to_string()
}

/// The `Display` of `serde_json::Error`: a function of the error alone.
#[verifier::external_body]
pub(crate) fn error_text(e: &serde_json::Error) -> (r: String)
    ensures
        r@ == error_words(*e),
{
    e.to_string()
}

/// What `serde_json` reads from a text.
pub fn parse(s: &str) -> (r: Option<Json>)
    ensures
        opt_model(r) == json_parse(s@),
{
    match from_str(s) {
        Ok(v) => Some(json_of(v)),
        Err(_) => None,
    }
}

/// What `serde_json` reads from bytes.
pub fn parse_bytes(b: &[u8]) -> (r: Option<Json>)
    ensures
        opt_model(r) == json_parse_bytes(b@),
        vstd::utf8::valid_utf8(b@) ==> opt_model(r) == json_parse(vstd::utf8::decode_utf8(b@)),
{
    match from_slice(b) {
        Ok(v) => Some(json_of(v)),
        Err(_) => None,
    }
}

/// The text that `serde_json` writes for a value.
pub fn render(j: &Json) -> (r: String)
    ensures
        r@ == json_text(j@),
        forall|i: int| 0 <= i < r@.len() ==> #[trigger] r@[i] >= ' ',
{
    value_text(&value_of(j))
}

} // verus!
