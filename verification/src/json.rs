//! JSON values: the library's own tree, its mathematical model, and the way to and from
//! `serde_json`.

use vstd::prelude::*;

verus! {

/// A JSON number: an integer, or a finite binary floating-point number.
#[derive(Debug, PartialEq)]
pub enum Number {
    Pos(u64),
    Neg(i64),
    Float(Float),
}

/// A floating-point number, known by its IEEE 754 double-precision bit pattern. `raw` is the
/// same number as `serde_json` holds it.
#[derive(Debug, PartialEq)]
pub struct Float {
    bits: u64,
    raw: serde_json::Value,
}

/// A JSON value.
#[derive(Debug, PartialEq)]
pub enum Json {
    Null,
    Bool(bool),
    Number(Number),
    Str(String),
    Array(Vec<Json>),
    Object(JsonMap),
}

/// The members of a JSON object, in the order in which their names first came, each name once.
#[derive(Debug, PartialEq)]
pub struct JsonMap {
    entries: Vec<(String, Json)>,
}

/// The model of a number: `Neg` holds negative integers only.
pub enum NumberV {
    Pos(u64),
    Neg(i64),
    Float(u64),
}

/// The model of a JSON value.
pub enum JsonV {
    Null,
    Bool(bool),
    Number(NumberV),
    Str(Seq<char>),
    Array(Seq<JsonV>),
    Object(Seq<(Seq<char>, JsonV)>),
}

pub type Members = Seq<(Seq<char>, JsonV)>;

/// The integer `n` as a JSON number.
pub open spec fn number_of(n: int) -> NumberV {
    if n < 0 {
        NumberV::Neg(n as i64)
    } else {
        NumberV::Pos(n as u64)
    }
}

pub open spec fn int_json(n: int) -> JsonV {
    JsonV::Number(number_of(n))
}

/// The value of the first member named `k`.
pub open spec fn lookup(es: Members, k: Seq<char>) -> Option<JsonV>
    decreases es.len(),
{
    if es.len() == 0 {
        None
    } else if es[0].0 == k {
        Some(es[0].1)
    } else {
        lookup(es.skip(1), k)
    }
}

/// Gives the member named `k` the value `v`: in its place where it is there, else at the end.
#[verifier::opaque]
pub open spec fn put(es: Members, k: Seq<char>, v: JsonV) -> Members {
    if lookup(es, k) is Some {
        es.map_values(
            |e: (Seq<char>, JsonV)|
                if e.0 == k {
                    (k, v)
                } else {
                    e
                },
        )
    } else {
        es.push((k, v))
    }
}

impl JsonV {
    /// The object without members.
    pub open spec fn obj() -> JsonV {
        JsonV::Object(Seq::empty())
    }

    /// The object with the member `k` set to `v`; a value that is no object stays as it is.
    pub open spec fn with(self, k: Seq<char>, v: JsonV) -> JsonV {
        match self {
            JsonV::Object(es) => JsonV::Object(put(es, k, v)),
            _ => self,
        }
    }

    /// As `with`, where there is a value to set.
    pub open spec fn with_some(self, k: Seq<char>, v: Option<JsonV>) -> JsonV {
        match v {
            Some(v) => self.with(k, v),
            None => self,
        }
    }

    pub open spec fn get(self, k: Seq<char>) -> Option<JsonV> {
        match self {
            JsonV::Object(es) => lookup(es, k),
            _ => None,
        }
    }

    /// The member `b` of the member `a`.
    pub open spec fn get2(self, a: Seq<char>, b: Seq<char>) -> Option<JsonV> {
        match self.get(a) {
            Some(j) => j.get(b),
            None => None,
        }
    }

    pub open spec fn as_str(self) -> Option<Seq<char>> {
        match self {
            JsonV::Str(s) => Some(s),
            _ => None,
        }
    }

    pub open spec fn as_bool(self) -> Option<bool> {
        match self {
            JsonV::Bool(b) => Some(b),
            _ => None,
        }
    }

    pub open spec fn as_u64(self) -> Option<u64> {
        match self {
            JsonV::Number(NumberV::Pos(n)) => Some(n),
            _ => None,
        }
    }

    pub open spec fn as_array(self) -> Option<Seq<JsonV>> {
        match self {
            JsonV::Array(s) => Some(s),
            _ => None,
        }
    }

    /// The text in the member `k`.
    pub open spec fn get_str(self, k: Seq<char>) -> Option<Seq<char>> {
        str_in(self.get(k))
    }

    /// The text in the member `k`, or `default`.
    pub open spec fn str_or(self, k: Seq<char>, default: Seq<char>) -> Seq<char> {
        match self.get_str(k) {
            Some(s) => s,
            None => default,
        }
    }

    /// The text in the member `k` where it is not empty.
    pub open spec fn get_nonempty(self, k: Seq<char>) -> Option<Seq<char>> {
        match self.get_str(k) {
            Some(s) => if s.len() > 0 {
                Some(s)
            } else {
                None
            },
            None => None,
        }
    }

    /// The items in the member `k`; none where it holds no array.
    pub open spec fn items(self, k: Seq<char>) -> Seq<JsonV> {
        match self.get(k) {
            Some(JsonV::Array(s)) => s,
            _ => Seq::empty(),
        }
    }

    /// The member `k` where it is there and not null.
    pub open spec fn get_nonnull(self, k: Seq<char>) -> Option<JsonV> {
        match self.get(k) {
            Some(JsonV::Null) => None,
            o => o,
        }
    }

    /// The member `k` where it is an object.
    pub open spec fn get_object(self, k: Seq<char>) -> Option<JsonV> {
        match self.get(k) {
            Some(JsonV::Object(es)) => Some(JsonV::Object(es)),
            _ => None,
        }
    }

    /// The member `k`, or null where it is absent.
    pub open spec fn or_null(self, k: Seq<char>) -> JsonV {
        match self.get(k) {
            Some(j) => j,
            None => JsonV::Null,
        }
    }
}

pub open spec fn str_in(o: Option<JsonV>) -> Option<Seq<char>> {
    match o {
        Some(j) => j.as_str(),
        None => None,
    }
}

/// The model of an optional value.
pub open spec fn opt_json(o: Option<&Json>) -> Option<JsonV> {
    match o {
        Some(j) => Some(j@),
        None => None,
    }
}

pub open spec fn owned_json(o: Option<Json>) -> Option<JsonV> {
    match o {
        Some(j) => Some(j@),
        None => None,
    }
}

/// The models of a list of values.
pub open spec fn models(v: Seq<Json>) -> Seq<JsonV> {
    v.map_values(|j: Json| j@)
}

impl Number {
    pub open spec fn view(&self) -> NumberV {
        match self {
            Number::Pos(n) => NumberV::Pos(*n),
            Number::Neg(n) => number_of(*n as int),
            Number::Float(f) => NumberV::Float(f.view()),
        }
    }
}

impl Float {
    pub closed spec fn view(&self) -> u64 {
        self.bits
    }

    #[verifier::type_invariant]
    closed spec fn faithful(&self) -> bool {
        value_json(self.raw) == JsonV::Number(NumberV::Float(self.bits))
    }

    /// The IEEE 754 bit pattern.
    pub fn bits(&self) -> (r: u64)
        ensures
            r == self@,
    {
        self.bits
    }
}

impl Json {
    pub open spec fn view(&self) -> JsonV
        decreases self,
    {
        match self {
            Json::Null => JsonV::Null,
            Json::Bool(b) => JsonV::Bool(*b),
            Json::Number(n) => JsonV::Number(n@),
            Json::Str(s) => JsonV::Str(s@),
            Json::Array(v) => JsonV::Array(
                Seq::new(
                    v@.len(),
                    |i: int|
                        if 0 <= i < v@.len() {
                            v@[i].view()
                        } else {
                            JsonV::Null
                        },
                ),
            ),
            Json::Object(m) => JsonV::Object(m.view()),
        }
    }
}

impl JsonMap {
    pub closed spec fn view(&self) -> Members
        decreases self,
    {
        Seq::new(
            self.entries@.len(),
            |i: int|
                if 0 <= i < self.entries@.len() {
                    (self.entries@[i].0@, self.entries@[i].1.view())
                } else {
                    (Seq::<char>::empty(), JsonV::Null)
                },
        )
    }

    #[verifier::type_invariant]
    closed spec fn unique(&self) -> bool {
        unique_names(self.entries@)
    }
}

spec fn unique_names(es: Seq<(String, Json)>) -> bool {
    forall|i: int, j: int| 0 <= i < j < es.len() ==> es[i].0@ != es[j].0@
}

/// No two members have the same name.
pub open spec fn distinct_names(es: Members) -> bool {
    forall|i: int, j: int| 0 <= i < j < es.len() ==> es[i].0 != es[j].0
}

// ── serde_json ─────────────────────────────────────────────────

/// `serde_json::Value`, a JSON value as `serde_json` reads and writes it.
#[verifier::external_type_specification]
#[verifier::external_body]
pub struct ExValue(serde_json::Value);

/// What a `serde_json::Value` holds.
pub uninterp spec fn value_json(v: serde_json::Value) -> JsonV;

/// What `serde_json::from_str` reads in a text: `None` where it is not one JSON value.
pub uninterp spec fn json_parsed(s: Seq<char>) -> Option<JsonV>;

/// What `serde_json::from_slice` reads in bytes.
pub uninterp spec fn json_parsed_bytes(b: Seq<u8>) -> Option<JsonV>;

/// The text that `serde_json::to_string` writes for a value.
pub uninterp spec fn json_text(j: JsonV) -> Seq<char>;

/// One level of a `serde_json::Value`: a float comes with its bit pattern and as the value that
/// it was.
pub(crate) enum Node {
    Null,
    Bool(bool),
    Unsigned(u64),
    Signed(i64),
    Float(u64, serde_json::Value),
    Str(String),
    Array(Vec<serde_json::Value>),
    Object(Vec<(String, serde_json::Value)>),
}

pub(crate) open spec fn values_json(v: Seq<serde_json::Value>) -> Seq<JsonV> {
    v.map_values(|x: serde_json::Value| value_json(x))
}

pub(crate) open spec fn members_json(v: Seq<(String, serde_json::Value)>) -> Members {
    v.map_values(|x: (String, serde_json::Value)| (x.0@, value_json(x.1)))
}

pub(crate) open spec fn node_json(n: Node) -> JsonV {
    match n {
        Node::Null => JsonV::Null,
        Node::Bool(b) => JsonV::Bool(b),
        Node::Unsigned(n) => JsonV::Number(NumberV::Pos(n)),
        Node::Signed(n) => int_json(n as int),
        Node::Float(b, _) => JsonV::Number(NumberV::Float(b)),
        Node::Str(s) => JsonV::Str(s@),
        Node::Array(v) => JsonV::Array(values_json(v@)),
        Node::Object(v) => JsonV::Object(members_json(v@)),
    }
}

/// `serde_json::from_str::<Value>`.
#[verifier::external_body]
fn serde_from_str(s: &str) -> (r: Option<serde_json::Value>)
    ensures
        json_parsed(s@) == (match r {
            Some(v) => Some(value_json(v)),
            None => None,
        }),
{
    serde_json::from_str(s).ok()
}

/// `serde_json::from_slice::<Value>`: on the UTF-8 form of a text it reads what `from_str` reads
/// in that text.
#[verifier::external_body]
fn serde_from_slice(b: &[u8]) -> (r: Option<serde_json::Value>)
    ensures
        json_parsed_bytes(b@) == (match r {
            Some(v) => Some(value_json(v)),
            None => None,
        }),
        vstd::utf8::valid_utf8(b@) ==> json_parsed(vstd::utf8::decode_utf8(b@)) == (match r {
            Some(v) => Some(value_json(v)),
            None => None,
        }),
{
    serde_json::from_slice(b).ok()
}

/// `serde_json::to_string`, which writes any `Value`.
#[verifier::external_body]
fn serde_to_string(v: &serde_json::Value) -> (r: String)
    ensures
        r@ == json_text(value_json(*v)),
{
    serde_json::to_string(v).unwrap_or_else(|_| String::new())
}

/// `serde_json::Value::clone` holds what the original holds.
pub assume_specification[ <serde_json::Value as Clone>::clone ](v: &serde_json::Value) -> (r: serde_json::Value)
    ensures
        value_json(r) == value_json(*v),
;

/// Takes a `serde_json::Value` apart by its variants. The names in a `serde_json::Map` are
/// distinct, and it hands its members out in the order in which they were first inserted.
#[verifier::external_body]
fn value_open(v: serde_json::Value) -> (r: Node)
    ensures
        node_json(r) == value_json(v),
        r matches Node::Float(b, raw) ==> value_json(raw) == value_json(v),
        r matches Node::Object(es) ==> distinct_names(members_json(es@)),
{
    match v {
        serde_json::Value::Null => Node::Null,
        serde_json::Value::Bool(b) => Node::Bool(b),
        serde_json::Value::Number(n) => match (n.as_u64(), n.as_i64(), n.as_f64()) {
            (Some(u), _, _) => Node::Unsigned(u),
            (_, Some(i), _) => Node::Signed(i),
            (_, _, f) => Node::Float(f.unwrap_or_default().to_bits(), serde_json::Value::Number(n)),
        },
        serde_json::Value::String(s) => Node::Str(s),
        serde_json::Value::Array(a) => Node::Array(a),
        serde_json::Value::Object(m) => Node::Object(m.into_iter().collect()),
    }
}

/// Builds a `serde_json::Value` of the variant that the node names; members are inserted in
/// their order.
#[verifier::external_body]
fn value_build(n: Node) -> (r: serde_json::Value)
    requires
        n matches Node::Float(b, raw) ==> value_json(raw) == JsonV::Number(NumberV::Float(b)),
        n matches Node::Object(es) ==> distinct_names(members_json(es@)),
    ensures
        value_json(r) == node_json(n),
{
    match n {
        Node::Null => serde_json::Value::Null,
        Node::Bool(b) => serde_json::Value::Bool(b),
        Node::Unsigned(n) => serde_json::Value::from(n),
        Node::Signed(n) => serde_json::Value::from(n),
        Node::Float(_, raw) => raw,
        Node::Str(s) => serde_json::Value::String(s),
        Node::Array(a) => serde_json::Value::Array(a),
        Node::Object(es) => serde_json::Value::Object(es.into_iter().collect()),
    }
}

// ── copies ─────────────────────────────────────────────────────

impl Clone for Float {
    fn clone(&self) -> (r: Self)
        ensures
            r@ == self@,
    {
        proof {
            use_type_invariant(self);
        }
        Float { bits: self.bits, raw: self.raw.clone() }
    }
}

impl Clone for Number {
    fn clone(&self) -> (r: Self)
        ensures
            r@ == self@,
    {
        match self {
            Number::Pos(n) => Number::Pos(*n),
            Number::Neg(n) => Number::Neg(*n),
            Number::Float(f) => Number::Float(f.clone()),
        }
    }
}

impl Clone for Json {
    fn clone(&self) -> (r: Self)
        ensures
            r@ == self@,
        decreases self,
    {
        match self {
            Json::Null => Json::Null,
            Json::Bool(b) => Json::Bool(*b),
            Json::Number(n) => Json::Number(n.clone()),
            Json::Str(s) => Json::Str(s.clone()),
            Json::Array(v) => {
                let mut out: Vec<Json> = Vec::new();
                let mut i: usize = 0;
                while i < v.len()
                    invariant
                        i <= v@.len(),
                        out@.len() == i,
                        *self == Json::Array(*v),
                        forall|k: int| 0 <= k < i ==> (#[trigger] out@[k])@ == v@[k]@,
                    decreases v.len() - i,
                {
                    assert(decreases_to!(*self => self->Array_0@[i as int]));
                    let c = v[i].clone();
                    out.push(c);
                    i = i + 1;
                }
                let r = Json::Array(out);
                assert(r@->Array_0 =~= self@->Array_0);
                r
            },
            Json::Object(m) => Json::Object(m.clone()),
        }
    }
}

impl Clone for JsonMap {
    fn clone(&self) -> (r: Self)
        ensures
            r@ == self@,
        decreases self,
    {
        proof {
            use_type_invariant(self);
        }
        let mut out: Vec<(String, Json)> = Vec::new();
        let mut i: usize = 0;
        while i < self.entries.len()
            invariant
                i <= self.entries@.len(),
                out@.len() == i,
                unique_names(self.entries@),
                forall|k: int| 0 <= k < i ==> (#[trigger] out@[k]).0@ == self.entries@[k].0@,
                forall|k: int| 0 <= k < i ==> (#[trigger] out@[k]).1@ == self.entries@[k].1@,
            decreases self.entries.len() - i,
        {
            assert(decreases_to!(*self => self.entries@[i as int].1));
            let k = self.entries[i].0.clone();
            let j = self.entries[i].1.clone();
            out.push((k, j));
            i = i + 1;
        }
        let r = JsonMap { entries: out };
        assert(r@ =~= self@);
        r
    }
}

// ── reading and writing ────────────────────────────────────────

/// The value that a `serde_json::Value` holds.
fn from_value(v: serde_json::Value) -> (r: Json)
    ensures
        r@ == value_json(v),
    decreases value_json(v),
{
    let ghost whole = value_json(v);
    match value_open(v) {
        Node::Null => Json::Null,
        Node::Bool(b) => Json::Bool(b),
        Node::Unsigned(n) => Json::Number(Number::Pos(n)),
        Node::Signed(n) => Json::Number(Number::Neg(n)),
        Node::Float(bits, raw) => Json::Number(Number::Float(Float { bits, raw })),
        Node::Str(s) => Json::Str(s),
        Node::Array(vs) => {
            let mut out: Vec<Json> = Vec::new();
            let ghost all = vs@;
            for x in it: vs
                invariant
                    it.seq() == all,
                    whole == value_json(v),
                    whole == JsonV::Array(values_json(all)),
                    out@.len() == it.index(),
                    forall|k: int| 0 <= k < out@.len() ==> (#[trigger] out@[k])@ == value_json(all[k]),
            {
                assert(decreases_to!(whole => whole->Array_0[it.index() as int]));
                out.push(from_value(x));
            }
            let r = Json::Array(out);
            assert(r@->Array_0 =~= whole->Array_0);
            r
        },
        Node::Object(es) => {
            let mut out: Vec<(String, Json)> = Vec::new();
            let ghost all = es@;
            for e in it: es
                invariant
                    it.seq() == all,
                    whole == value_json(v),
                    whole == JsonV::Object(members_json(all)),
                    out@.len() == it.index(),
                    forall|k: int| 0 <= k < out@.len() ==> (#[trigger] out@[k]).0@ == all[k].0@,
                    forall|k: int| 0 <= k < out@.len() ==> (#[trigger] out@[k]).1@ == value_json(all[k].1),
            {
                assert(decreases_to!(whole => whole->Object_0[it.index() as int].1));
                out.push((e.0, from_value(e.1)));
            }
            assert forall|i: int, j: int| 0 <= i < j < out@.len() implies out@[i].0@ != out@[j].0@ by {
                assert(members_json(all)[i].0 != members_json(all)[j].0);
            }
            let m = JsonMap { entries: out };
            assert(m@ =~= whole->Object_0);
            Json::Object(m)
        },
    }
}

/// The `serde_json::Value` that holds a value.
fn to_value(j: &Json) -> (r: serde_json::Value)
    ensures
        value_json(r) == j@,
    decreases j,
{
    let node = match j {
        Json::Null => Node::Null,
        Json::Bool(b) => Node::Bool(*b),
        Json::Number(n) => match n {
            Number::Pos(n) => Node::Unsigned(*n),
            Number::Neg(n) => Node::Signed(*n),
            Number::Float(f) => {
                proof {
                    use_type_invariant(f);
                }
                Node::Float(f.bits, f.raw.clone())
            },
        },
        Json::Str(s) => Node::Str(s.clone()),
        Json::Array(v) => {
            let mut out: Vec<serde_json::Value> = Vec::new();
            let mut i: usize = 0;
            while i < v.len()
                invariant
                    i <= v@.len(),
                    out@.len() == i,
                    *j == Json::Array(*v),
                    forall|k: int| 0 <= k < i ==> value_json(#[trigger] out@[k]) == v@[k]@,
                decreases v.len() - i,
            {
                assert(decreases_to!(*j => j->Array_0@[i as int]));
                out.push(to_value(&v[i]));
                i = i + 1;
            }
            assert(values_json(out@) =~= j@->Array_0);
            Node::Array(out)
        },
        Json::Object(m) => {
            proof {
                use_type_invariant(m);
            }
            let mut out: Vec<(String, serde_json::Value)> = Vec::new();
            let mut i: usize = 0;
            while i < m.entries.len()
                invariant
                    i <= m.entries@.len(),
                    out@.len() == i,
                    *j == Json::Object(*m),
                    forall|k: int| 0 <= k < i ==> (#[trigger] out@[k]).0@ == m.entries@[k].0@,
                    forall|k: int| 0 <= k < i ==> value_json((#[trigger] out@[k]).1) == m.entries@[k].1@,
                decreases m.entries.len() - i,
            {
                assert(decreases_to!(*j => j->Object_0.entries@[i as int].1));
                let v = to_value(&m.entries[i].1);
                out.push((m.entries[i].0.clone(), v));
                i = i + 1;
            }
            assert(members_json(out@) =~= m@);
            Node::Object(out)
        },
    };
    value_build(node)
}

/// Reads one JSON value in a text.
pub fn parse_json(s: &str) -> (r: Option<Json>)
    ensures
        owned_json(r) == json_parsed(s@),
{
    match serde_from_str(s) {
        Some(v) => Some(from_value(v)),
        None => None,
    }
}

/// Reads one JSON value in bytes.
pub fn parse_json_bytes(b: &[u8]) -> (r: Option<Json>)
    ensures
        owned_json(r) == json_parsed_bytes(b@),
        vstd::utf8::valid_utf8(b@) ==> owned_json(r) == json_parsed(vstd::utf8::decode_utf8(b@)),
{
    match serde_from_slice(b) {
        Some(v) => Some(from_value(v)),
        None => None,
    }
}

/// Writes a value as compact JSON.
pub fn json_string(j: &Json) -> (r: String)
    ensures
        r@ == json_text(j@),
{
    serde_to_string(&to_value(j))
}

// ── members ────────────────────────────────────────────────────

proof fn lemma_lookup_none(es: Members, k: Seq<char>)
    ensures
        lookup(es, k) is None <==> forall|i: int| 0 <= i < es.len() ==> (#[trigger] es[i]).0 != k,
    decreases es.len(),
{
    if es.len() > 0 {
        lemma_lookup_none(es.skip(1), k);
        if lookup(es, k) is None {
            assert forall|i: int| 0 <= i < es.len() implies (#[trigger] es[i]).0 != k by {
                if i > 0 {
                    assert(es.skip(1)[i - 1] == es[i]);
                }
            }
        }
        if forall|i: int| 0 <= i < es.len() ==> (#[trigger] es[i]).0 != k {
            assert forall|i: int| 0 <= i < es.skip(1).len() implies (#[trigger] es.skip(1)[i]).0 != k by {
                assert(es.skip(1)[i] == es[i + 1]);
            }
        }
    }
}

/// A member that was set is found again.
pub proof fn lemma_put_same(es: Members, k: Seq<char>, v: JsonV)
    ensures
        lookup(put(es, k, v), k) == Some(v),
    decreases es.len(),
{
    reveal(put);
    if es.len() == 0 {
        assert(put(es, k, v)[0] == (k, v));
    } else if es[0].0 == k {
        assert(put(es, k, v)[0] == (k, v));
    } else {
        lemma_put_same(es.skip(1), k, v);
        assert(put(es, k, v)[0] == es[0]);
        assert(put(es, k, v).skip(1) =~= put(es.skip(1), k, v));
    }
}

/// A member that was set is read back, and the others are as they were.
pub broadcast proof fn get_of_with(j: JsonV, k: Seq<char>, v: JsonV, k2: Seq<char>)
    requires
        j is Object,
    ensures
        #[trigger] j.with(k, v).get(k2) == (if k == k2 {
            Some(v)
        } else {
            j.get(k2)
        }),
{
    if let JsonV::Object(es) = j {
        if k == k2 {
            lemma_put_same(es, k, v);
        } else {
            lemma_put_other(es, k, v, k2);
        }
    }
}

/// An object without members has none.
pub broadcast proof fn get_of_obj(k: Seq<char>)
    ensures
        #[trigger] JsonV::obj().get(k) is None,
{
}

pub broadcast group group_members {
    get_of_with,
    get_of_obj,
}

/// Whether setting the member `k` to `v` changes nothing.
pub open spec fn settled(es: Members, k: Seq<char>, v: JsonV) -> bool {
    put(es, k, v) == es
}

/// To set a member twice to a value is to set it once.
pub proof fn put_settles(es: Members, k: Seq<char>, v: JsonV)
    ensures
        settled(put(es, k, v), k, v),
{
    lemma_put_same(es, k, v);
    reveal(put);
    let p = put(es, k, v);
    if lookup(es, k) is None {
        lemma_absent(es, k);
    }
    assert(put(p, k, v) =~= p);
}

/// Setting another member leaves one set that was set.
pub proof fn put_keeps_settled(es: Members, k: Seq<char>, v: JsonV, k2: Seq<char>, v2: JsonV)
    requires
        settled(es, k, v),
        lookup(es, k) is Some,
        k != k2,
    ensures
        settled(put(es, k2, v2), k, v),
{
    lemma_put_other(es, k2, v2, k);
    reveal(put);
    let p = put(es, k2, v2);
    assert forall|i: int| 0 <= i < p.len() implies put(p, k, v)[i] == #[trigger] p[i] by {
        if i < es.len() {
            assert(put(es, k, v)[i] == es[i]);
        }
    }
    assert(put(p, k, v) =~= p);
}

pub proof fn lemma_absent(es: Members, k: Seq<char>)
    requires
        lookup(es, k) is None,
    ensures
        forall|i: int| 0 <= i < es.len() ==> (#[trigger] es[i]).0 != k,
    decreases es.len(),
{
    if es.len() > 0 {
        lemma_absent(es.skip(1), k);
        assert forall|i: int| 0 <= i < es.len() implies (#[trigger] es[i]).0 != k by {
            if i > 0 {
                assert(es.skip(1)[i - 1] == es[i]);
            }
        }
    }
}

/// Setting a member leaves the others as they are.
pub proof fn lemma_put_other(es: Members, k: Seq<char>, v: JsonV, k2: Seq<char>)
    requires
        k != k2,
    ensures
        lookup(put(es, k, v), k2) == lookup(es, k2),
    decreases es.len(),
{
    reveal(put);
    if es.len() == 0 {
        assert(put(es, k, v) =~= seq![(k, v)]);
        assert(put(es, k, v).skip(1) =~= Seq::<(Seq<char>, JsonV)>::empty());
        assert(lookup(put(es, k, v).skip(1), k2) is None);
    } else {
        lemma_put_other(es.skip(1), k, v, k2);
        if es[0].0 == k {
            assert(put(es, k, v)[0] == (k, v));
            let rest = put(es, k, v).skip(1);
            lemma_replaced_other(es.skip(1), k, v, k2);
            assert(rest =~= es.skip(1).map_values(|e: (Seq<char>, JsonV)| if e.0 == k { (k, v) } else { e }));
        } else {
            assert(put(es, k, v)[0] == es[0]);
            assert(put(es, k, v).skip(1) =~= put(es.skip(1), k, v));
        }
    }
}

proof fn lemma_replaced_other(es: Members, k: Seq<char>, v: JsonV, k2: Seq<char>)
    requires
        k != k2,
    ensures
        lookup(es.map_values(|e: (Seq<char>, JsonV)| if e.0 == k { (k, v) } else { e }), k2) == lookup(es, k2),
    decreases es.len(),
{
    let f = |e: (Seq<char>, JsonV)| if e.0 == k { (k, v) } else { e };
    let m = es.map_values(f);
    if es.len() > 0 {
        lemma_replaced_other(es.skip(1), k, v, k2);
        assert(m.skip(1) =~= es.skip(1).map_values(f));
        assert(m[0] == f(es[0]));
    }
}

impl JsonMap {
    fn position(&self, k: &str) -> (r: Option<usize>)
        ensures
            match r {
                Some(i) => i < self.entries@.len() && self.entries@[i as int].0@ == k@ && lookup(self@, k@)
                    == Some(self.entries@[i as int].1@),
                None => lookup(self@, k@) is None,
            },
    {
        let mut i: usize = 0;
        assert(self@.skip(0) =~= self@);
        while i < self.entries.len()
            invariant
                i <= self.entries@.len(),
                lookup(self@.skip(i as int), k@) == lookup(self@, k@),
            decreases self.entries.len() - i,
        {
            assert(self@.skip(i as int)[0] == self@[i as int]);
            if crate::text::same(self.entries[i].0.as_str(), k) {
                return Some(i);
            }
            assert(self@.skip(i as int).skip(1) =~= self@.skip(i + 1));
            i = i + 1;
        }
        None
    }

    pub fn new() -> (r: JsonMap)
        ensures
            r@ == Seq::<(Seq<char>, JsonV)>::empty(),
    {
        let entries: Vec<(String, Json)> = Vec::new();
        let r = JsonMap { entries };
        assert(r@ =~= Seq::<(Seq<char>, JsonV)>::empty());
        r
    }

    pub fn len(&self) -> (r: usize)
        ensures
            r == self@.len(),
    {
        self.entries.len()
    }

    /// The member at a place.
    pub fn at(&self, i: usize) -> (r: (&str, &Json))
        requires
            i < self@.len(),
        ensures
            (r.0@, r.1@) == self@[i as int],
    {
        (self.entries[i].0.as_str(), &self.entries[i].1)
    }

    pub fn get(&self, k: &str) -> (r: Option<&Json>)
        ensures
            opt_json(r) == lookup(self@, k@),
    {
        match self.position(k) {
            Some(i) => Some(&self.entries[i].1),
            None => None,
        }
    }

    /// Sets a member.
    pub fn insert(self, k: &str, v: Json) -> (r: JsonMap)
        ensures
            r@ == put(self@, k@, v@),
    {
        proof {
            use_type_invariant(&self);
            reveal(put);
            lemma_lookup_none(self@, k@);
        }
        let found = self.position(k);
        let ghost before = self@;
        let ghost names = self.entries@;
        let mut entries = self.entries;
        match found {
            Some(i) => {
                entries.set(i, (k.to_owned(), v));
                let r = JsonMap { entries };
                assert forall|j: int| 0 <= j < before.len() && j != i implies (#[trigger] before[j]).0 != k@ by {
                    assert(names[j].0@ != names[i as int].0@);
                }
                assert(r@ =~= put(before, k@, v@));
                r
            },
            None => {
                assert forall|j: int| 0 <= j < names.len() implies (#[trigger] names[j]).0@ != k@ by {
                    assert(before[j].0 != k@);
                }
                entries.push((k.to_owned(), v));
                let r = JsonMap { entries };
                assert(r@ =~= put(before, k@, v@));
                r
            },
        }
    }
}

// ── values ─────────────────────────────────────────────────────

/// The items of an array; none where there was no array.
pub struct Items<'a> {
    list: Option<&'a Vec<Json>>,
}

impl<'a> Items<'a> {
    pub closed spec fn view(&self) -> Seq<JsonV> {
        match self.list {
            Some(v) => models(v@),
            None => Seq::empty(),
        }
    }

    pub fn of(list: Option<&'a Vec<Json>>) -> (r: Items<'a>)
        ensures
            r@ == (match list {
                Some(v) => models(v@),
                None => Seq::empty(),
            }),
    {
        Items { list }
    }

    pub fn len(&self) -> (r: usize)
        ensures
            r == self@.len(),
    {
        match self.list {
            Some(v) => v.len(),
            None => 0,
        }
    }

    pub fn at(&self, i: usize) -> (r: &'a Json)
        requires
            i < self@.len(),
        ensures
            r@ == self@[i as int],
    {
        match self.list {
            Some(v) => &v[i],
            None => &Json::Null,
        }
    }
}

pub fn push_json(v: &mut Vec<Json>, j: Json)
    ensures
        final(v)@ == old(v)@.push(j),
        models(final(v)@) == models(old(v)@).push(j@),
{
    v.push(j);
    assert(models(v@) =~= models(old(v)@).push(j@));
}

pub fn no_json() -> (r: Vec<Json>)
    ensures
        r@.len() == 0,
        models(r@) == Seq::<JsonV>::empty(),
{
    let r: Vec<Json> = Vec::new();
    assert(models(r@) =~= Seq::<JsonV>::empty());
    r
}

pub fn one_json(j: Json) -> (r: Vec<Json>)
    ensures
        models(r@) == seq![j@],
{
    let mut r = no_json();
    push_json(&mut r, j);
    assert(models(r@) =~= seq![j@]);
    r
}

pub fn copy_list(v: &Vec<Json>) -> (r: Vec<Json>)
    ensures
        models(r@) == models(v@),
{
    let mut r = no_json();
    let mut i: usize = 0;
    assert(models(v@).take(0) =~= Seq::<JsonV>::empty());
    while i < v.len()
        invariant
            i <= v@.len(),
            models(r@) == models(v@).take(i as int),
        decreases v.len() - i,
    {
        push_json(&mut r, v[i].clone());
        i = i + 1;
        assert(models(v@).take(i as int) =~= models(v@).take(i - 1).push(v@[i - 1]@));
    }
    assert(models(v@).take(i as int) =~= models(v@));
    r
}

pub fn copy_opt_json(o: Option<&Json>) -> (r: Option<Json>)
    ensures
        owned_json(r) == opt_json(o),
{
    match o {
        Some(j) => Some(j.clone()),
        None => None,
    }
}

impl Json {
    pub fn obj() -> (r: Json)
        ensures
            r@ == JsonV::obj(),
    {
        Json::Object(JsonMap::new())
    }

    pub fn of_str(s: &str) -> (r: Json)
        ensures
            r@ == JsonV::Str(s@),
    {
        Json::Str(s.to_owned())
    }

    pub fn of_int(n: i64) -> (r: Json)
        ensures
            r@ == int_json(n as int),
    {
        Json::Number(Number::Neg(n))
    }

    pub fn of_uint(n: u64) -> (r: Json)
        ensures
            r@ == int_json(n as int),
    {
        Json::Number(Number::Pos(n))
    }

    pub fn array(v: Vec<Json>) -> (r: Json)
        ensures
            r@ == JsonV::Array(models(v@)),
    {
        let r = Json::Array(v);
        assert(r@->Array_0 =~= models(v@));
        r
    }

    pub fn of_strs(v: &Vec<String>) -> (r: Json)
        ensures
            r@ == JsonV::Array(crate::text::texts(v@).map_values(|s: Seq<char>| JsonV::Str(s))),
    {
        let mut out = no_json();
        let mut i: usize = 0;
        let ghost all = crate::text::texts(v@).map_values(|s: Seq<char>| JsonV::Str(s));
        assert(all.take(0) =~= Seq::<JsonV>::empty());
        while i < v.len()
            invariant
                i <= v@.len(),
                all == crate::text::texts(v@).map_values(|s: Seq<char>| JsonV::Str(s)),
                models(out@) == all.take(i as int),
            decreases v.len() - i,
        {
            push_json(&mut out, Json::of_str(v[i].as_str()));
            i = i + 1;
            assert(all.take(i as int) =~= all.take(i - 1).push(JsonV::Str(v@[i - 1]@)));
        }
        assert(all.take(i as int) =~= all);
        Json::array(out)
    }

    /// A text, or null where there is none.
    pub fn str_or_null(s: Option<&str>) -> (r: Json)
        ensures
            r@ == (match crate::text::str_opt(s) {
                Some(t) => JsonV::Str(t),
                None => JsonV::Null,
            }),
    {
        match s {
            Some(t) => Json::of_str(t),
            None => Json::Null,
        }
    }

    pub fn with(self, k: &str, v: Json) -> (r: Json)
        ensures
            r@ == self@.with(k@, v@),
    {
        match self {
            Json::Object(m) => Json::Object(m.insert(k, v)),
            other => other,
        }
    }

    pub fn with_some(self, k: &str, v: Option<Json>) -> (r: Json)
        ensures
            r@ == self@.with_some(k@, owned_json(v)),
    {
        match v {
            Some(v) => self.with(k, v),
            None => self,
        }
    }

    pub fn with_str(self, k: &str, v: &str) -> (r: Json)
        ensures
            r@ == self@.with(k@, JsonV::Str(v@)),
    {
        self.with(k, Json::of_str(v))
    }

    pub fn with_int(self, k: &str, v: i64) -> (r: Json)
        ensures
            r@ == self@.with(k@, int_json(v as int)),
    {
        self.with(k, Json::of_int(v))
    }

    pub fn get(&self, k: &str) -> (r: Option<&Json>)
        ensures
            opt_json(r) == self@.get(k@),
    {
        match self {
            Json::Object(m) => m.get(k),
            _ => None,
        }
    }

    pub fn get2(&self, a: &str, b: &str) -> (r: Option<&Json>)
        ensures
            opt_json(r) == self@.get2(a@, b@),
    {
        match self.get(a) {
            Some(j) => j.get(b),
            None => None,
        }
    }

    pub fn is_null(&self) -> (r: bool)
        ensures
            r == (self@ == JsonV::Null),
    {
        match self {
            Json::Null => true,
            _ => false,
        }
    }

    pub fn is_object(&self) -> (r: bool)
        ensures
            r == (self@ is Object),
    {
        match self {
            Json::Object(_) => true,
            _ => false,
        }
    }

    pub fn as_str(&self) -> (r: Option<&str>)
        ensures
            crate::text::str_opt(r) == self@.as_str(),
    {
        match self {
            Json::Str(s) => Some(s.as_str()),
            _ => None,
        }
    }

    pub fn as_bool(&self) -> (r: Option<bool>)
        ensures
            r == self@.as_bool(),
    {
        match self {
            Json::Bool(b) => Some(*b),
            _ => None,
        }
    }

    pub fn as_u64(&self) -> (r: Option<u64>)
        ensures
            r == self@.as_u64(),
    {
        match self {
            Json::Number(Number::Pos(n)) => Some(*n),
            Json::Number(Number::Neg(n)) => if *n >= 0 {
                Some(*n as u64)
            } else {
                None
            },
            _ => None,
        }
    }

    pub fn as_array(&self) -> (r: Option<&Vec<Json>>)
        ensures
            match r {
                Some(v) => self@.as_array() == Some(models(v@)),
                None => self@.as_array() is None,
            },
    {
        match self {
            Json::Array(v) => {
                assert(self@->Array_0 =~= models(v@));
                Some(v)
            },
            _ => None,
        }
    }

    pub fn get_str(&self, k: &str) -> (r: Option<&str>)
        ensures
            crate::text::str_opt(r) == self@.get_str(k@),
    {
        match self.get(k) {
            Some(j) => j.as_str(),
            None => None,
        }
    }

    pub fn str_or<'a>(&'a self, k: &str, default: &'a str) -> (r: &'a str)
        ensures
            r@ == self@.str_or(k@, default@),
    {
        match self.get_str(k) {
            Some(s) => s,
            None => default,
        }
    }

    pub fn get_nonempty(&self, k: &str) -> (r: Option<&str>)
        ensures
            crate::text::str_opt(r) == self@.get_nonempty(k@),
    {
        match self.get_str(k) {
            Some(s) => if s.is_empty() {
                None
            } else {
                Some(s)
            },
            None => None,
        }
    }

    pub fn items(&self, k: &str) -> (r: Items<'_>)
        ensures
            r@ == self@.items(k@),
    {
        match self.get(k) {
            Some(j) => Items::of(j.as_array()),
            None => Items::of(None),
        }
    }

    pub fn get_nonnull(&self, k: &str) -> (r: Option<&Json>)
        ensures
            opt_json(r) == self@.get_nonnull(k@),
    {
        match self.get(k) {
            Some(j) => if j.is_null() {
                None
            } else {
                Some(j)
            },
            None => None,
        }
    }

    pub fn get_object(&self, k: &str) -> (r: Option<&Json>)
        ensures
            opt_json(r) == self@.get_object(k@),
    {
        match self.get(k) {
            Some(j) => if j.is_object() {
                Some(j)
            } else {
                None
            },
            None => None,
        }
    }

    /// A copy of the member `k`; null where it is absent.
    pub fn or_null(&self, k: &str) -> (r: Json)
        ensures
            r@ == self@.or_null(k@),
    {
        match self.get(k) {
            Some(j) => j.clone(),
            None => Json::Null,
        }
    }
}

} // verus!
