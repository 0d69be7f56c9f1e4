//! JSON values. The text form is read and written by `serde_json`; everything that looks
//! inside a value works on the `Json` tree.

use crate::text;
use vstd::prelude::*;

verus! {

/// A JSON value.
#[derive(Debug)]
pub enum Json {
    Null,
    Bool(bool),
    /// An integer in `0..=u64::MAX`.
    UInt(u64),
    /// Any other number, as its text.
    Number(String),
    Str(String),
    Array(Vec<Json>),
    /// Members in the order of insertion; of two members with one name the later counts.
    Object(Vec<(String, Json)>),
}

/// What a `Json` value denotes.
pub enum JVal {
    Null,
    Bool(bool),
    UInt(u64),
    Number(Seq<char>),
    Str(Seq<char>),
    Array(Seq<JVal>),
    Object(Map<Seq<char>, JVal>),
}

/// The value that a tree denotes.
pub open spec fn json_view(j: Json) -> JVal
    decreases j,
{
    match j {
        Json::Null => JVal::Null,
        Json::Bool(b) => JVal::Bool(b),
        Json::UInt(n) => JVal::UInt(n),
        Json::Number(t) => JVal::Number(t@),
        Json::Str(t) => JVal::Str(t@),
        Json::Array(v) => JVal::Array(items_view(v@)),
        Json::Object(v) => JVal::Object(members_view(v@)),
    }
}

/// The values that a list of trees denotes.
pub open spec fn items_view(s: Seq<Json>) -> Seq<JVal>
    decreases s,
{
    if s.len() == 0 {
        Seq::empty()
    } else {
        items_view(s.drop_last()).push(json_view(s.last()))
    }
}

/// The mapping that a list of members denotes.
pub open spec fn members_view(s: Seq<(String, Json)>) -> Map<Seq<char>, JVal>
    decreases s,
{
    if s.len() == 0 {
        Map::empty()
    } else {
        members_view(s.drop_last()).insert(s.last().0@, json_view(s.last().1))
    }
}

impl View for Json {
    type V = JVal;

    open spec fn view(&self) -> JVal {
        json_view(*self)
    }
}

impl Clone for Json {
    fn clone(&self) -> (r: Self)
        ensures
            r@ == self@,
        decreases self,
    {
        match self {
            Json::Null => Json::Null,
            Json::Bool(b) => Json::Bool(*b),
            Json::UInt(n) => Json::UInt(*n),
            Json::Number(t) => Json::Number(t.clone()),
            Json::Str(t) => Json::Str(t.clone()),
            Json::Array(v) => {
                let mut out: Vec<Json> = Vec::new();
                let mut i: usize = 0;
                assert(v@.take(0) =~= Seq::<Json>::empty());
                while i < v.len()
                    invariant
                        i <= v@.len(),
                        *self == Json::Array(*v),
                        items_view(out@) == items_view(v@.take(i as int)),
                    decreases v@.len() - i,
                {
                    proof {
                        assert(decreases_to!(self => v@[i as int])) by {
                            assert(decreases_to!(*self => self->Array_0));
                            assert(decreases_to!(*v => v@));
                            assert(decreases_to!(v@ => v@[i as int]));
                        }
                    }
                    let x = v[i].clone();
                    proof {
                        assert(v@.take(i + 1).drop_last() =~= v@.take(i as int));
                        assert(out@.push(x).drop_last() =~= out@);
                    }
                    out.push(x);
                    i += 1;
                }
                assert(v@.take(v@.len() as int) =~= v@);
                Json::Array(out)
            },
            Json::Object(v) => {
                let mut out: Vec<(String, Json)> = Vec::new();
                let mut i: usize = 0;
                assert(v@.take(0) =~= Seq::<(String, Json)>::empty());
                while i < v.len()
                    invariant
                        i <= v@.len(),
                        *self == Json::Object(*v),
                        members_view(out@) == members_view(v@.take(i as int)),
                    decreases v@.len() - i,
                {
                    proof {
                        assert(decreases_to!(self => v@[i as int].1)) by {
                            assert(decreases_to!(*self => self->Object_0));
                            assert(decreases_to!(*v => v@));
                            assert(decreases_to!(v@ => v@[i as int]));
                            assert(decreases_to!(v@[i as int] => v@[i as int].1));
                        }
                    }
                    let x = (v[i].0.clone(), v[i].1.clone());
                    proof {
                        assert(v@.take(i + 1).drop_last() =~= v@.take(i as int));
                        assert(out@.push(x).drop_last() =~= out@);
                    }
                    out.push(x);
                    i += 1;
                }
                assert(v@.take(v@.len() as int) =~= v@);
                Json::Object(out)
            },
        }
    }
}

// ---- looking inside a value -------------------------------------------------------------

/// The member `key` of an object.
pub open spec fn member(v: JVal, key: Seq<char>) -> Option<JVal> {
    match v {
        JVal::Object(m) => if m.contains_key(key) {
            Some(m[key])
        } else {
            None
        },
        _ => None,
    }
}

/// The member `key` of an object that may be absent.
pub open spec fn opt_member(o: Option<JVal>, key: Seq<char>) -> Option<JVal> {
    match o {
        Some(v) => member(v, key),
        None => None,
    }
}

/// The text of a string.
pub open spec fn str_value(v: JVal) -> Option<Seq<char>> {
    match v {
        JVal::Str(t) => Some(t),
        _ => None,
    }
}

/// The text of a string that may be absent.
pub open spec fn opt_str_value(o: Option<JVal>) -> Option<Seq<char>> {
    match o {
        Some(v) => str_value(v),
        None => None,
    }
}

/// The text of a string, or the empty text.
pub open spec fn str_or_empty(o: Option<JVal>) -> Seq<char> {
    match opt_str_value(o) {
        Some(t) => t,
        None => Seq::empty(),
    }
}

/// The value of an unsigned integer, or zero.
pub open spec fn uint_or_zero(o: Option<JVal>) -> u64 {
    match o {
        Some(JVal::UInt(n)) => n,
        _ => 0,
    }
}

/// The value behind an optional reference.
pub open spec fn opt_json(o: Option<&Json>) -> Option<JVal> {
    match o {
        Some(j) => Some(j@),
        None => None,
    }
}

/// A list of views has the length and the entries of its list.
pub proof fn lemma_items_view(s: Seq<Json>)
    ensures
        items_view(s).len() == s.len(),
        forall|i: int| 0 <= i < s.len() ==> #[trigger] items_view(s)[i] == json_view(s[i]),
    decreases s.len(),
{
    if s.len() > 0 {
        lemma_items_view(s.drop_last());
        assert forall|i: int| 0 <= i < s.len() implies #[trigger] items_view(s)[i] == json_view(
            s[i],
        ) by {
            if i < s.len() - 1 {
                assert(items_view(s)[i] == items_view(s.drop_last())[i]);
            }
        }
    }
}

impl Json {
    /// The member `key`, if this is an object that has it: `Value::get`.
    pub fn get(&self, key: &str) -> (r: Option<&Json>)
        ensures
            opt_json(r) == member(self@, key@),
    {
        match self {
            Json::Object(v) => {
                let mut i: usize = v.len();
                assert(v@.take(i as int) =~= v@);
                while i > 0
                    invariant
                        i <= v@.len(),
                        *self == Json::Object(*v),
                        member(self@, key@) == member(
                            JVal::Object(members_view(v@.take(i as int))),
                            key@,
                        ),
                    decreases i,
                {
                    proof {
                        assert(v@.take(i as int).drop_last() =~= v@.take(i - 1));
                        assert(v@.take(i as int).last() == v@[i - 1]);
                    }
                    if text::str_eq(v[i - 1].0.as_str(), key) {
                        return Some(&v[i - 1].1);
                    }
                    i -= 1;
                }
                assert(v@.take(0) =~= Seq::<(String, Json)>::empty());
                None
            },
            _ => None,
        }
    }

    /// `Value::as_str`.
    pub fn as_str(&self) -> (r: Option<&str>)
        ensures
            text::opt_slice(r) == str_value(self@),
    {
        match self {
            Json::Str(t) => Some(t.as_str()),
            _ => None,
        }
    }

    /// `Value::as_u64`.
    pub fn as_u64(&self) -> (r: Option<u64>)
        ensures
            r == (match self@ {
                JVal::UInt(n) => Some(n),
                _ => None::<u64>,
            }),
    {
        match self {
            Json::UInt(n) => Some(*n),
            _ => None,
        }
    }

    /// `Value::is_object`.
    pub fn is_object(&self) -> (r: bool)
        ensures
            r == (self@ is Object),
    {
        match self {
            Json::Object(_) => true,
            _ => false,
        }
    }

    /// `Value::is_null`.
    pub fn is_null(&self) -> (r: bool)
        ensures
            r == (self@ is Null),
    {
        match self {
            Json::Null => true,
            _ => false,
        }
    }

    /// The text of the string member `key`, or the empty string.
    pub fn text_member(&self, key: &str) -> (r: String)
        ensures
            r@ == str_or_empty(member(self@, key@)),
    {
        match self.opt_text_member(key) {
            Some(t) => t,
            None => String::new(),
        }
    }

    /// The text of the string member `key`, if there is one.
    pub fn opt_text_member(&self, key: &str) -> (r: Option<String>)
        ensures
            text::opt_str(r) == opt_str_value(member(self@, key@)),
    {
        match self.get(key) {
            Some(j) => match j.as_str() {
                Some(t) => Some(t.to_owned()),
                None => None,
            },
            None => None,
        }
    }

    /// The value of the unsigned member `key`, or zero.
    pub fn uint_member(&self, key: &str) -> (r: u64)
        ensures
            r == uint_or_zero(member(self@, key@)),
    {
        match self.get(key) {
            Some(j) => match j.as_u64() {
                Some(n) => n,
                None => 0,
            },
            None => 0,
        }
    }

    // ---- building a value -----------------------------------------------------------------

    /// A string value.
    pub fn of_str(t: &str) -> (r: Json)
        ensures
            r@ == JVal::Str(t@),
    {
        Json::Str(t.to_owned())
    }

    /// The object without members.
    pub fn object() -> (r: Json)
        ensures
            r@ == JVal::Object(Map::empty()),
    {
        let v: Vec<(String, Json)> = Vec::new();
        assert(members_view(v@) =~= Map::empty());
        Json::Object(v)
    }

    /// The array of the given values.
    pub fn array(v: Vec<Json>) -> (r: Json)
        ensures
            r@ == JVal::Array(items_view(v@)),
    {
        Json::Array(v)
    }

    /// The object with the member `key` set to `value`.
    pub fn with(self, key: &str, value: Json) -> (r: Json)
        requires
            self@ is Object,
        ensures
            r@ == JVal::Object(self@->Object_0.insert(key@, value@)),
    {
        match self {
            Json::Object(members) => {
                let mut v = members;
                let x = (key.to_owned(), value);
                proof {
                    assert(v@.push(x).drop_last() =~= v@);
                }
                v.push(x);
                Json::Object(v)
            },
            other => other,
        }
    }
}

/// Appending to a list of trees appends to what it denotes.
pub proof fn lemma_items_push(s: Seq<Json>, j: Json)
    ensures
        items_view(s.push(j)) == items_view(s).push(json_view(j)),
{
    assert(s.push(j).drop_last() =~= s);
}

// ---- text form ----------------------------------------------------------------------------

/// What `serde_json::from_str::<Value>` makes of a text: the value, or the error's message.
pub uninterp spec fn parsed(text: Seq<char>) -> Result<JVal, Seq<char>>;

/// What `serde_json::to_string` makes of a value.
pub uninterp spec fn rendered(v: JVal) -> Seq<char>;

/// What `serde_json::to_string_pretty` makes of a value.
pub uninterp spec fn rendered_pretty(v: JVal) -> Seq<char>;

/// Whether a text is that of an integer from -2^63 to -1.
pub open spec fn negative_integer(t: Seq<char>) -> bool {
    exists|n: nat| 1 <= n <= 0x8000_0000_0000_0000 && t == "-"@ + #[trigger] text::decimal(n)
}

/// Whether the value is free of numbers other than 64-bit integers and nests at most `depth`
/// deep.
pub open spec fn plain(v: JVal, depth: nat) -> bool
    decreases depth,
{
    match v {
        JVal::Number(t) => negative_integer(t),
        JVal::Array(s) => depth > 0 && forall|i: int|
            0 <= i < s.len() ==> plain(#[trigger] s[i], (depth - 1) as nat),
        JVal::Object(m) => depth > 0 && forall|k: Seq<char>| #[trigger]
            m.contains_key(k) ==> plain(m[k], (depth - 1) as nat),
        _ => true,
    }
}

/// The view of a parse result.
pub open spec fn parse_view(r: Result<Json, String>) -> Result<JVal, Seq<char>> {
    match r {
        Ok(j) => Ok(j@),
        Err(e) => Err(e@),
    }
}

/// `serde_json::Value`, carried between the reader, the writer and the two conversions.
#[verifier::external_type_specification]
#[verifier::external_body]
pub struct ExValue(serde_json::Value);

/// Converts `serde_json::Value`, variant by variant. Numbers that `Number::as_u64` gives
/// become `UInt`, the others keep the text that `Number` displays. Nothing is claimed.
#[verifier::external_body]
fn json_of(v: serde_json::Value) -> Json {
    match v {
        serde_json::Value::Null => Json::Null,
        serde_json::Value::Bool(b) => Json::Bool(b),
        serde_json::Value::Number(n) => match n.as_u64() {
            Some(u) => Json::UInt(u),
            None => Json::Number(n.to_string()),
        },
        serde_json::Value::String(t) => Json::Str(t),
        serde_json::Value::Array(a) => Json::Array(a.into_iter().map(json_of).collect()),
        serde_json::Value::Object(m) => Json::Object(m.into_iter().map(|(k, x)| (k, json_of(x))).collect()),
    }
}

/// Converts to `serde_json::Value`, variant by variant. A `Number` whose text is not JSON
/// becomes null. Nothing is claimed.
#[verifier::external_body]
fn value_of(j: &Json) -> serde_json::Value {
    match j {
        Json::Null => serde_json::Value::Null,
        Json::Bool(b) => serde_json::Value::Bool(*b),
        Json::UInt(n) => serde_json::Value::from(*n),
        Json::Number(t) => serde_json::from_str(t).unwrap_or(serde_json::Value::Null),
        Json::Str(t) => serde_json::Value::String(t.clone()),
        Json::Array(a) => serde_json::Value::Array(a.iter().map(value_of).collect()),
        Json::Object(m) => serde_json::Value::Object(m.iter().map(|(k, x)| (k.clone(), value_of(x))).collect()),
    }
}

/// Reads a JSON text with `serde_json::from_str`. The result, value or error message, is a
/// function of the text.
#[verifier::external_body]
pub(crate) fn parse(text: &str) -> (r: Result<Json, String>)
    ensures
        parse_view(r) == parsed(text@),
{
    match serde_json::from_str::<serde_json::Value>(text) {
        Ok(v) => Ok(json_of(v)),
        Err(e) => Err(e.to_string()),
    }
}

/// Whether a text holds no line feed.
pub open spec fn single_line(t: Seq<char>) -> bool {
    forall|i: int| 0 <= i < t.len() ==> t[i] != '\n'
}

/// Writes a value with `serde_json::to_string`. The text is a function of the value and a
/// single line: no layout is added, and control characters in strings are escaped. Reading it
/// gives the value back: `serde_json` writes strings, 64-bit integers and literals exactly,
/// and reads nestings of up to 127. Nothing is said of other numbers, which go through
/// floating point.
#[verifier::external_body]
pub(crate) fn render(j: &Json) -> (r: String)
    ensures
        r@ == rendered(j@),
        single_line(r@),
        plain(j@, 127) ==> parsed(r@) is Ok && parsed(r@)->Ok_0 == j@,
{
    serde_json::to_string(&value_of(j)).unwrap_or_default()
}

/// Writes a value with `serde_json::to_string_pretty`. The text is a function of the value,
/// and reading it gives the value back, as for the compact form.
#[verifier::external_body]
pub(crate) fn render_pretty(j: &Json) -> (r: String)
    ensures
        r@ == rendered_pretty(j@),
        plain(j@, 127) ==> parsed(r@) is Ok && parsed(r@)->Ok_0 == j@,
{
    serde_json::to_string_pretty(&value_of(j)).unwrap_or_default()
}

/// The value that a text denotes, or null where it is not JSON.
pub open spec fn parsed_or_null(text: Seq<char>) -> JVal {
    match parsed(text) {
        Ok(v) => v,
        Err(_) => JVal::Null,
    }
}

/// Reads a text, with null for what is not JSON.
pub fn parse_or_null(text: &str) -> (r: Json)
    ensures
        r@ == parsed_or_null(text@),
{
    match parse(text) {
        Ok(j) => j,
        Err(_) => Json::Null,
    }
}

// ---- laws ---------------------------------------------------------------------------------------

/// A member that was set is read back, and the others stay; what is no object has none.
pub proof fn members_read_back(m: Map<Seq<char>, JVal>, key: Seq<char>, other: Seq<char>, v: JVal)
    ensures
        member(JVal::Object(m.insert(key, v)), key) == Some(v),
        other != key ==> member(JVal::Object(m.insert(key, v)), other) == member(
            JVal::Object(m),
            other,
        ),
        member(JVal::Object(Map::empty()), key) is None,
        opt_member(Some(JVal::Object(m.insert(key, v))), key) == Some(v),
        opt_member(None, key) is None,
{
}

/// Values are read as what they are: a string gives its text, a number its value, and anything
/// else nothing.
pub proof fn values_read_as_what_they_are(v: JVal, t: Seq<char>, n: u64, key: Seq<char>)
    ensures
        str_value(JVal::Str(t)) == Some(t),
        opt_str_value(Some(JVal::Str(t))) == Some(t),
        str_or_empty(Some(JVal::Str(t))) == t,
        uint_or_zero(Some(JVal::UInt(n))) == n,
        !(v is Str) ==> str_value(v) is None && opt_str_value(Some(v)) is None && str_or_empty(
            Some(v),
        ).len() == 0,
        opt_str_value(None) is None && str_or_empty(None).len() == 0,
        !(v is UInt) ==> uint_or_zero(Some(v)) == 0,
        uint_or_zero(None) == 0,
        !(v is Object) ==> member(v, key) is None,
{
}

/// A tree denotes the value it spells out: each kind its own, arrays item by item, objects
/// member by member, where of two members with one name the later counts.
pub proof fn trees_denote_their_values(
    t: String,
    n: u64,
    b: bool,
    items: Vec<Json>,
    members: Seq<(String, Json)>,
    k: String,
    x: Json,
    i: int,
)
    ensures
        json_view(Json::Null) is Null,
        json_view(Json::Bool(b)) == JVal::Bool(b),
        json_view(Json::UInt(n)) == JVal::UInt(n),
        json_view(Json::Number(t)) == JVal::Number(t@),
        json_view(Json::Str(t)) == JVal::Str(t@),
        json_view(Json::Array(items)) matches JVal::Array(s) && s.len() == items@.len() && (0 <= i
            < items@.len() ==> s[i] == json_view(items@[i])),
        members_view(Seq::<(String, Json)>::empty()) == Map::<Seq<char>, JVal>::empty(),
        members_view(members.push((k, x))) == members_view(members).insert(k@, json_view(x)),
{
    lemma_items_view(items@);
    assert(members.push((k, x)).drop_last() =~= members);
}

/// A text that is JSON is read as its value, and any other as null.
pub proof fn unreadable_texts_are_null(t: Seq<char>)
    ensures
        parsed(t) matches Ok(v) ==> parsed_or_null(t) == v,
        parsed(t) is Err ==> parsed_or_null(t) is Null,
{
}

/// Objects of texts, and objects of such objects, are read back as they are written.
pub proof fn settings_are_plain(m: Map<Seq<char>, JVal>, depth: nat)
    requires
        depth >= 2,
        forall|k: Seq<char>| #[trigger]
            m.contains_key(k) ==> (m[k] is Str || (m[k] matches JVal::Object(inner) && (forall|
                j: Seq<char>,
            | #[trigger]
                inner.contains_key(j) ==> inner[j] is Str))),
    ensures
        plain(JVal::Object(m), depth),
{
    assert forall|k: Seq<char>| #[trigger] m.contains_key(k) implies plain(
        m[k],
        (depth - 1) as nat,
    ) by {
        if let JVal::Object(inner) = m[k] {
            assert forall|j: Seq<char>| #[trigger] inner.contains_key(j) implies plain(
                inner[j],
                (depth - 2) as nat,
            ) by {
                assert(inner[j] is Str);
            }
        }
    }
}

} // verus!
