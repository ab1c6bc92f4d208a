//! JSON values as the protocol reads and writes them.
//!
//! Parsing and rendering are done by `serde_json`. Everything that looks
//! inside a value works on [`Json`], a plain tree, and speaks of [`JsonModel`],
//! its mathematical counterpart.

use vstd::prelude::*;

verus! {

/// A parsed JSON value.
#[derive(Debug, PartialEq)]
pub enum Json {
    Null,
    Bool(bool),
    /// A number, in its decimal notation.
    Number(String),
    Text(String),
    Array(Vec<Json>),
    /// The members of an object. Where a key occurs twice, the later member counts.
    Object(Vec<(String, Json)>),
}

/// What a [`Json`] value stands for.
pub enum JsonModel {
    Null,
    Bool(bool),
    Number(Seq<char>),
    Text(Seq<char>),
    Array(Seq<JsonModel>),
    Object(Map<Seq<char>, JsonModel>),
}

impl Json {
    /// The value this tree stands for.
    pub open spec fn model(self) -> JsonModel
        decreases self,
    {
        match self {
            Json::Null => JsonModel::Null,
            Json::Bool(b) => JsonModel::Bool(b),
            Json::Number(n) => JsonModel::Number(n@),
            Json::Text(t) => JsonModel::Text(t@),
            Json::Array(items) => JsonModel::Array(Self::models(items@)),
            Json::Object(fields) => JsonModel::Object(Self::members(fields@)),
        }
    }

    /// The values that a sequence of trees stands for.
    pub open spec fn models(items: Seq<Json>) -> Seq<JsonModel>
        decreases items,
    {
        if items.len() == 0 {
            Seq::empty()
        } else {
            Self::models(items.drop_last()).push(items.last().model())
        }
    }

    /// The finite map that a list of members stands for.
    pub open spec fn members(fields: Seq<(String, Json)>) -> Map<Seq<char>, JsonModel>
        decreases fields,
    {
        if fields.len() == 0 {
            Map::empty()
        } else {
            Self::members(fields.drop_last()).insert(fields.last().0@, fields.last().1.model())
        }
    }
}

impl Clone for Json {
    fn clone(&self) -> (r: Self)
        ensures
            r.model() == self.model(),
        decreases self,
    {
        match self {
            Json::Null => Json::Null,
            Json::Bool(b) => Json::Bool(*b),
            Json::Number(n) => Json::Number(n.clone()),
            Json::Text(t) => Json::Text(t.clone()),
            Json::Array(items) => {
                let mut out: Vec<Json> = Vec::new();
                let mut i: usize = 0;
                while i < items.len()
                    invariant
                        *self == Json::Array(*items),
                        i <= items@.len(),
                        Self::models(out@) == Self::models(items@.take(i as int)),
                    decreases items@.len() - i,
                {
                    let ghost before = out@;
                    assert(decreases_to!(*self => (*self)->Array_0));
                    assert(decreases_to!(*items => items@));
                    assert(decreases_to!(items@ => items@[i as int]));
                    let item = items[i].clone();
                    out.push(item);
                    assert(out@.drop_last() =~= before);
                    assert(items@.take(i + 1).drop_last() =~= items@.take(i as int));
                    i = i + 1;
                }
                assert(items@.take(i as int) =~= items@);
                Json::Array(out)
            },
            Json::Object(fields) => {
                let mut out: Vec<(String, Json)> = Vec::new();
                let mut i: usize = 0;
                while i < fields.len()
                    invariant
                        *self == Json::Object(*fields),
                        i <= fields@.len(),
                        Self::members(out@) == Self::members(fields@.take(i as int)),
                    decreases fields@.len() - i,
                {
                    let ghost before = out@;
                    assert(decreases_to!(*self => (*self)->Object_0));
                    assert(decreases_to!(*fields => fields@));
                    assert(decreases_to!(fields@ => fields@[i as int]));
                    assert(decreases_to!(fields@[i as int] => fields@[i as int].1));
                    let field = &fields[i];
                    out.push((field.0.clone(), field.1.clone()));
                    assert(out@.drop_last() =~= before);
                    assert(fields@.take(i + 1).drop_last() =~= fields@.take(i as int));
                    i = i + 1;
                }
                assert(fields@.take(i as int) =~= fields@);
                Json::Object(out)
            },
        }
    }
}

/// `serde_json::Value`, a parsed JSON value of the `serde_json` crate.
#[verifier::external_type_specification]
#[verifier::external_body]
pub struct ExValue(serde_json::Value);

/// The JSON value that a `serde_json::Value` holds.
pub uninterp spec fn value_contents(value: serde_json::Value) -> JsonModel;

/// What `serde_json::from_str` makes of a text: the JSON value that the text
/// denotes, or `None` where the text is refused. That is where it is not one
/// JSON document, but also where arrays and objects are nested 128 deep or
/// more, or a number is out of range.
pub uninterp spec fn json_parsed(text: Seq<char>) -> Option<JsonModel>;

/// The outermost layer of a `serde_json::Value`.
enum Layer {
    Null,
    Bool(bool),
    Number(String),
    Text(String),
    Array(Vec<serde_json::Value>),
    Object(Vec<(String, serde_json::Value)>),
}

impl Layer {
    /// The value that a layer belongs to.
    spec fn contents(self) -> JsonModel {
        match self {
            Layer::Null => JsonModel::Null,
            Layer::Bool(b) => JsonModel::Bool(b),
            Layer::Number(n) => JsonModel::Number(n@),
            Layer::Text(t) => JsonModel::Text(t@),
            Layer::Array(items) => JsonModel::Array(value_list(items@)),
            Layer::Object(fields) => JsonModel::Object(value_members(fields@)),
        }
    }
}

/// The values that a sequence of `serde_json` values holds.
spec fn value_list(items: Seq<serde_json::Value>) -> Seq<JsonModel> {
    items.map_values(|v: serde_json::Value| value_contents(v))
}

/// The map that a list of `serde_json` members holds.
spec fn value_members(fields: Seq<(String, serde_json::Value)>) -> Map<
    Seq<char>,
    JsonModel,
>
    decreases fields.len(),
{
    if fields.len() == 0 {
        Map::empty()
    } else {
        value_members(fields.drop_last()).insert(
            fields.last().0@,
            value_contents(fields.last().1),
        )
    }
}

/// Whether no key occurs twice.
spec fn distinct_keys(fields: Seq<(String, serde_json::Value)>) -> bool {
    forall|i: int, j: int|
        0 <= i < j < fields.len() ==> (#[trigger] fields[i]).0@ != (#[trigger] fields[j]).0@
}

/// `serde_json::from_str` into a `serde_json::Value`. The outcome depends on
/// the text alone: the value that it denotes, or no value where `serde_json`
/// reports an error, as it does of some documents, too: see [`json_parsed`].
#[verifier::external_body]
fn value_from_text(text: &str) -> (r: Option<serde_json::Value>)
    ensures
        match r {
            Some(v) => json_parsed(text@) == Some(value_contents(v)),
            None => json_parsed(text@) is None,
        },
{
    serde_json::from_str::<serde_json::Value>(text).ok()
}

/// Takes a `serde_json::Value` apart by its variant. The layer holds what the
/// value held: a scalar, the elements of an array in their order, or the
/// members of an object, each key once. A number is given by its `Display`.
#[verifier::external_body]
fn layer_of(value: serde_json::Value) -> (r: Layer)
    ensures
        r.contents() == value_contents(value),
        r matches Layer::Object(fields) ==> distinct_keys(fields@),
{
    match value {
        serde_json::Value::Null => Layer::Null,
        serde_json::Value::Bool(b) => Layer::Bool(b),
        serde_json::Value::Number(n) => Layer::Number(n.to_string()),
        serde_json::Value::String(s) => Layer::Text(s),
        serde_json::Value::Array(items) => Layer::Array(items),
        serde_json::Value::Object(fields) => Layer::Object(fields.into_iter().collect()),
    }
}

/// With distinct keys every member is found under its own key.
proof fn lemma_member_of_distinct(fields: Seq<(String, serde_json::Value)>, i: int)
    requires
        distinct_keys(fields),
        0 <= i < fields.len(),
    ensures
        value_members(fields).contains_key(fields[i].0@),
        value_members(fields)[fields[i].0@] == value_contents(fields[i].1),
    decreases fields.len(),
{
    if i < fields.len() - 1 {
        let init = fields.drop_last();
        assert(init[i] == fields[i]);
        assert(distinct_keys(init));
        lemma_member_of_distinct(init, i);
        assert(fields[i].0@ != fields.last().0@);
    }
}

proof fn lemma_members_finite(fields: Seq<(String, serde_json::Value)>)
    ensures
        value_members(fields).dom().finite(),
    decreases fields.len(),
{
    if fields.len() > 0 {
        lemma_members_finite(fields.drop_last());
    }
}

/// Rebuilds a `serde_json::Value` as a plain tree.
fn json_of_value(value: serde_json::Value) -> (r: Json)
    ensures
        r.model() == value_contents(value),
    decreases value_contents(value),
{
    let layer = layer_of(value);
    match layer {
        Layer::Null => Json::Null,
        Layer::Bool(b) => Json::Bool(b),
        Layer::Number(n) => Json::Number(n),
        Layer::Text(t) => Json::Text(t),
        Layer::Array(items) => {
            let ghost all = items@;
            let mut out: Vec<Json> = Vec::new();
            for item in it: items
                invariant
                    it.seq() == all,
                    value_contents(value) == JsonModel::Array(value_list(all)),
                    Json::models(out@) == value_list(all.take(it.index() as int)),
            {
                let ghost n = it.index();
                let ghost before = out@;
                assert(item == all[n]);
                assert(decreases_to!(value_contents(value) => value_contents(value)->Array_0));
                assert(value_list(all)[n] == value_contents(item));
                out.push(json_of_value(item));
                assert(out@.drop_last() =~= before);
                assert(value_list(all.take(n + 1)) =~= value_list(all.take(n)).push(
                    value_contents(item),
                ));
            }
            assert(all.take(all.len() as int) =~= all);
            Json::Array(out)
        },
        Layer::Object(fields) => {
            let ghost all = fields@;
            let mut out: Vec<(String, Json)> = Vec::new();
            for field in it: fields
                invariant
                    it.seq() == all,
                    distinct_keys(all),
                    value_contents(value) == JsonModel::Object(value_members(all)),
                    Json::members(out@) == value_members(all.take(it.index() as int)),
            {
                let ghost n = it.index();
                let ghost before = out@;
                let (key, inner) = field;
                proof {
                    lemma_member_of_distinct(all, n);
                    lemma_members_finite(all);
                }
                assert(value_members(all)[key@] == value_contents(inner));
                assert(decreases_to!(value_contents(value) => value_contents(value)->Object_0));
                assert(decreases_to!(value_members(all) => value_members(all)[key@]));
                out.push((key, json_of_value(inner)));
                assert(out@.drop_last() =~= before);
                assert(all.take(n + 1).drop_last() =~= all.take(n));
            }
            assert(all.take(all.len() as int) =~= all);
            Json::Object(out)
        },
    }
}

/// Parses a text as one JSON document.
pub fn parse_json(text: &str) -> (r: Option<Json>)
    ensures
        match r {
            Some(v) => json_parsed(text@) == Some(v.model()),
            None => json_parsed(text@) is None,
        },
{
    match value_from_text(text) {
        Some(value) => Some(json_of_value(value)),
        None => None,
    }
}

// ---------------------------------------------------------------------------
// Reading
// ---------------------------------------------------------------------------

/// The member of an object under a key; no other value has members.
pub open spec fn member_of(value: JsonModel, key: Seq<char>) -> Option<JsonModel> {
    match value {
        JsonModel::Object(members) => if members.contains_key(key) {
            Some(members[key])
        } else {
            None
        },
        _ => None,
    }
}

/// The value that a borrowed tree, where there is one, stands for.
pub open spec fn model_of(value: Option<&Json>) -> Option<JsonModel> {
    match value {
        Some(v) => Some(v.model()),
        None => None,
    }
}

/// Whether two texts are the same.
pub(crate) fn same_text(a: &str, b: &str) -> (r: bool)
    ensures
        r == (a@ == b@),
{
    a.to_string() == b.to_string()
}

impl Json {
    /// The member of an object under `key`.
    pub fn member(&self, key: &str) -> (r: Option<&Json>)
        ensures
            model_of(r) == member_of(self.model(), key@),
    {
        match self {
            Json::Object(fields) => {
                let mut i: usize = fields.len();
                assert(fields@.take(i as int) =~= fields@);
                while i > 0
                    invariant
                        i <= fields@.len(),
                        self.model() == JsonModel::Object(Json::members(fields@)),
                        member_of(self.model(), key@) == member_of(
                            JsonModel::Object(Json::members(fields@.take(i as int))),
                            key@,
                        ),
                    decreases i,
                {
                    let ghost part = fields@.take(i as int);
                    assert(part.drop_last() =~= fields@.take(i - 1));
                    assert(part.last() == fields@[i - 1]);
                    i = i - 1;
                    if same_text(fields[i].0.as_str(), key) {
                        return Some(&fields[i].1);
                    }
                }
                None
            },
            _ => None,
        }
    }

    /// The text of a string value.
    pub fn as_text(&self) -> (r: Option<&String>)
        ensures
            match r {
                Some(t) => self.model() == JsonModel::Text(t@),
                None => !(self.model() is Text),
            },
    {
        match self {
            Json::Text(t) => Some(t),
            _ => None,
        }
    }

    /// The value of a boolean.
    pub fn as_bool(&self) -> (r: Option<bool>)
        ensures
            match r {
                Some(b) => self.model() == JsonModel::Bool(b),
                None => !(self.model() is Bool),
            },
    {
        match self {
            Json::Bool(b) => Some(*b),
            _ => None,
        }
    }
}

// ---------------------------------------------------------------------------
// Writing
// ---------------------------------------------------------------------------

/// A lower-case hexadecimal digit.
pub open spec fn hex_digit(d: int) -> char {
    if d < 10 {
        ('0' as u32 + d) as char
    } else {
        ('a' as u32 + d - 10) as char
    }
}

/// How a character is written inside a JSON string.
pub open spec fn escaped_char(c: char) -> Seq<char> {
    let u = c as u32;
    if c == '"' {
        seq!['\\', '"']
    } else if c == '\\' {
        seq!['\\', '\\']
    } else if u == 0x08 {
        seq!['\\', 'b']
    } else if u == 0x09 {
        seq!['\\', 't']
    } else if u == 0x0a {
        seq!['\\', 'n']
    } else if u == 0x0c {
        seq!['\\', 'f']
    } else if u == 0x0d {
        seq!['\\', 'r']
    } else if u < 0x20 {
        seq!['\\', 'u', '0', '0', hex_digit(u as int / 16), hex_digit(u as int % 16)]
    } else {
        seq![c]
    }
}

/// How a text is written inside a JSON string.
pub open spec fn escaped(t: Seq<char>) -> Seq<char>
    decreases t.len(),
{
    if t.len() == 0 {
        Seq::empty()
    } else {
        escaped(t.drop_last()) + escaped_char(t.last())
    }
}

/// A text as a JSON string.
pub open spec fn quoted(t: Seq<char>) -> Seq<char> {
    seq!['"'] + escaped(t) + seq!['"']
}

/// A boolean as JSON.
pub open spec fn bool_text(b: bool) -> Seq<char> {
    if b {
        "true"@
    } else {
        "false"@
    }
}

/// The members of an object as JSON, in order: first those that are strings,
/// then those that are booleans.
pub open spec fn member_texts(
    texts: Seq<(Seq<char>, Seq<char>)>,
    flags: Seq<(Seq<char>, bool)>,
) -> Seq<Seq<char>> {
    texts.map_values(|m: (Seq<char>, Seq<char>)| quoted(m.0) + seq![':'] + quoted(m.1))
        + flags.map_values(|m: (Seq<char>, bool)| quoted(m.0) + seq![':'] + bool_text(m.1))
}

/// Texts with commas between them.
pub open spec fn comma_separated(items: Seq<Seq<char>>) -> Seq<char>
    decreases items.len(),
{
    if items.len() == 0 {
        Seq::empty()
    } else if items.len() == 1 {
        items[0]
    } else {
        comma_separated(items.drop_last()) + seq![','] + items.last()
    }
}

/// An object of strings and booleans as compact JSON.
pub open spec fn object_text(
    texts: Seq<(Seq<char>, Seq<char>)>,
    flags: Seq<(Seq<char>, bool)>,
) -> Seq<char> {
    seq!['{'] + comma_separated(member_texts(texts, flags)) + seq!['}']
}

/// The members of an object of strings and booleans.
pub open spec fn object_members(
    texts: Seq<(Seq<char>, Seq<char>)>,
    flags: Seq<(Seq<char>, bool)>,
) -> Map<Seq<char>, JsonModel>
    decreases texts.len() + flags.len(),
{
    if flags.len() > 0 {
        object_members(texts, flags.drop_last()).insert(
            flags.last().0,
            JsonModel::Bool(flags.last().1),
        )
    } else if texts.len() > 0 {
        object_members(texts.drop_last(), flags).insert(
            texts.last().0,
            JsonModel::Text(texts.last().1),
        )
    } else {
        Map::empty()
    }
}

/// What a list of members that are strings says.
pub open spec fn text_members(texts: Seq<(String, String)>) -> Seq<(Seq<char>, Seq<char>)> {
    texts.map_values(|m: (String, String)| (m.0@, m.1@))
}

/// What a list of members that are booleans says.
pub open spec fn flag_members(flags: Seq<(String, bool)>) -> Seq<(Seq<char>, bool)> {
    flags.map_values(|m: (String, bool)| (m.0@, m.1))
}

/// `serde::Serializer::collect_map` on a `serde_json::Serializer`: writes an
/// object, member by member in the given order, as compact JSON.
/// `serde_json::from_str` reads the same members back from the text.
#[verifier::external_body]
pub(crate) fn write_object(texts: Vec<(String, String)>, flags: Vec<(String, bool)>) -> (r: String)
    ensures
        r@ == object_text(text_members(texts@), flag_members(flags@)),
        json_parsed(r@) == Some(
            JsonModel::Object(object_members(text_members(texts@), flag_members(flags@))),
        ),
{
    let texts = texts.into_iter().map(|(k, v)| (k, serde_json::Value::from(v)));
    let flags = flags.into_iter().map(|(k, v)| (k, serde_json::Value::from(v)));
    let mut out: Vec<u8> = Vec::new();
    let mut serializer = serde_json::Serializer::new(&mut out);
    serde::Serializer::collect_map(&mut serializer, texts.chain(flags)).unwrap();
    String::from_utf8(out).unwrap()
}

/// Whether a text holds no line feed.
pub open spec fn single_line(t: Seq<char>) -> bool {
    !t.contains('\n')
}

proof fn lemma_single_line_add(a: Seq<char>, b: Seq<char>)
    requires
        single_line(a),
        single_line(b),
    ensures
        single_line(a + b),
{
    assert forall|i: int| 0 <= i < (a + b).len() implies (a + b)[i] != '\n' by {
        if i < a.len() {
            assert(a.contains(a[i]));
        } else {
            assert(b.contains(b[i - a.len()]));
        }
    }
}

proof fn lemma_quoted_is_single_line(t: Seq<char>)
    ensures
        single_line(quoted(t)),
{
    lemma_escaped_is_single_line(t);
    lemma_single_line_add(seq!['"'], escaped(t));
    lemma_single_line_add(seq!['"'] + escaped(t), seq!['"']);
}

proof fn lemma_escaped_is_single_line(t: Seq<char>)
    ensures
        single_line(escaped(t)),
    decreases t.len(),
{
    if t.len() > 0 {
        lemma_escaped_is_single_line(t.drop_last());
        assert(single_line(escaped_char(t.last())));
        lemma_single_line_add(escaped(t.drop_last()), escaped_char(t.last()));
    }
}

proof fn lemma_comma_separated_is_single_line(items: Seq<Seq<char>>)
    requires
        forall|i: int| 0 <= i < items.len() ==> single_line(#[trigger] items[i]),
    ensures
        single_line(comma_separated(items)),
    decreases items.len(),
{
    if items.len() > 1 {
        let init = items.drop_last();
        assert forall|i: int| 0 <= i < init.len() implies single_line(#[trigger] init[i]) by {
            assert(init[i] == items[i]);
        }
        lemma_comma_separated_is_single_line(init);
        lemma_single_line_add(comma_separated(init), seq![',']);
        lemma_single_line_add(comma_separated(init) + seq![','], items.last());
    }
}

/// An object is written on one line, whatever its strings hold.
pub proof fn law_object_text_is_single_line(
    texts: Seq<(Seq<char>, Seq<char>)>,
    flags: Seq<(Seq<char>, bool)>,
)
    ensures
        single_line(object_text(texts, flags)),
{
    reveal_strlit("true");
    reveal_strlit("false");
    let items = member_texts(texts, flags);
    assert forall|i: int| 0 <= i < items.len() implies single_line(#[trigger] items[i]) by {
        if i < texts.len() {
            let m = texts[i];
            lemma_quoted_is_single_line(m.0);
            lemma_quoted_is_single_line(m.1);
            lemma_single_line_add(quoted(m.0), seq![':']);
            lemma_single_line_add(quoted(m.0) + seq![':'], quoted(m.1));
        } else {
            let m = flags[i - texts.len()];
            lemma_quoted_is_single_line(m.0);
            lemma_single_line_add(quoted(m.0), seq![':']);
            lemma_single_line_add(quoted(m.0) + seq![':'], bool_text(m.1));
        }
    }
    lemma_comma_separated_is_single_line(items);
    lemma_single_line_add(seq!['{'], comma_separated(items));
    lemma_single_line_add(seq!['{'] + comma_separated(items), seq!['}']);
}

} // verus!
