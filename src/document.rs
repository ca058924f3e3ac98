use crate::model::{
    entities_view, plugins_view, strings_view, Entity, EntityView, Plugin, PluginView,
};
use vstd::prelude::*;
use vstd::string::StringExecFns;

verus! {

/// A JSON document as the decoding reads it. Numbers are kept without their
/// value: no field that the dashboard reads is a number.
pub enum Json {
    Null,
    Bool(bool),
    Number,
    Str(String),
    Array(Vec<Json>),
    Object(Vec<(String, Json)>),
}

/// Why an answer of the management API could not be read.
#[derive(PartialEq, Eq, Structural, Clone, Copy, Debug)]
pub enum ParseError {
    /// The text is not JSON.
    Malformed,
    /// The JSON does not have the expected shape.
    Shape,
}

/// The document that the JSON parser reads from a text, or `None` where the
/// text is not JSON.
pub uninterp spec fn parsed_json(text: Seq<char>) -> Option<Json>;

/// Relies on json::parse: a deterministic parser from text to a document,
/// failing on text that is not JSON.
#[verifier::external_body]
fn parse_json(text: &str) -> (r: Option<Json>)
    ensures
        r == parsed_json(text@),
{
    json::parse(text).ok().map(|v| from_json_value(&v))
}

/// A document as the json crate parses it.
#[verifier::external_type_specification]
#[verifier::external_body]
pub struct ExJsonValue(json::JsonValue);

/// Moves a parsed json::JsonValue into the library's document type, one
/// variant for each.
#[verifier::external_body]
fn from_json_value(v: &json::JsonValue) -> Json {
    match v {
        json::JsonValue::Null => Json::Null,
        json::JsonValue::Boolean(b) => Json::Bool(*b),
        json::JsonValue::Number(_) => Json::Number,
        json::JsonValue::Short(s) => Json::Str(s.as_str().to_string()),
        json::JsonValue::String(s) => Json::Str(s.clone()),
        json::JsonValue::Array(a) => Json::Array(a.iter().map(from_json_value).collect()),
        json::JsonValue::Object(o) => Json::Object(
            o.iter().map(|(k, x)| (k.to_string(), from_json_value(x))).collect(),
        ),
    }
}

/// The value of the first field named `key`, from index `i` on.
pub open spec fn field_from(fields: Seq<(String, Json)>, key: Seq<char>, i: int) -> Option<Json>
    decreases fields.len() - i,
{
    if i < 0 || i >= fields.len() {
        None
    } else if fields[i].0@ == key {
        Some(fields[i].1)
    } else {
        field_from(fields, key, i + 1)
    }
}

/// The value of field `key` of an object; `None` for a missing field or a
/// value that is no object.
pub open spec fn field(v: Json, key: Seq<char>) -> Option<Json> {
    match v {
        Json::Object(fields) => field_from(fields@, key, 0),
        _ => None,
    }
}

/// The string held by field `key`, if it holds one.
pub open spec fn str_field(v: Json, key: Seq<char>) -> Option<Seq<char>> {
    match field(v, key) {
        Some(Json::Str(s)) => Some(s@),
        _ => None,
    }
}

/// Decodes each item in turn; `None` as soon as one item fails.
pub open spec fn decode_all<T>(items: Seq<Json>, f: spec_fn(Json) -> Option<T>) -> Option<Seq<T>>
    decreases items.len(),
{
    if items.len() == 0 {
        Some(Seq::empty())
    } else {
        match (decode_all(items.drop_last(), f), f(items.last())) {
            (Some(prefix), Some(x)) => Some(prefix.push(x)),
            _ => None,
        }
    }
}

/// A jail object: string fields `id` and `ip4_addr`.
pub open spec fn entity_of(v: Json) -> Option<EntityView> {
    match (str_field(v, "id"@), str_field(v, "ip4_addr"@)) {
        (Some(id), Some(address)) => Some(EntityView { id, address }),
        _ => None,
    }
}

pub open spec fn string_of(v: Json) -> Option<Seq<char>> {
    match v {
        Json::Str(s) => Some(s@),
        _ => None,
    }
}

/// The admin portals of a plugin object: an array of strings, or none where
/// the field is missing or null.
pub open spec fn portals_of(v: Json) -> Option<Seq<Seq<char>>> {
    match field(v, "admin_portals"@) {
        None => Some(Seq::empty()),
        Some(Json::Null) => Some(Seq::empty()),
        Some(Json::Array(items)) => decode_all(items@, |x: Json| string_of(x)),
        _ => None,
    }
}

/// A plugin object: string fields `name` and `plugin_repository`, and its
/// admin portals.
pub open spec fn plugin_of(v: Json) -> Option<PluginView> {
    match (str_field(v, "name"@), str_field(v, "plugin_repository"@), portals_of(v)) {
        (Some(name), Some(repository_url), Some(admin_portal_urls)) => Some(
            PluginView { name, repository_url, admin_portal_urls },
        ),
        _ => None,
    }
}

/// The jails of a document: an array of jail objects.
pub open spec fn entities_of(v: Json) -> Option<Seq<EntityView>> {
    match v {
        Json::Array(items) => decode_all(items@, |x: Json| entity_of(x)),
        _ => None,
    }
}

/// The plugins of a document: an array of plugin objects.
pub open spec fn plugins_of(v: Json) -> Option<Seq<PluginView>> {
    match v {
        Json::Array(items) => decode_all(items@, |x: Json| plugin_of(x)),
        _ => None,
    }
}

proof fn lemma_decode_all_prefix<T>(items: Seq<Json>, f: spec_fn(Json) -> Option<T>, k: int)
    requires
        0 <= k <= items.len(),
        decode_all(items.take(k), f) is None,
    ensures
        decode_all(items, f) is None,
    decreases items.len(),
{
    if k == items.len() {
        assert(items.take(k) =~= items);
    } else {
        assert(items.drop_last().take(k) =~= items.take(k));
        lemma_decode_all_prefix(items.drop_last(), f, k);
    }
}

proof fn lemma_decode_all_step<T>(items: Seq<Json>, f: spec_fn(Json) -> Option<T>, i: int)
    requires
        0 <= i < items.len(),
    ensures
        decode_all(items.take(i + 1), f) == (match (decode_all(items.take(i), f), f(items[i])) {
            (Some(prefix), Some(x)) => Some(prefix.push(x)),
            _ => None::<Seq<T>>,
        }),
{
    assert(items.take(i + 1).drop_last() =~= items.take(i));
}

/// The first field named `key`.
fn find_field<'a>(fields: &'a Vec<(String, Json)>, key: &str) -> (r: Option<&'a Json>)
    ensures
        r is Some <==> field_from(fields@, key@, 0) is Some,
        r matches Some(v) ==> field_from(fields@, key@, 0) == Some(*v),
{
    let k = String::from_str(key);
    let mut i: usize = 0;
    while i < fields.len()
        invariant
            k@ == key@,
            i <= fields@.len(),
            field_from(fields@, key@, 0) == field_from(fields@, key@, i as int),
        decreases fields@.len() - i,
    {
        if fields[i].0 == k {
            return Some(&fields[i].1);
        }
        i = i + 1;
    }
    None
}

/// The value of field `key` of an object.
fn get_field<'a>(v: &'a Json, key: &str) -> (r: Option<&'a Json>)
    ensures
        r is Some <==> field(*v, key@) is Some,
        r matches Some(x) ==> field(*v, key@) == Some(*x),
{
    match v {
        Json::Object(fields) => find_field(fields, key),
        _ => None,
    }
}

/// The string held by field `key`.
fn get_str_field(v: &Json, key: &str) -> (r: Option<String>)
    ensures
        r is Some <==> str_field(*v, key@) is Some,
        r matches Some(s) ==> str_field(*v, key@) == Some(s@),
{
    match get_field(v, key) {
        Some(Json::Str(s)) => Some(s.clone()),
        _ => None,
    }
}

/// Reads one jail object.
pub fn decode_entity(v: &Json) -> (r: Option<Entity>)
    ensures
        r is Some <==> entity_of(*v) is Some,
        r matches Some(e) ==> entity_of(*v) == Some(e@),
{
    proof {
        reveal_strlit("id");
        reveal_strlit("ip4_addr");
    }
    let id = get_str_field(v, "id");
    let address = get_str_field(v, "ip4_addr");
    match (id, address) {
        (Some(id), Some(address)) => Some(Entity::new(id, address)),
        _ => None,
    }
}

/// Reads the admin portals of one plugin object.
fn decode_portals(v: &Json) -> (r: Option<Vec<String>>)
    ensures
        r is Some <==> portals_of(*v) is Some,
        r matches Some(p) ==> portals_of(*v) == Some(strings_view(p@)),
{
    proof {
        reveal_strlit("admin_portals");
    }
    match get_field(v, "admin_portals") {
        None => {
            let out: Vec<String> = Vec::new();
            assert(strings_view(out@) =~= Seq::<Seq<char>>::empty());
            Some(out)
        },
        Some(Json::Null) => {
            let out: Vec<String> = Vec::new();
            assert(strings_view(out@) =~= Seq::<Seq<char>>::empty());
            Some(out)
        },
        Some(Json::Array(items)) => {
            let ghost f = |x: Json| string_of(x);
            let mut out: Vec<String> = Vec::new();
            let mut i: usize = 0;
            while i < items.len()
                invariant
                    f == (|x: Json| string_of(x)),
                    portals_of(*v) == decode_all(items@, f),
                    i <= items@.len(),
                    decode_all(items@.take(i as int), f) == Some(strings_view(out@)),
                decreases items@.len() - i,
            {
                proof { lemma_decode_all_step(items@, f, i as int); }
                match &items[i] {
                    Json::Str(s) => {
                        let ghost prev = out@;
                        out.push(s.clone());
                        assert(strings_view(out@) =~= strings_view(prev).push(s@));
                    },
                    _ => {
                        proof {
                            lemma_decode_all_prefix(items@, f, i + 1);
                        }
                        return None;
                    },
                }
                i = i + 1;
            }
            assert(items@.take(i as int) =~= items@);
            Some(out)
        },
        _ => None,
    }
}

/// Reads one plugin object.
pub fn decode_plugin(v: &Json) -> (r: Option<Plugin>)
    ensures
        r is Some <==> plugin_of(*v) is Some,
        r matches Some(p) ==> plugin_of(*v) == Some(p@),
{
    proof {
        reveal_strlit("name");
        reveal_strlit("plugin_repository");
    }
    let name = get_str_field(v, "name");
    let repository_url = get_str_field(v, "plugin_repository");
    let portals = decode_portals(v);
    match (name, repository_url, portals) {
        (Some(name), Some(repository_url), Some(portals)) => Some(
            Plugin::new(name, repository_url, portals),
        ),
        _ => None,
    }
}

/// Reads the jails of a document.
pub fn decode_entities(v: &Json) -> (r: Result<Vec<Entity>, ParseError>)
    ensures
        r is Ok <==> entities_of(*v) is Some,
        r matches Ok(es) ==> entities_of(*v) == Some(entities_view(es@)),
        r matches Err(e) ==> e == ParseError::Shape,
{
    match v {
        Json::Array(items) => {
            let ghost f = |x: Json| entity_of(x);
            let mut out: Vec<Entity> = Vec::new();
            let mut i: usize = 0;
            while i < items.len()
                invariant
                    f == (|x: Json| entity_of(x)),
                    entities_of(*v) == decode_all(items@, f),
                    i <= items@.len(),
                    decode_all(items@.take(i as int), f) == Some(entities_view(out@)),
                decreases items@.len() - i,
            {
                proof { lemma_decode_all_step(items@, f, i as int); }
                match decode_entity(&items[i]) {
                    Some(e) => {
                        let ghost prev = out@;
                        let ghost ev = e@;
                        out.push(e);
                        assert(entities_view(out@) =~= entities_view(prev).push(ev));
                    },
                    None => {
                        proof { lemma_decode_all_prefix(items@, f, i + 1); }
                        return Err(ParseError::Shape);
                    },
                }
                i = i + 1;
            }
            assert(items@.take(i as int) =~= items@);
            Ok(out)
        },
        _ => Err(ParseError::Shape),
    }
}

/// Reads the plugins of a document.
pub fn decode_plugins(v: &Json) -> (r: Result<Vec<Plugin>, ParseError>)
    ensures
        r is Ok <==> plugins_of(*v) is Some,
        r matches Ok(ps) ==> plugins_of(*v) == Some(plugins_view(ps@)),
        r matches Err(e) ==> e == ParseError::Shape,
{
    match v {
        Json::Array(items) => {
            let ghost f = |x: Json| plugin_of(x);
            let mut out: Vec<Plugin> = Vec::new();
            let mut i: usize = 0;
            while i < items.len()
                invariant
                    f == (|x: Json| plugin_of(x)),
                    plugins_of(*v) == decode_all(items@, f),
                    i <= items@.len(),
                    decode_all(items@.take(i as int), f) == Some(plugins_view(out@)),
                decreases items@.len() - i,
            {
                proof { lemma_decode_all_step(items@, f, i as int); }
                match decode_plugin(&items[i]) {
                    Some(p) => {
                        let ghost prev = out@;
                        let ghost pw = p@;
                        out.push(p);
                        assert(plugins_view(out@) =~= plugins_view(prev).push(pw));
                    },
                    None => {
                        proof { lemma_decode_all_prefix(items@, f, i + 1); }
                        return Err(ParseError::Shape);
                    },
                }
                i = i + 1;
            }
            assert(items@.take(i as int) =~= items@);
            Ok(out)
        },
        _ => Err(ParseError::Shape),
    }
}

/// Reads the jails from the text of an answer of the jail endpoint.
pub fn parse_entities(text: &str) -> (r: Result<Vec<Entity>, ParseError>)
    ensures
        parsed_json(text@) is None ==> r == Err::<Vec<Entity>, ParseError>(ParseError::Malformed),
        parsed_json(text@) matches Some(v) ==> {
            &&& r is Ok <==> entities_of(v) is Some
            &&& r matches Ok(es) ==> entities_of(v) == Some(entities_view(es@))
            &&& r matches Err(e) ==> e == ParseError::Shape
        },
{
    match parse_json(text) {
        Some(v) => decode_entities(&v),
        None => Err(ParseError::Malformed),
    }
}

/// Reads the plugins from the text of an answer of the plugin endpoint.
pub fn parse_plugins(text: &str) -> (r: Result<Vec<Plugin>, ParseError>)
    ensures
        parsed_json(text@) is None ==> r == Err::<Vec<Plugin>, ParseError>(ParseError::Malformed),
        parsed_json(text@) matches Some(v) ==> {
            &&& r is Ok <==> plugins_of(v) is Some
            &&& r matches Ok(ps) ==> plugins_of(v) == Some(plugins_view(ps@))
            &&& r matches Err(e) ==> e == ParseError::Shape
        },
{
    match parse_json(text) {
        Some(v) => decode_plugins(&v),
        None => Err(ParseError::Malformed),
    }
}

} // verus!
