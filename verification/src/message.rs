//! SSC messages: requests that nest a value under the components of a path,
//! and replies that are unpacked along the same path.
use std::collections::HashMap;
use vstd::prelude::*;

use crate::error::SscError;
use crate::json::{is_request_value, parse_json, parsed_json, json_text, is_nest, null_text, descend, entry_lookup, json_quoted, json_string_literal, JsonValue};
use crate::path::{lemma_split_plain_suffix, lemma_split_slash_then_piece, split_slash, has_no_slash, lemma_child_path_keys, child_path, child_path_of, is_root, is_root_path, is_ssc_path, path_components, path_keys, str_views};

verus! {

/// The line end that closes every request on the wire.
pub open spec fn crlf() -> Seq<u8> {
    seq![13u8, 10u8]
}

/// The JSON text of a request for `keys` around the JSON text `content`:
/// one single-entry object per key, the first key outermost. An empty key
/// stands for `null` and drops everything nested inside it.
pub open spec fn message_text(keys: Seq<Seq<char>>, content: Seq<u8>) -> Seq<u8>
    decreases keys.len(),
{
    if keys.len() == 0 {
        content
    } else if keys[0].len() == 0 {
        null_text()
    } else {
        seq![123u8] + json_quoted(keys[0]) + seq![58u8] + message_text(keys.drop_first(), content)
            + seq![125u8]
    }
}

/// The value that a valid path addresses inside a reply: the whole reply for
/// the root path, else what the path's components lead to.
pub open spec fn address(p: Seq<char>, v: JsonValue) -> Option<JsonValue> {
    if is_root_path(p) {
        Some(v)
    } else {
        descend(v, path_keys(p))
    }
}

fn null_bytes() -> (r: Vec<u8>)
    ensures
        r@ == null_text(),
{
    let mut r: Vec<u8> = Vec::new();
    r.push(110u8);
    r.push(117u8);
    r.push(108u8);
    r.push(108u8);
    assert(r@ =~= null_text());
    r
}

/// The JSON text of the request that nests `content`, itself JSON text, under
/// the components of `path`.
///
/// A path that does not start with `/` is refused with `InvalidPath`.
pub fn build_json_message(path: &str, content: &[u8]) -> (r: Result<Vec<u8>, SscError>)
    ensures
        is_ssc_path(path@) ==> (r matches Ok(bytes) && bytes@ == message_text(
            path_keys(path@),
            content@,
        )),
        !is_ssc_path(path@) ==> (r matches Err(SscError::InvalidPath)),
{
    let keys = path_components(path)?;
    let ghost views = str_views(keys@);
    let mut data: Vec<u8> = vstd::slice::slice_to_vec(content);
    let mut i: usize = keys.len();
    assert(views.skip(i as int) =~= Seq::<Seq<char>>::empty());
    while i > 0
        invariant
            i <= keys@.len(),
            views == str_views(keys@),
            views.len() == keys@.len(),
            data@ == message_text(views.skip(i as int), content@),
        decreases i,
    {
        i = i - 1;
        let key: &str = keys[i];
        assert(views.skip(i as int).drop_first() =~= views.skip(i + 1));
        assert(views.skip(i as int)[0] == key@);
        if key.is_empty() {
            data = null_bytes();
        } else {
            let mut quoted = match json_string_literal(key) {
                Ok(b) => b,
                Err(e) => return Err(SscError::JsonParseError(e)),
            };
            let ghost inner = data@;
            let mut out: Vec<u8> = Vec::new();
            out.push(123u8);
            out.append(&mut quoted);
            out.push(58u8);
            out.append(&mut data);
            out.push(125u8);
            assert(out@ =~= seq![123u8] + json_quoted(key@) + seq![58u8] + inner + seq![125u8]);
            data = out;
        }
    }
    assert(views.skip(0) =~= views);
    Ok(data)
}

/// The bytes sent for a request: the JSON text of the message, then `\r\n`.
///
/// A path that does not start with `/` is refused with `InvalidPath`.
pub fn encode_request(path: &str, content: &[u8]) -> (r: Result<Vec<u8>, SscError>)
    ensures
        is_ssc_path(path@) ==> (r matches Ok(bytes) && bytes@ == message_text(
            path_keys(path@),
            content@,
        ) + crlf()),
        !is_ssc_path(path@) ==> (r matches Err(SscError::InvalidPath)),
{
    let mut data = build_json_message(path, content)?;
    let ghost msg = data@;
    data.push(13u8);
    data.push(10u8);
    assert(data@ =~= msg + crlf());
    Ok(data)
}

/// The index of the first entry with key `key`, if any.
fn find_entry(entries: &Vec<(String, JsonValue)>, key: &str) -> (r: Option<usize>)
    ensures
        r matches Some(j) ==> j < entries@.len() && entries@[j as int].0@ == key@ && (forall|k: int|
            0 <= k < j ==> entries@[k].0@ != key@),
        r is None ==> forall|k: int| 0 <= k < entries@.len() ==> entries@[k].0@ != key@,
{
    let wanted = key.to_owned();
    let mut j: usize = 0;
    while j < entries.len()
        invariant
            wanted@ == key@,
            j <= entries@.len(),
            forall|k: int| 0 <= k < j ==> entries@[k].0@ != key@,
        decreases entries@.len() - j,
    {
        if entries[j].0 == wanted {
            return Some(j);
        }
        j = j + 1;
    }
    None
}

/// The first entry with a key is the one that a lookup finds.
proof fn lemma_entry_lookup_first(entries: Seq<(String, JsonValue)>, key: Seq<char>, j: int)
    requires
        0 <= j < entries.len(),
        entries[j].0@ == key,
        forall|k: int| 0 <= k < j ==> entries[k].0@ != key,
    ensures
        entry_lookup(entries, key) == Some(entries[j].1),
    decreases j,
{
    if j > 0 {
        lemma_entry_lookup_first(entries.drop_first(), key, j - 1);
    }
}

/// Without an entry for a key, a lookup finds nothing.
proof fn lemma_entry_lookup_none(entries: Seq<(String, JsonValue)>, key: Seq<char>)
    requires
        forall|k: int| 0 <= k < entries.len() ==> entries[k].0@ != key,
    ensures
        entry_lookup(entries, key) is None,
    decreases entries.len(),
{
    if entries.len() > 0 {
        lemma_entry_lookup_none(entries.drop_first(), key);
    }
}

/// Takes out of a reply the value that `path` addresses.
///
/// The root path `/` addresses the whole reply. For any other path, each
/// component must name an entry of the object reached so far; where the
/// value reached is no object or has no such entry, the reply is for another
/// path and `UnexpectedPath` is returned. A path that does not start with `/`
/// is refused with `InvalidPath`.
pub fn unpack_json_message(path: &str, value: JsonValue) -> (r: Result<JsonValue, SscError>)
    ensures
        is_ssc_path(path@) && address(path@, value) is Some ==> r == Ok::<JsonValue, SscError>(
            address(path@, value)->Some_0,
        ),
        is_ssc_path(path@) && address(path@, value) is None ==> (r matches Err(
            SscError::UnexpectedPath,
        )),
        !is_ssc_path(path@) ==> (r matches Err(SscError::InvalidPath)),
{
    if is_root(path) {
        return Ok(value);
    }
    let keys = path_components(path)?;
    let ghost views = str_views(keys@);
    let mut cur = value;
    let mut i: usize = 0;
    assert(views.skip(0) =~= views);
    while i < keys.len()
        invariant
            i <= keys@.len(),
            views == str_views(keys@),
            views.len() == keys@.len(),
            is_ssc_path(path@),
            !is_root_path(path@),
            views == path_keys(path@),
            address(path@, value) == descend(cur, views.skip(i as int)),
        decreases keys@.len() - i,
    {
        let key: &str = keys[i];
        assert(views.skip(i as int).drop_first() =~= views.skip(i + 1));
        assert(views.skip(i as int)[0] == key@);
        let ghost rest = views.skip(i as int);
        assert(rest.len() > 0);
        match cur {
            JsonValue::Object(mut entries) => {
                match find_entry(&entries, key) {
                    Some(j) => {
                        proof {
                            lemma_entry_lookup_first(entries@, key@, j as int);
                        }
                        let (_found_key, found) = entries.remove(j);
                        cur = found;
                    },
                    None => {
                        proof {
                            lemma_entry_lookup_none(entries@, key@);
                            assert(descend(JsonValue::Object(entries), rest) is None);
                        }
                        return Err(SscError::UnexpectedPath);
                    },
                }
            },
            _ => {
                return Err(SscError::UnexpectedPath);
            },
        }
        i = i + 1;
    }
    assert(views.skip(i as int) =~= Seq::<Seq<char>>::empty());
    Ok(cur)
}

/// The content of the schema request that lists `p`: for the root path the
/// request text of the root itself, for any other path that text inside a
/// JSON array.
pub open spec fn list_content(p: Seq<char>) -> Seq<u8> {
    if is_root_path(p) {
        message_text(path_keys(p), null_text())
    } else {
        seq![91u8] + message_text(path_keys(p), null_text()) + seq![93u8]
    }
}

/// The bytes that ask a device for its schema below `path`: a request on
/// `/osc/schema` whose content is `list_content` of the path.
///
/// A path that does not start with `/` is refused with `InvalidPath`.
pub fn list_request(path: &str) -> (r: Result<Vec<u8>, SscError>)
    ensures
        is_ssc_path(path@) ==> (r matches Ok(bytes) && bytes@ == message_text(
            path_keys("/osc/schema"@),
            list_content(path@),
        ) + crlf()),
        is_ssc_path(path@) && !is_root_path(path@) ==> (r matches Ok(bytes) && bytes@
            == message_text(
            path_keys("/osc/schema"@),
            seq![91u8] + message_text(path_keys(path@), null_text()) + seq![93u8],
        ) + crlf()),
        is_root_path(path@) ==> (r matches Ok(bytes) && bytes@ == message_text(
            path_keys("/osc/schema"@),
            null_text(),
        ) + crlf()),
        !is_ssc_path(path@) ==> (r matches Err(SscError::InvalidPath)),
{
    proof {
        if is_root_path(path@) {
            lemma_root_request_is_null(path@);
        }
    }
    let message = build_json_message(path, &[110u8, 117u8, 108u8, 108u8])?;
    let content = if is_root(path) {
        message
    } else {
        let ghost inner = message@;
        let mut wrapped: Vec<u8> = Vec::new();
        wrapped.push(91u8);
        let mut message = message;
        wrapped.append(&mut message);
        wrapped.push(93u8);
        assert(wrapped@ =~= seq![91u8] + inner + seq![93u8]);
        wrapped
    };
    let schema_path = "/osc/schema";
    proof {
        reveal_strlit("/osc/schema");
    }
    encode_request(schema_path, content.as_slice())
}

/// Reads a reply text and takes out of it the value that `path` addresses.
///
/// A text that is not JSON is refused with `JsonParseError`; otherwise the
/// parsed reply is unpacked as `unpack_json_message` does.
pub fn unserialize_json_message(path: &str, data: &str) -> (r: Result<JsonValue, SscError>)
    ensures
        parsed_json(data@) is None ==> (r matches Err(SscError::JsonParseError(_))),
        parsed_json(data@) matches Some(v) ==> ((is_ssc_path(path@) && address(path@, v) is Some
            ==> r == Ok::<JsonValue, SscError>(address(path@, v)->Some_0)) && (is_ssc_path(path@)
            && address(path@, v) is None ==> (r matches Err(SscError::UnexpectedPath))) && (
        !is_ssc_path(path@) ==> (r matches Err(SscError::InvalidPath)))),
{
    let value = match parse_json(data) {
        Ok(v) => v,
        Err(e) => return Err(SscError::JsonParseError(e)),
    };
    unpack_json_message(path, value)
}

/// The request text of the root path is `null`, whatever it carries.
proof fn lemma_root_request_is_null(p: Seq<char>)
    requires
        is_root_path(p),
    ensures
        forall|c: Seq<u8>| message_text(path_keys(p), c) == null_text(),
{
    assert(p.drop_first() =~= Seq::<char>::empty());
    assert(path_keys(p) =~= seq![Seq::<char>::empty()]);
}

/// The components of `/osc/schema`.
proof fn lemma_schema_path_keys()
    ensures
        path_keys("/osc/schema"@) == seq![seq!['o', 's', 'c'], seq!['s', 'c', 'h', 'e', 'm', 'a']],
{
    reveal_strlit("/osc/schema");
    let osc = seq!['o', 's', 'c'];
    let schema = seq!['s', 'c', 'h', 'e', 'm', 'a'];
    assert("/osc/schema"@ =~= seq!['/', 'o', 's', 'c', '/', 's', 'c', 'h', 'e', 'm', 'a']);
    assert("/osc/schema"@.drop_first() =~= osc + seq!['/'] + schema);
    assert(has_no_slash(schema));
    assert(has_no_slash(osc));
    lemma_split_slash_then_piece(osc, schema);
    lemma_split_plain_suffix(Seq::<char>::empty(), osc);
    assert(Seq::<char>::empty() + osc =~= osc);
    assert(split_slash(Seq::<char>::empty()) == seq![Seq::<char>::empty()]);
    assert(split_slash(Seq::<char>::empty() + osc) =~= seq![osc]);
    assert(split_slash(osc) =~= seq![osc]);
    assert(path_keys("/osc/schema"@) =~= seq![osc, schema]);
}

/// Listing any path but the root asks for the schema inside a JSON array:
/// the content of the request is `[`, the request text of the path around
/// `null`, and `]`. Only the root path goes unwrapped, as `null`.
pub proof fn law_list_request_wraps_all_but_root(p: Seq<char>)
    requires
        is_ssc_path(p),
    ensures
        !is_root_path(p) ==> list_content(p) == seq![91u8] + message_text(path_keys(p), null_text())
            + seq![93u8],
        !is_root_path(p) ==> list_content(p)[0] == 91u8 && list_content(p).last() == 93u8,
        is_root_path(p) ==> list_content(p) == null_text(),
{
    if is_root_path(p) {
        lemma_root_request_is_null(p);
    }
}

/// For a path of one component `k`, the schema request is exactly
/// `{"osc":{"schema":[{"k":null}]}}` followed by `\\r\\n`.
pub proof fn law_list_request_of_one_component(k: Seq<char>)
    requires
        k.len() > 0,
        has_no_slash(k),
    ensures
        message_text(path_keys("/osc/schema"@), list_content(seq!['/'] + k)) + crlf() == seq![123u8]
            + json_quoted(seq!['o', 's', 'c']) + seq![58u8, 123u8] + json_quoted(
            seq!['s', 'c', 'h', 'e', 'm', 'a'],
        ) + seq![58u8, 91u8, 123u8] + json_quoted(k) + seq![58u8] + null_text() + seq![
            125u8,
            93u8,
            125u8,
            125u8,
            13u8,
            10u8,
        ],
{
    let p = seq!['/'] + k;
    lemma_child_path_keys(seq!['/'], k);
    assert(child_path(seq!['/'], k) == p);
    assert(path_keys(p) == seq![k]);
    lemma_schema_path_keys();
    let keys = path_keys("/osc/schema"@);
    let inner = message_text(seq![k], null_text());
    assert(seq![k].drop_first() =~= Seq::<Seq<char>>::empty());
    assert(seq![k][0] == k);
    assert(message_text(Seq::<Seq<char>>::empty(), null_text()) == null_text());
    assert(inner == seq![123u8] + json_quoted(k) + seq![58u8] + null_text() + seq![125u8]);
    let content = seq![91u8] + inner + seq![93u8];
    assert(list_content(p) == content);
    assert(keys.drop_first() =~= seq![seq!['s', 'c', 'h', 'e', 'm', 'a']]);
    assert(keys.drop_first().drop_first() =~= Seq::<Seq<char>>::empty());
    assert(message_text(Seq::<Seq<char>>::empty(), content) == content);
    assert(keys.drop_first()[0] == seq!['s', 'c', 'h', 'e', 'm', 'a']);
    assert(keys[0] == seq!['o', 's', 'c']);
    assert(message_text(keys.drop_first(), content) == seq![123u8] + json_quoted(
        seq!['s', 'c', 'h', 'e', 'm', 'a'],
    ) + seq![58u8] + content + seq![125u8]);
    assert(message_text(keys, content) + crlf() =~= seq![123u8] + json_quoted(seq!['o', 's', 'c'])
        + seq![58u8, 123u8] + json_quoted(seq!['s', 'c', 'h', 'e', 'm', 'a']) + seq![
        58u8,
        91u8,
        123u8,
    ] + json_quoted(k) + seq![58u8] + null_text() + seq![125u8, 93u8, 125u8, 125u8, 13u8, 10u8]);
}

/// What a schema listing holds, as far as the library reads it: the
/// entries of the schema object below the listed path, or the shape that
/// keeps them from being read.
#[derive(Debug, PartialEq, Eq)]
pub enum SchemaReply {
    /// The entries of the schema object that the listed path addresses.
    Entries(Vec<(String, JsonValue)>),
    /// The listing is no array; it is handed back.
    NotAnArray(JsonValue),
    /// The listing is an empty array.
    EmptyArray,
    /// What the listed path addresses in the first item is no object; it is
    /// handed back.
    NotAnObject(JsonValue),
}

/// Reads the listing that a schema reply carries under `/osc/schema`: it
/// must be an array whose first item, unpacked along `path` as
/// `unpack_json_message` does, is an object; its entries are the schema
/// entries below `path`.
pub fn schema_entries(path: &str, listing: JsonValue) -> (r: Result<SchemaReply, SscError>)
    ensures
        (match listing {
            JsonValue::Array(items) => if items@.len() == 0 {
                r matches Ok(SchemaReply::EmptyArray)
            } else {
                &&& (is_ssc_path(path@) && address(path@, items@[0]) is Some) ==> (match address(
                    path@,
                    items@[0],
                )->Some_0 {
                    JsonValue::Object(entries) => r == Ok::<SchemaReply, SscError>(
                        SchemaReply::Entries(entries),
                    ),
                    other => r == Ok::<SchemaReply, SscError>(SchemaReply::NotAnObject(other)),
                })
                &&& (is_ssc_path(path@) && address(path@, items@[0]) is None) ==> (r matches Err(
                    SscError::UnexpectedPath,
                ))
                &&& !is_ssc_path(path@) ==> (r matches Err(SscError::InvalidPath))
            },
            other => r == Ok::<SchemaReply, SscError>(SchemaReply::NotAnArray(other)),
        }),
{
    match listing {
        JsonValue::Array(mut items) => {
            if items.len() == 0 {
                return Ok(SchemaReply::EmptyArray);
            }
            let first = items.remove(0);
            match unpack_json_message(path, first)? {
                JsonValue::Object(entries) => Ok(SchemaReply::Entries(entries)),
                other => Ok(SchemaReply::NotAnObject(other)),
            }
        },
        other => Ok(SchemaReply::NotAnArray(other)),
    }
}

/// What an entry of a device's schema is: a leaf that holds a setting, or a
/// branch to be listed in turn under its own path.
#[derive(Debug, PartialEq, Eq)]
pub enum ListChild {
    Leaf,
    Branch(String),
}

/// The schema tree of a device: each branch maps the names of its entries
/// to their subtrees.
#[derive(PartialEq, Eq, Debug)]
pub enum ListNode {
    Branch(Box<HashMap<String, ListNode>>),
    Leaf,
}

/// A schema entry is `null` for a leaf or an object for a branch.
pub open spec fn is_schema_entry(v: JsonValue) -> bool {
    v is Null || v is Object
}

/// What the schema entry `entry` below the path `p` becomes.
pub open spec fn child_of(p: Seq<char>, entry: (String, JsonValue), child: (String, ListChild)) -> bool {
    &&& child.0@ == entry.0@
    &&& entry.1 is Null ==> child.1 is Leaf
    &&& entry.1 is Object ==> (child.1 matches ListChild::Branch(sub) && sub@ == child_path(
        p,
        entry.0@,
    ))
}

/// Sorts the entries of a schema listing below `path`: `null` entries are
/// leaves, object entries are branches to list under their child path, and
/// any other entry makes the listing invalid (`InvalidPath`).
pub fn list_children(path: &str, entries: &Vec<(String, JsonValue)>) -> (r: Result<
    Vec<(String, ListChild)>,
    SscError,
>)
    ensures
        (forall|i: int| 0 <= i < entries@.len() ==> is_schema_entry(#[trigger] entries@[i].1)) ==> (
        r matches Ok(children) && children@.len() == entries@.len() && forall|i: int|
            0 <= i < entries@.len() ==> child_of(path@, #[trigger] entries@[i], children@[i])),
        !(forall|i: int| 0 <= i < entries@.len() ==> is_schema_entry(#[trigger] entries@[i].1)) ==> (
        r matches Err(SscError::InvalidPath)),
{
    let mut children: Vec<(String, ListChild)> = Vec::new();
    let mut i: usize = 0;
    while i < entries.len()
        invariant
            i <= entries@.len(),
            children@.len() == i,
            forall|k: int| 0 <= k < i ==> is_schema_entry(#[trigger] entries@[k].1),
            forall|k: int| 0 <= k < i ==> child_of(path@, #[trigger] entries@[k], children@[k]),
        decreases entries@.len() - i,
    {
        let key = entries[i].0.clone();
        let child = match &entries[i].1 {
            JsonValue::Null => ListChild::Leaf,
            JsonValue::Object(_) => ListChild::Branch(child_path_of(path, entries[i].0.as_str())),
            _ => {
                return Err(SscError::InvalidPath);
            },
        };
        children.push((key, child));
        i = i + 1;
    }
    Ok(children)
}

/// Following one more key descends one more level from where the other keys
/// lead.
pub proof fn lemma_descend_push(v: JsonValue, keys: Seq<Seq<char>>, k: Seq<char>)
    ensures
        descend(v, keys.push(k)) == (match descend(v, keys) {
            Some(w) => descend(w, seq![k]),
            None => None,
        }),
    decreases keys.len(),
{
    if keys.len() == 0 {
        assert(keys.push(k) =~= seq![k]);
    } else {
        assert(keys.push(k).drop_first() =~= keys.drop_first().push(k));
        assert(keys.push(k)[0] == keys[0]);
        match v {
            JsonValue::Object(entries) => {
                match entry_lookup(entries@, keys[0]) {
                    Some(w) => {
                        lemma_descend_push(w, keys.drop_first(), k);
                    },
                    None => {},
                }
            },
            _ => {},
        }
    }
}

/// A value nested under keys is found again by following those keys.
pub proof fn lemma_descend_nest(w: JsonValue, keys: Seq<Seq<char>>, v: JsonValue)
    requires
        is_nest(w, keys, v),
    ensures
        descend(w, keys) == Some(v),
    decreases keys.len(),
{
    if keys.len() > 0 {
        match w {
            JsonValue::Object(entries) => {
                assert(entries@.drop_first().len() == 0);
                assert(entry_lookup(entries@, keys[0]) == Some(entries@[0].1));
                lemma_descend_nest(entries@[0].1, keys.drop_first(), v);
            },
            _ => {},
        }
    }
}

/// The text of a value nested under non-empty keys is the request text for
/// those keys around the text of the value.
pub proof fn lemma_nest_text(w: JsonValue, keys: Seq<Seq<char>>, v: JsonValue)
    requires
        is_nest(w, keys, v),
        forall|i: int| 0 <= i < keys.len() ==> (#[trigger] keys[i]).len() > 0,
    ensures
        json_text(w) == message_text(keys, json_text(v)),
    decreases keys.len(),
{
    if keys.len() > 0 {
        match w {
            JsonValue::Object(entries) => {
                let rest = keys.drop_first();
                assert forall|i: int| 0 <= i < rest.len() implies (#[trigger] rest[i]).len() > 0 by {
                    assert(rest[i] == keys[i + 1]);
                }
                lemma_nest_text(entries@[0].1, rest, v);
                assert(keys[0].len() > 0);
                assert(json_text(w) =~= seq![123u8] + json_quoted(keys[0]) + seq![58u8] + json_text(
                    entries@[0].1,
                ) + seq![125u8]);
            },
            _ => {},
        }
    }
}

/// The text of a request value is the request text around the text of the
/// value that it carries.
pub proof fn lemma_request_value_text(w: JsonValue, keys: Seq<Seq<char>>, v: JsonValue)
    requires
        is_request_value(w, keys, v),
    ensures
        json_text(w) == message_text(keys, json_text(v)),
    decreases keys.len(),
{
    if keys.len() > 0 && keys[0].len() > 0 {
        match w {
            JsonValue::Object(entries) => {
                lemma_request_value_text(entries@[0].1, keys.drop_first(), v);
                assert(json_text(w) =~= seq![123u8] + json_quoted(keys[0]) + seq![58u8] + json_text(
                    entries@[0].1,
                ) + seq![125u8]);
            },
            _ => {},
        }
    }
}

/// For every valid path, empty components included, the bytes that
/// `build_json_message` writes around the JSON text of a value are the
/// compact JSON text of the request value the original builds: the value
/// nested under the path's components, `null` from the first empty one on.
pub proof fn law_request_is_json_text_of_request_value(p: Seq<char>, v: JsonValue, w: JsonValue)
    requires
        is_ssc_path(p),
        is_request_value(w, path_keys(p), v),
    ensures
        message_text(path_keys(p), json_text(v)) == json_text(w),
{
    lemma_request_value_text(w, path_keys(p), v);
}

/// Request and reply take one shape: the request that `build_json_message`
/// writes for a path around the JSON text of a value is the JSON text of that
/// value nested under the path's components, and a reply of that shape,
/// unpacked along the same path, gives the value back.
pub proof fn law_request_reply_roundtrip(p: Seq<char>, v: JsonValue, w: JsonValue)
    requires
        is_ssc_path(p),
        !is_root_path(p),
        forall|i: int| 0 <= i < path_keys(p).len() ==> (#[trigger] path_keys(p)[i]).len() > 0,
        is_nest(w, path_keys(p), v),
    ensures
        message_text(path_keys(p), json_text(v)) == json_text(w),
        address(p, w) == Some(v),
{
    lemma_nest_text(w, path_keys(p), v);
    lemma_descend_nest(w, path_keys(p), v);
}

/// The path that `list_children` gives a branch addresses, in any reply,
/// exactly the entry of that name inside what the parent path addresses.
pub proof fn law_child_path_addresses_entry(p: Seq<char>, k: Seq<char>, v: JsonValue)
    requires
        is_ssc_path(p),
        k.len() > 0,
        has_no_slash(k),
    ensures
        is_ssc_path(child_path(p, k)),
        address(child_path(p, k), v) == (match address(p, v) {
            Some(w) => descend(w, seq![k]),
            None => None,
        }),
{
    lemma_child_path_keys(p, k);
    if !is_root_path(p) {
        lemma_descend_push(v, path_keys(p), k);
    }
}

} // verus!
