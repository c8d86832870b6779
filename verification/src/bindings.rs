//! What the library takes on trust from other crates and from the standard library.
use crate::paths::{
    adjoined, ends_in, in_directory, is_bare, nameless, names_in, plain_name, portable_path,
    starts_with, verbatim_path,
};
use crate::text::{ascii_lowered, text_result};
use bytes::BytesMut;
use reqwest::header::{HeaderMap, HeaderValue};
use vstd::prelude::*;
use vstd::utf8::*;

verus! {

/// A growable byte buffer of the `bytes` crate.
#[verifier::external_type_specification]
#[verifier::external_body]
pub struct ExBytesMut(BytesMut);

/// The bytes that a buffer holds, in order.
pub uninterp spec fn buffered(buffer: BytesMut) -> Seq<u8>;

/// `BytesMut::new`: a new buffer holds nothing.
#[verifier::external_body]
pub(crate) fn buffer_new() -> (r: BytesMut)
    ensures
        buffered(r) == Seq::<u8>::empty(),
{
    BytesMut::new()
}

/// `BytesMut::extend_from_slice`: appends the bytes to what the buffer holds.
#[verifier::external_body]
pub(crate) fn buffer_extend(buffer: &mut BytesMut, bytes: &[u8])
    ensures
        buffered(*final(buffer)) == buffered(*old(buffer)) + bytes@,
{
    buffer.extend_from_slice(bytes)
}

/// `<BytesMut as AsRef<[u8]>>::as_ref`: the bytes that the buffer holds, as a slice.
#[verifier::external_body]
pub(crate) fn buffer_bytes(buffer: &BytesMut) -> (r: &[u8])
    ensures
        r@ == buffered(*buffer),
{
    buffer.as_ref()
}

/// `BytesMut::split_to`: takes the first `at` bytes out of the buffer and leaves the rest in it.
/// It panics where the buffer holds fewer.
#[verifier::external_body]
pub(crate) fn buffer_split_to(buffer: &mut BytesMut, at: usize) -> (r: Vec<u8>)
    requires
        at <= buffered(*old(buffer)).len(),
    ensures
        r@ == buffered(*old(buffer)).take(at as int),
        buffered(*final(buffer)) == buffered(*old(buffer)).skip(at as int),
{
    buffer.split_to(at).to_vec()
}

/// `std::str::from_utf8`: the text that the bytes encode, if they are valid UTF-8.
#[verifier::external_body]
pub(crate) fn utf8_text(bytes: &[u8]) -> (r: Option<&str>)
    ensures
        r is Some <==> valid_utf8(bytes@),
        r matches Some(text) ==> text@ == decode_utf8(bytes@),
{
    std::str::from_utf8(bytes).ok()
}

/// What the standard base64 alphabet, with padding, decodes `text` to, or the message of the
/// failure.
pub uninterp spec fn base64_decoded(text: Seq<char>) -> Result<Seq<u8>, Seq<char>>;

/// `base64::engine::general_purpose::STANDARD.decode`: a function of the text alone, named
/// [`base64_decoded`]; the error is given by its message.
#[verifier::external_body]
pub(crate) fn decode_base64(text: &str) -> (r: Result<Vec<u8>, String>)
    ensures
        (match r {
            Ok(bytes) => Ok::<Seq<u8>, Seq<char>>(bytes@),
            Err(message) => Err::<Seq<u8>, Seq<char>>(message@),
        }) == base64_decoded(text@),
{
    let engine = &base64::engine::general_purpose::STANDARD;
    base64::Engine::decode(engine, text).map_err(|source| source.to_string())
}

/// One header value of the `http` crate, as `reqwest` hands it on.
#[verifier::external_type_specification]
#[verifier::external_body]
pub struct ExHeaderValue(HeaderValue);

/// The headers of a message: the map of the `http` crate, as `reqwest` hands it on.
#[verifier::external_type_specification]
#[verifier::external_body]
#[verifier::reject_recursive_types(T)]
pub struct ExHeaderMap<T>(HeaderMap<T>);

/// The bytes of the values of each header, in order, by the name of the header in lower case.
pub uninterp spec fn header_values(headers: HeaderMap) -> Map<Seq<char>, Seq<Seq<u8>>>;

/// The length in bytes up to which a header map checks the names that it is asked for.
pub const CHECKED_NAME_LEN: usize = 64;

/// Whether the text is a header name: letters, digits and the other characters that names are
/// made of.
pub open spec fn header_name(name: Seq<char>) -> bool {
    name.len() > 0 && forall|i: int|
        0 <= i < name.len() ==> {
            ||| 'a' <= #[trigger] name[i] <= 'z'
            ||| 'A' <= name[i] <= 'Z'
            ||| '0' <= name[i] <= '9'
            ||| "!#$%&'*+-.^_`|~"@.contains(name[i])
        }
}

/// The first value of the header, if there is one; the case of the name does not matter.
pub open spec fn first_of(values: Map<Seq<char>, Seq<Seq<u8>>>, name: Seq<char>) -> Option<
    Seq<u8>,
> {
    if values.contains_key(ascii_lowered(name)) {
        Some(values[ascii_lowered(name)][0])
    } else {
        None
    }
}

/// `HeaderMap::get` and `HeaderValue::as_bytes`: the bytes of the first value of the header, if
/// the map has one. The case of the name does not matter. Nothing is found under texts that are
/// no header names, up to the length of [`CHECKED_NAME_LEN`] bytes; of longer ones nothing is
/// said, for the map does not check them.
#[verifier::external_body]
pub(crate) fn header_first(headers: &HeaderMap, name: &str) -> (r: Option<Vec<u8>>)
    ensures
        header_name(name@) ==> (match r {
            Some(bytes) => Some(bytes@),
            None => None,
        }) == first_of(header_values(*headers), name@),
        !header_name(name@) && encode_utf8(name@).len() <= CHECKED_NAME_LEN ==> r is None,
{
    headers.get(name).map(|value| value.as_bytes().to_vec())
}

/// The text that the bytes encode, with what is not valid UTF-8 replaced.
pub uninterp spec fn utf8_lossy(bytes: Seq<u8>) -> Seq<char>;

/// `String::from_utf8_lossy`: a function of the bytes alone, named [`utf8_lossy`]; valid UTF-8
/// decodes to the text that it encodes.
#[verifier::external_body]
pub(crate) fn lossy_text(bytes: &[u8]) -> (r: String)
    ensures
        r@ == utf8_lossy(bytes@),
        valid_utf8(bytes@) ==> r@ == decode_utf8(bytes@),
{
    String::from_utf8_lossy(bytes).into_owned()
}

/// The number and the standard reason of an HTTP status.
pub uninterp spec fn status_text(status: u16) -> Seq<char>;

/// `reqwest::StatusCode::from_u16` and its `Display`: a function of the number alone, named
/// [`status_text`]. The numbers from 100 to 999 are the ones that `from_u16` takes.
#[verifier::external_body]
pub(crate) fn describe_status(status: u16) -> (r: String)
    requires
        100 <= status <= 999,
    ensures
        r@ == status_text(status),
{
    reqwest::StatusCode::from_u16(status).unwrap().to_string()
}

/// The normal form of the absolute URL that `text` spells, or the message of the failure.
pub uninterp spec fn url_parsed(text: Seq<char>) -> Result<Seq<char>, Seq<char>>;

/// `url::Url::parse`: a function of the text alone, named [`url_parsed`]; the URL is given by its
/// text, the error by its message.
#[verifier::external_body]
pub(crate) fn parse_url(text: &str) -> (r: Result<String, String>)
    ensures
        text_result(r) == url_parsed(text@),
{
    url::Url::parse(text).map(String::from).map_err(|source| source.to_string())
}

/// The URL that `reference` denotes relative to the URL that `base` spells, or the message of the
/// failure.
pub uninterp spec fn url_joined(base: Seq<char>, reference: Seq<char>) -> Result<
    Seq<char>,
    Seq<char>,
>;

/// `url::Url::join` on what `url::Url::parse` makes of `base`: a function of the two texts alone,
/// named [`url_joined`]; the URL is given by its text, the error by its message.
#[verifier::external_body]
pub(crate) fn join_url(base: &str, reference: &str) -> (r: Result<String, String>)
    ensures
        text_result(r) == url_joined(base@, reference@),
{
    let joined = url::Url::parse(base).and_then(|base| base.join(reference));
    joined.map(String::from).map_err(|source| source.to_string())
}

/// `std::path::Path::parent`: the directory of the last part of the path, as text; nothing for a
/// path without parts. Of paths that platforms read differently no more is said than that the
/// path without its last part is the start of the path.
#[verifier::external_body]
pub(crate) fn parent_of(path: &str) -> (r: Option<String>)
    ensures
        r is Some ==> starts_with(path@, r->0@),
        is_bare(path@) ==> r is None,
        forall|dir: Seq<char>, last: Seq<char>| #[trigger]
            ends_in(path@, dir, last) ==> r is Some && r->0@ == dir,
{
    std::path::Path::new(path).parent().map(|parent| parent.to_string_lossy().into_owned())
}

/// `std::path::Path::file_name`: the name in which the path ends, as text; nothing for a
/// path that has none. Of paths that platforms read differently nothing is said.
#[verifier::external_body]
pub(crate) fn file_name_of(path: &str) -> (r: Option<String>)
    ensures
        nameless(path@) ==> r is None,
        forall|dir: Seq<char>, name: Seq<char>| #[trigger]
            names_in(path@, dir, name) ==> r is Some && r->0@ == name,
{
    std::path::Path::new(path).file_name().map(|name| name.to_string_lossy().into_owned())
}

/// `std::path::Path::with_file_name`: the path with another name at its end, or with a name
/// behind it where it has none. Of names that are more than a plain name, and of paths that
/// platforms read differently, nothing is said.
#[verifier::external_body]
pub(crate) fn sibling_of(path: &str, name: &str) -> (r: String)
    ensures
        nameless(path@) && plain_name(name@) ==> in_directory(r@, path@, name@),
        forall|dir: Seq<char>, last: Seq<char>| #[trigger]
            names_in(path@, dir, last) && plain_name(name@) ==> in_directory(r@, dir, name@),
{
    std::path::Path::new(path).with_file_name(name).to_string_lossy().into_owned()
}

/// `std::path::Path::join`: the path of `name` in the directory `dir`: the one behind the other,
/// with a separator where the directory does not end in one. Whether it does, platforms tell
/// differently for some. Of names that are more than a plain name, and of directories that
/// Windows takes word for word, which are rewritten, nothing is said.
#[verifier::external_body]
pub(crate) fn path_in(dir: &str, name: &str) -> (r: String)
    ensures
        plain_name(name@) && portable_path(dir@) ==> in_directory(r@, dir@, name@),
        plain_name(name@) && !verbatim_path(dir@) ==> adjoined(r@, dir@, name@),
{
    std::path::Path::new(dir).join(name).to_string_lossy().into_owned()
}

/// A JSON value of the `serde_json` crate.
#[verifier::external_type_specification]
#[verifier::external_body]
pub struct ExJsonValue(serde_json::Value);

/// What a JSON value holds. A number is given by its text.
pub ghost enum JsonTree {
    Null,
    Bool(bool),
    Number(Seq<char>),
    Text(Seq<char>),
    Array(Seq<JsonTree>),
    Object(Map<Seq<char>, JsonTree>),
}

impl JsonTree {
    /// The member of the object that has the given key, if this is an object with one.
    pub open spec fn member(self, key: Seq<char>) -> Option<JsonTree> {
        match self {
            JsonTree::Object(members) => if members.contains_key(key) {
                Some(members[key])
            } else {
                None
            },
            _ => None,
        }
    }
}

/// What the JSON value holds.
pub uninterp spec fn json_tree(value: serde_json::Value) -> JsonTree;

/// What the JSON document in the bytes holds, or the message of the failure to read it.
pub uninterp spec fn json_document(bytes: Seq<u8>) -> Result<JsonTree, Seq<char>>;

/// `serde_json::from_slice` into a `serde_json::Value`: a function of the bytes alone, named
/// [`json_document`]; the error is given by its message.
#[verifier::external_body]
pub(crate) fn parse_json(bytes: &[u8]) -> (r: Result<serde_json::Value, String>)
    ensures
        (match r {
            Ok(value) => Ok::<JsonTree, Seq<char>>(json_tree(value)),
            Err(message) => Err::<JsonTree, Seq<char>>(message@),
        }) == json_document(bytes@),
{
    serde_json::from_slice(bytes).map_err(|source| source.to_string())
}

/// `serde_json::Value::get` with a key: the member of an object; nothing where the object has no
/// such member, or where the value is not an object.
#[verifier::external_body]
pub(crate) fn json_member<'a>(value: &'a serde_json::Value, key: &str) -> (r: Option<
    &'a serde_json::Value,
>)
    ensures
        (match r {
            Some(member) => Some(json_tree(*member)),
            None => None,
        }) == json_tree(*value).member(key@),
{
    value.get(key)
}

/// `serde_json::Value::as_str`: the text of a string; nothing where the value is not one.
#[verifier::external_body]
pub(crate) fn json_text(value: &serde_json::Value) -> (r: Option<&str>)
    ensures
        (match r {
            Some(text) => json_tree(*value) == JsonTree::Text(text@),
            None => !(json_tree(*value) is Text),
        }),
{
    value.as_str()
}

/// `serde_json::Value::as_array`: the items of an array, in order; nothing where the value is not
/// one.
#[verifier::external_body]
pub(crate) fn json_items(value: &serde_json::Value) -> (r: Option<&Vec<serde_json::Value>>)
    ensures
        (match r {
            Some(items) => json_tree(*value) == JsonTree::Array(
                items@.map_values(|item: serde_json::Value| json_tree(item)),
            ),
            None => !(json_tree(*value) is Array),
        }),
{
    value.as_array()
}

} // verus!
