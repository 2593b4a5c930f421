//! What the engine takes on trust from the crates it is built on.
//!
//! Each item here states, without proof, what a type or function of another
//! crate does. Everything else in the library is proved from these
//! statements.

use crate::key::decimal;
use vstd::prelude::*;
use vstd::string::StringSliceAdditionalSpecFns;

verus! {

/// What `simd_json::serde::from_slice` makes of a request body: the JSON
/// document, or `None` where it reports an error.
pub uninterp spec fn simd_json_value(body: Seq<u8>) -> Option<serde_json::Value>;

/// What `serde_json::from_slice` makes of a request body: the JSON document,
/// or `None` where it reports an error.
pub uninterp spec fn serde_json_value(body: Seq<u8>) -> Option<serde_json::Value>;

/// What `simd_json::to_writer` writes for a JSON document, read as UTF-8:
/// its text, or `None` where the writer reports an error or what it wrote
/// is no UTF-8.
pub uninterp spec fn simd_json_text(value: serde_json::Value) -> Option<Seq<char>>;

/// What `to_string` makes of a `serde_json::Value`: the text of the
/// document.
pub uninterp spec fn serde_json_text(value: serde_json::Value) -> Seq<char>;

/// What `str::to_uppercase` makes of a text: its upper-case form by the
/// rules of Unicode.
pub uninterp spec fn uppercased(text: Seq<char>) -> Seq<char>;

/// `bytes::Bytes`: a shared, immutable run of bytes.
#[verifier::external_type_specification]
#[verifier::external_body]
pub struct ExBytes(bytes::Bytes);

/// `serde_json::Value`: a parsed JSON document. The engine carries such
/// values to handlers and never looks inside.
#[verifier::external_type_specification]
#[verifier::external_body]
pub struct ExJsonValue(serde_json::Value);

/// `dashmap::DashMap`: a hash map that can be shared between threads.
#[verifier::external_type_specification]
#[verifier::external_body]
#[verifier::reject_recursive_types(K)]
#[verifier::reject_recursive_types(V)]
#[verifier::reject_recursive_types(S)]
pub struct ExDashMap<K, V, S>(dashmap::DashMap<K, V, S>);

/// `ahash::AHasher`: the hasher of the route index.
#[verifier::external_type_specification]
#[verifier::external_body]
pub struct ExAHasher(ahash::AHasher);

/// `std::hash::BuildHasherDefault`: builds a hasher by its `Default`.
#[verifier::external_type_specification]
#[verifier::external_body]
#[verifier::reject_recursive_types(H)]
pub struct ExBuildHasherDefault<H>(std::hash::BuildHasherDefault<H>);

/// The route index: from route key to the slot of the route in the table.
pub type RouteIndex = dashmap::DashMap<
    String,
    usize,
    std::hash::BuildHasherDefault<ahash::AHasher>,
>;

/// The bytes that a `Bytes` value holds.
pub uninterp spec fn bytes_content(b: bytes::Bytes) -> Seq<u8>;

/// The entries of a route index: for each key it holds, the slot stored
/// under it.
pub uninterp spec fn index_entries(
    index: dashmap::DashMap<String, usize, std::hash::BuildHasherDefault<ahash::AHasher>>,
) -> Map<Seq<char>, usize>;

/// `Bytes::from_static` on the bytes of a string: the result holds exactly
/// those bytes.
#[verifier::external_body]
pub(crate) fn bytes_from_static(text: &'static str) -> (b: bytes::Bytes)
    ensures
        bytes_content(b) == text.spec_bytes(),
{
    bytes::Bytes::from_static(text.as_bytes())
}

/// `Bytes::from` on a `String`: the result holds the bytes of the string's
/// UTF-8 encoding.
#[verifier::external_body]
pub(crate) fn bytes_from_string(text: String) -> (b: bytes::Bytes)
    ensures
        bytes_content(b) == vstd::utf8::encode_utf8(text@),
{
    bytes::Bytes::from(text)
}

/// `Bytes::len`: the number of bytes held.
#[verifier::external_body]
pub(crate) fn bytes_len(b: &bytes::Bytes) -> (n: usize)
    ensures
        n == bytes_content(*b).len(),
{
    b.len()
}

/// `simd_json::serde::from_slice`, on a copy of the body since the decoder
/// rewrites its input: the document that the body holds, or `None` where
/// the decoder reports an error.
#[verifier::external_body]
pub(crate) fn simd_decode(body: &[u8]) -> (value: Option<serde_json::Value>)
    ensures
        value == simd_json_value(body@),
{
    let mut scratch = body.to_vec();
    simd_json::serde::from_slice::<serde_json::Value>(&mut scratch).ok()
}

/// `serde_json::from_slice`: the document that the body holds, or `None`
/// where the decoder reports an error.
#[verifier::external_body]
pub(crate) fn serde_decode(body: &[u8]) -> (value: Option<serde_json::Value>)
    ensures
        value == serde_json_value(body@),
{
    serde_json::from_slice::<serde_json::Value>(body).ok()
}

/// A number as a status code: itself where it is at least 100 and below
/// 1000, nothing otherwise.
pub open spec fn status_in_range(number: u16) -> Option<u16> {
    if 100 <= number && number <= 999 {
        Some(number)
    } else {
        None
    }
}

/// `hyper::StatusCode::from_u16`: a number is a status code if it is at
/// least 100 and below 1000, and the code then has that number.
#[verifier::external_body]
pub(crate) fn status_code(number: u16) -> (code: Option<u16>)
    ensures
        code == status_in_range(number),
{
    hyper::StatusCode::from_u16(number).ok().map(|status| status.as_u16())
}

/// `simd_json::to_writer` into an empty buffer, turned into a `String`: the
/// text of the document, or `None` where the writer reports an error or
/// what it wrote is no UTF-8.
#[verifier::external_body]
pub(crate) fn simd_to_text(value: &serde_json::Value) -> (text: Option<String>)
    ensures
        match text {
            Some(written) => simd_json_text(*value) == Some(written@),
            None => simd_json_text(*value) is None,
        },
{
    let mut buffer: Vec<u8> = Vec::new();
    simd_json::to_writer(&mut buffer, value).ok()?;
    String::from_utf8(buffer).ok()
}

/// `to_string` on a `serde_json::Value`: the text of the document.
#[verifier::external_body]
pub(crate) fn serde_to_text(value: &serde_json::Value) -> (text: String)
    ensures
        text@ == serde_json_text(*value),
{
    value.to_string()
}

/// `str::to_uppercase`: the upper-case form of the text.
#[verifier::external_body]
pub(crate) fn to_uppercase(text: &str) -> (upper: String)
    ensures
        upper@ == uppercased(text@),
{
    text.to_uppercase()
}

/// `itoa::Buffer::format`: the decimal digits of the number, most
/// significant first, without sign or padding.
#[verifier::external_body]
pub(crate) fn format_decimal(n: usize) -> (text: String)
    ensures
        text@ == decimal(n as nat),
{
    itoa::Buffer::new().format(n).to_owned()
}

/// `DashMap::with_capacity_and_hasher`: a new map holds no entry, whatever
/// capacity is asked for. The capacity is kept small enough for the map to
/// round it up to its number of shards.
#[verifier::external_body]
pub(crate) fn index_with_capacity(capacity: usize) -> (index: RouteIndex)
    requires
        capacity <= 0x10000,
    ensures
        index_entries(index) == (Map::<Seq<char>, usize>::empty()),
{
    dashmap::DashMap::with_capacity_and_hasher(capacity, std::hash::BuildHasherDefault::default())
}

/// `DashMap::insert`: afterwards the key maps to the new slot, and every
/// other key to what it mapped to before.
#[verifier::external_body]
pub(crate) fn index_insert(
    index: &mut RouteIndex,
    key: String,
    slot: usize,
)
    ensures
        index_entries(*final(index)) == index_entries(*old(index)).insert(key@, slot),
{
    index.insert(key, slot);
}

/// `DashMap::get`: the slot stored under the key, if the map holds the key.
#[verifier::external_body]
pub(crate) fn index_get(
    index: &RouteIndex,
    key: &str,
) -> (slot: Option<usize>)
    ensures
        slot == (if index_entries(*index).contains_key(key@) {
            Some(index_entries(*index)[key@])
        } else {
            None
        }),
{
    index.get(key).map(|entry| *entry.value())
}

/// `DashMap::iter`: walks every entry once, in an order that the hasher
/// decides. The result lists the entries in the order walked: each listed
/// pair is an entry, each key of the map is listed, and none twice.
#[verifier::external_body]
pub(crate) fn index_list(index: &RouteIndex) -> (list: Vec<(String, usize)>)
    ensures
        forall|i: int|
            0 <= i < list.len() ==> index_entries(*index).contains_key(#[trigger] list[i].0@)
                && index_entries(*index)[list[i].0@] == list[i].1,
        forall|k: Seq<char>|
            index_entries(*index).contains_key(k) ==> exists|i: int|
                0 <= i < list.len() && #[trigger] list[i].0@ == k,
        forall|i: int, j: int|
            0 <= i < j < list.len() ==> #[trigger] list[i].0@ != #[trigger] list[j].0@,
{
    index.iter().map(|entry| (entry.key().clone(), *entry.value())).collect()
}

} // verus!
