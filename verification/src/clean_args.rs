//! The arguments of the `clean` call: how the keys are written into them and read back.
use crate::key_text::{decode, decode_failure, encode, is_plain, lemma_text_is_plain, text_of};
use crate::plan::StateEntry;
use vstd::prelude::*;
use vstd::utf8::encode_utf8;

verus! {

/// The name of the one argument of `clean`.
pub const KEYS_FIELD: &'static str = "keys";

/// What a list of strings holds.
pub open spec fn string_views(strings: Seq<String>) -> Seq<Seq<char>> {
    strings.map_values(|s: String| s@)
}

/// What a list of byte vectors holds.
pub open spec fn byte_views(vectors: Seq<Vec<u8>>) -> Seq<Seq<u8>> {
    vectors.map_values(|v: Vec<u8>| v@)
}

/// The keys of `entries`, in order.
pub open spec fn keys_of(entries: Seq<StateEntry>) -> Seq<Seq<u8>> {
    entries.map_values(|e: StateEntry| e.key@)
}

/// The base64 texts of `keys`, in order.
pub open spec fn texts_of(keys: Seq<Seq<u8>>) -> Seq<Seq<char>> {
    keys.map_values(|k: Seq<u8>| text_of(k))
}

/// A string in double quotes.
pub open spec fn quoted(s: Seq<char>) -> Seq<char> {
    seq!['"'] + s + seq!['"']
}

/// The quoted `items` with commas between them.
pub open spec fn listed(items: Seq<Seq<char>>) -> Seq<char>
    decreases items.len(),
{
    if items.len() == 0 {
        Seq::empty()
    } else if items.len() == 1 {
        quoted(items[0])
    } else {
        quoted(items[0]) + seq![','] + listed(items.drop_first())
    }
}

/// The compact JSON object whose only member, `field`, is the list of `items`. None of the
/// strings holds a character that JSON escapes.
pub open spec fn json_object(field: Seq<char>, items: Seq<Seq<char>>) -> Seq<char> {
    seq!['{'] + quoted(field) + seq![':', '['] + listed(items) + seq![']', '}']
}

/// Whether no character of `s` is escaped in a JSON string.
pub open spec fn all_plain(s: Seq<char>) -> bool {
    forall|i: int| 0 <= i < s.len() ==> is_plain(#[trigger] s[i])
}

/// An error of the JSON serializer.
#[verifier::external_type_specification]
#[verifier::external_body]
pub struct ExJsonError(serde_json::Error);

/// Calls `serde_json::to_vec` on the map from `field` to `items`. Trusted: for strings that
/// need no escape it writes `json_object`, without blanks, in UTF-8, and does not fail, as
/// the map's keys are strings and writing to memory succeeds.
#[verifier::external_body]
fn write_json(field: &str, items: &Vec<String>) -> (r: Result<Vec<u8>, serde_json::Error>)
    requires
        all_plain(field@),
        forall|i: int| 0 <= i < items@.len() ==> all_plain(#[trigger] items@[i]@),
    ensures
        r is Ok,
        r->Ok_0@ == encode_utf8(json_object(field@, string_views(items@))),
{
    serde_json::to_vec(&std::collections::BTreeMap::from([(field, items)]))
}

/// The bytes of the arguments that hand `keys` to `clean`.
pub open spec fn args_bytes(keys: Seq<Seq<u8>>) -> Seq<u8> {
    encode_utf8(json_object(KEYS_FIELD@, texts_of(keys)))
}

/// The arguments of the `clean` call that removes `entries`: a JSON object whose member
/// `keys` lists their keys in base64.
pub fn clean_args(entries: &[StateEntry]) -> (args: Vec<u8>)
    ensures
        args@ == args_bytes(keys_of(entries@)),
        args@ == encode_utf8(
            json_object(
                "keys"@,
                Seq::new(entries@.len(), |i: int| text_of(entries@[i].key@)),
            ),
        ),
{
    let mut encoded: Vec<String> = Vec::new();
    for i in 0..entries.len()
        invariant
            encoded@.len() == i,
            forall|j: int|
                0 <= j < i ==> (#[trigger] encoded@[j])@ == text_of(entries@[j].key@),
    {
        encoded.push(encode(entries[i].key.as_slice()));
    }
    proof {
        assert(string_views(encoded@) =~= texts_of(keys_of(entries@)));
        assert(string_views(encoded@) =~= Seq::new(
            entries@.len(),
            |i: int| text_of(entries@[i].key@),
        ));
        assert forall|i: int| 0 <= i < encoded@.len() implies all_plain(
            #[trigger] encoded@[i]@,
        ) by {
            lemma_text_is_plain(entries@[i].key@);
        }
        reveal_strlit("keys");
    }
    write_json(KEYS_FIELD, &encoded).unwrap()
}

/// A key handed to `clean` is not canonical base64.
#[derive(Debug)]
pub struct BadKey {
    /// Position of the first such key.
    pub index: usize,
    /// What the decoder reported of it.
    pub source: base64::DecodeError,
}

/// Whether `text` is the base64 text of some key.
pub open spec fn is_key_text(text: Seq<char>) -> bool {
    exists|key: Seq<u8>| #[trigger] text_of(key) == text
}

/// The storage keys that a `clean` call with the argument `keys` removes, in order. The call
/// aborts, and removes nothing, where a key is no canonical base64.
pub fn clean(keys: &Vec<String>) -> (r: Result<Vec<Vec<u8>>, BadKey>)
    ensures
        match r {
            Ok(removed) => {
                &&& texts_of(byte_views(removed@)) == string_views(keys@)
                &&& removed@.len() == keys@.len()
                &&& forall|i: int|
                    0 <= i < keys@.len() ==> text_of((#[trigger] removed@[i])@) == keys@[i]@
            },
            Err(bad) => {
                &&& bad.index < keys@.len()
                &&& !is_key_text(keys@[bad.index as int]@)
                &&& forall|key: Seq<u8>| #[trigger] text_of(key) != keys@[bad.index as int]@
                &&& bad.source == decode_failure(keys@[bad.index as int]@)
                &&& forall|i: int| 0 <= i < bad.index ==> is_key_text(#[trigger] keys@[i]@)
            },
        },
{
    let mut removed: Vec<Vec<u8>> = Vec::new();
    for i in 0..keys.len()
        invariant
            removed@.len() == i,
            forall|j: int| 0 <= j < i ==> text_of((#[trigger] removed@[j])@) == keys@[j]@,
    {
        match decode(keys[i].as_str()) {
            Ok(key) => {
                removed.push(key);
            },
            Err(source) => {
                proof {
                    assert forall|j: int| 0 <= j < i implies is_key_text(#[trigger] keys@[j]@) by {
                        assert(text_of(removed@[j]@) == keys@[j]@);
                    }
                }
                return Err(BadKey { index: i, source });
            },
        }
    }
    assert(texts_of(byte_views(removed@)) =~= string_views(keys@));
    Ok(removed)
}

} // verus!
