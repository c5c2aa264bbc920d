//! JSON, read and written through `serde_json`.
//!
//! A document is held as its text, and every reader here takes a text and
//! hands back plain values. What a text holds is `serde_json`'s to say, so
//! each reader's answer carries a name and nothing more is claimed of it.
use vstd::prelude::*;
use vstd::string::*;

use crate::text::same;

verus! {

/// What `serde_json` makes of a text that should be one JSON string.
pub uninterp spec fn json_text(json: Seq<char>) -> Option<Seq<char>>;

/// What `serde_json` makes of a text that should be one unsigned number.
pub uninterp spec fn json_number(json: Seq<char>) -> Option<u64>;

/// What `serde_json` makes of a text that should be one whole number.
pub uninterp spec fn json_integer(json: Seq<char>) -> Option<i64>;

/// The boolean a compact spelling is, when it is one.
pub open spec fn json_bool(json: Seq<char>) -> Option<bool> {
    if json == "true"@ {
        Some(true)
    } else if json == "false"@ {
        Some(false)
    } else {
        None
    }
}

/// The compact spelling `serde_json` gives the document a text holds.
pub uninterp spec fn json_compact(json: Seq<char>) -> Option<Seq<char>>;

/// The compact spelling of one member of the object a text holds.
pub uninterp spec fn json_field(json: Seq<char>, name: Seq<char>) -> Option<Seq<char>>;

/// The compact spellings of the items of the array a text holds.
pub uninterp spec fn json_items(json: Seq<char>) -> Option<Seq<Seq<char>>>;

/// The names of the members of the object a text holds, in its own order.
pub uninterp spec fn json_names(json: Seq<char>) -> Option<Seq<Seq<char>>>;

/// The object a text holds, with one member set to a string.
pub uninterp spec fn json_with(
    json: Seq<char>,
    name: Seq<char>,
    value: Seq<char>,
) -> Option<Seq<char>>;

/// What `serde_json` makes of bytes that should be one JSON document: its
/// compact spelling, or what is wrong with them.
pub uninterp spec fn json_document(bytes: Seq<u8>) -> Result<Seq<char>, Seq<char>>;

/// The object a text holds, with one member set to another document.
pub uninterp spec fn json_put(
    json: Seq<char>,
    name: Seq<char>,
    member: Seq<char>,
) -> Option<Seq<char>>;

/// A text, or nothing, by what it holds.
pub open spec fn held(text: Option<String>) -> Option<Seq<char>> {
    match text {
        Some(text) => Some(text@),
        None => None,
    }
}

/// A list of texts, or nothing, by what it holds.
pub open spec fn held_all(texts: Option<Vec<String>>) -> Option<Seq<Seq<char>>> {
    match texts {
        Some(texts) => Some(crate::text::views(texts@)),
        None => None,
    }
}

/// `serde_json::from_str` into a string: `Some` when the text is one JSON
/// string, holding what it spells.
#[verifier::external_body]
pub(crate) fn text(json: &str) -> (r: Option<String>)
    ensures
        held(r) == json_text(json@),
{
    serde_json::from_str::<String>(json).ok()
}

/// `serde_json::from_str` into a `u64`: `Some` when the text is one unsigned
/// number that fits.
#[verifier::external_body]
pub(crate) fn number(json: &str) -> (r: Option<u64>)
    ensures
        r == json_number(json@),
{
    serde_json::from_str::<u64>(json).ok()
}

/// `serde_json::from_str` into an `i64`: `Some` when the text is one whole
/// number that fits.
#[verifier::external_body]
pub(crate) fn integer(json: &str) -> (r: Option<i64>)
    ensures
        r == json_integer(json@),
{
    serde_json::from_str::<i64>(json).ok()
}

/// The boolean a compact spelling is, when it is one.
pub(crate) fn boolean(json: &str) -> (r: Option<bool>)
    ensures
        r == json_bool(json@),
{
    if same(json, "true") {
        Some(true)
    } else if same(json, "false") {
        Some(false)
    } else {
        None
    }
}

/// `serde_json::from_str` into a `serde_json::Value`, and its `to_string`:
/// `Some` when the text is one JSON document, holding its compact spelling.
#[verifier::external_body]
pub(crate) fn compact(json: &str) -> (r: Option<String>)
    ensures
        held(r) == json_compact(json@),
{
    serde_json::from_str::<serde_json::Value>(json).ok().map(|value| value.to_string())
}

/// `serde_json::from_str` into a `serde_json::Value`, its `get`, and the
/// member's `to_string`: one member of an object, as its compact spelling.
/// `None` when the text is no object or has no such member.
#[verifier::external_body]
pub(crate) fn field(json: &str, name: &str) -> (r: Option<String>)
    ensures
        held(r) == json_field(json@, name@),
{
    let value = serde_json::from_str::<serde_json::Value>(json).ok()?;
    value.get(name).map(|member| member.to_string())
}

/// `serde_json::from_str` into a list of `serde_json::Value`: the items of an
/// array, each as its compact spelling, in order. `None` when the text is no
/// array.
#[verifier::external_body]
pub(crate) fn items(json: &str) -> (r: Option<Vec<String>>)
    ensures
        held_all(r) == json_items(json@),
{
    let items = serde_json::from_str::<Vec<serde_json::Value>>(json).ok()?;
    Some(items.iter().map(|item| item.to_string()).collect())
}

/// `serde_json::from_str` into a `serde_json::Map`: the names of an object's
/// members, in the order the map holds them. `None` when the text is no object.
#[verifier::external_body]
pub(crate) fn names(json: &str) -> (r: Option<Vec<String>>)
    ensures
        held_all(r) == json_names(json@),
{
    let members = serde_json::from_str::<serde_json::Map<String, serde_json::Value>>(json).ok()?;
    Some(members.keys().map(|name| name.to_string()).collect())
}

/// `serde_json::Map::new`, and its `to_string` as a `serde_json::Value`: the
/// object with no members, which has no names and no member of any name.
#[verifier::external_body]
pub(crate) fn object() -> (r: String)
    ensures
        r@ == "{}"@,
        json_names(r@) == Some(Seq::<Seq<char>>::empty()),
        json_compact(r@) is Some,
        forall|name: Seq<char>| #[trigger] json_field(r@, name) is None,
{
    serde_json::Value::Object(serde_json::Map::new()).to_string()
}

/// `serde_json::Map::insert`: an object with one member set to a string,
/// whatever that member was. `None` when the text is no object. The object
/// that comes back reads back as it was written: the member holds the string,
/// and every other member that held a string or an unsigned number still does.
#[verifier::external_body]
pub(crate) fn with_text(json: &str, name: &str, value: &str) -> (r: Option<String>)
    ensures
        held(r) == json_with(json@, name@, value@),
        r is Some <==> json_names(json@) is Some,
        r is Some ==> json_names(r->0@) is Some,
        r is Some ==> json_compact(r->0@) is Some,
        r is Some ==> text_of(r->0@, name@) == Some(value@),
        r is Some ==> forall|other: Seq<char>|
            other != name@ ==> #[trigger] text_of(r->0@, other) == text_of(json@, other),
        r is Some ==> forall|other: Seq<char>|
            other != name@ ==> #[trigger] number_of(r->0@, other) == number_of(json@, other),
{
    let mut members = serde_json::from_str::<serde_json::Map<String, serde_json::Value>>(json).ok()?;
    members.insert(name.to_string(), serde_json::Value::String(value.to_string()));
    Some(serde_json::Value::Object(members).to_string())
}

/// A document, or what is wrong with it, by what it holds.
pub open spec fn held_or(r: Result<String, String>) -> Result<Seq<char>, Seq<char>> {
    match r {
        Ok(text) => Ok(text@),
        Err(why) => Err(why@),
    }
}

/// `serde_json::from_slice` into a `serde_json::Value`, and its `to_string`:
/// the compact spelling of the document the bytes hold, or the message of the
/// error that says why they hold none.
#[verifier::external_body]
pub(crate) fn document(bytes: &[u8]) -> (r: Result<String, String>)
    ensures
        held_or(r) == json_document(bytes@),
{
    match serde_json::from_slice::<serde_json::Value>(bytes) {
        Ok(value) => Ok(value.to_string()),
        Err(err) => Err(err.to_string()),
    }
}

/// Whether a document holds neither members nor items.
pub open spec fn scalar(json: Seq<char>) -> bool {
    json_names(json) is None && json_items(json) is None
}

/// `serde_json::Map::insert`, with a document in place of a string. `None`
/// when the first text is no object or the second no document. Where the
/// object that comes back can be read, its new member reads as the document it
/// was set to, as far as that is a string or an unsigned number, and the other
/// members as they did. It always can when the member is a string, a number, a
/// boolean or `null`; a deeper one may take it past the nesting that
/// `serde_json` reads.
#[verifier::external_body]
pub(crate) fn with_member(json: &str, name: &str, member: &str) -> (r: Option<String>)
    ensures
        held(r) == json_put(json@, name@, member@),
        r is Some <==> (json_names(json@) is Some && json_compact(member@) is Some),
        r is Some && scalar(member@) ==> json_compact(r->0@) is Some,
        r is Some && json_compact(r->0@) is Some ==> json_names(r->0@) is Some,
        r is Some && json_compact(r->0@) is Some ==> json_field(r->0@, name@) is Some,
        r is Some && json_compact(r->0@) is Some ==> text_of(r->0@, name@) == json_text(member@),
        r is Some && json_compact(r->0@) is Some ==> number_of(r->0@, name@) == json_number(
            member@,
        ),
        r is Some && json_compact(r->0@) is Some ==> forall|other: Seq<char>|
            other != name@ ==> #[trigger] text_of(r->0@, other) == text_of(json@, other),
        r is Some && json_compact(r->0@) is Some ==> forall|other: Seq<char>|
            other != name@ ==> #[trigger] number_of(r->0@, other) == number_of(json@, other),
{
    let mut members = serde_json::from_str::<serde_json::Map<String, serde_json::Value>>(json).ok()?;
    let member = serde_json::from_str::<serde_json::Value>(member).ok()?;
    members.insert(name.to_string(), member);
    Some(serde_json::Value::Object(members).to_string())
}

/// `serde_json::Value::from` of a `u64`, and its `to_string`: the number in
/// decimal, which is a document that reads back as it.
#[verifier::external_body]
pub(crate) fn number_text(n: u64) -> (r: String)
    ensures
        r@ == crate::text::dec(n as nat),
        json_number(r@) == Some(n),
        json_compact(r@) is Some,
        scalar(r@),
{
    serde_json::Value::from(n).to_string()
}

/// The text of a string member of an object.
pub open spec fn text_of(json: Seq<char>, name: Seq<char>) -> Option<Seq<char>> {
    match json_field(json, name) {
        Some(member) => json_text(member),
        None => None,
    }
}

/// The value of an unsigned member of an object.
pub open spec fn number_of(json: Seq<char>, name: Seq<char>) -> Option<u64> {
    match json_field(json, name) {
        Some(member) => json_number(member),
        None => None,
    }
}

/// Whether a document spells a record of so many members: an object, or a list
/// of no more than that many items.
pub open spec fn is_record(json: Seq<char>, count: nat) -> bool {
    json_names(json) is Some || (json_items(json) matches Some(items) && items.len() <= count)
}

/// One member of a record, by its name in an object and by its place in a list.
pub open spec fn member_of(json: Seq<char>, name: Seq<char>, place: nat, count: nat) -> Option<
    Seq<char>,
> {
    match json_items(json) {
        Some(items) => if place < items.len() <= count {
            Some(items[place as int])
        } else {
            None
        },
        None => json_field(json, name),
    }
}

/// The text of a string member of a record.
pub open spec fn word_of(json: Seq<char>, name: Seq<char>, place: nat, count: nat) -> Option<
    Seq<char>,
> {
    match member_of(json, name, place, count) {
        Some(member) => json_text(member),
        None => None,
    }
}

/// The tag of a tagged record, as it is spelled: the member of that name of an
/// object, the first item of a list.
pub open spec fn tag_of(json: Seq<char>, name: Seq<char>) -> Option<Seq<char>> {
    match json_items(json) {
        Some(items) => if items.len() > 0 {
            Some(items[0])
        } else {
            None
        },
        None => json_field(json, name),
    }
}

/// The word a tag spells.
pub open spec fn tag_word_of(json: Seq<char>, name: Seq<char>) -> Option<Seq<char>> {
    match tag_of(json, name) {
        Some(tag) => json_text(tag),
        None => None,
    }
}

/// Whether a tag names a kind: by its word, or by its place in the order the
/// kinds are declared in.
pub open spec fn names_kind(tag: Option<Seq<char>>, word: Seq<char>, place: u64) -> bool {
    tag matches Some(tag) && (json_text(tag) == Some(word) || json_number(tag) == Some(place))
}

/// The word that spells a kind with nothing in it: a string, or the one member
/// of an object that holds nothing. What nothing is spelled as is `null`, and,
/// where `hollow`, an object without members too.
pub open spec fn bare_of(json: Seq<char>, hollow: bool) -> Option<Seq<char>> {
    match json_text(json) {
        Some(word) => Some(word),
        None => match json_names(json) {
            Some(names) => if names.len() == 1 {
                match json_field(json, names[0]) {
                    Some(member) => if member == "null"@ || (hollow && member == "{}"@) {
                        Some(names[0])
                    } else {
                        None
                    },
                    None => None,
                }
            } else {
                None
            },
            None => None,
        },
    }
}

/// Whether a document spells a record of so many members.
pub fn record(json: &str, count: usize) -> (r: bool)
    ensures
        r == is_record(json@, count as nat),
{
    if names(json).is_some() {
        return true;
    }
    match items(json) {
        Some(list) => {
            proof {
                assert(crate::text::views(list@).len() == list@.len());
            }
            list.len() <= count
        },
        None => false,
    }
}

/// One member of a record, by its name in an object and by its place in a list.
pub fn member(json: &str, name: &str, place: usize, count: usize) -> (r: Option<String>)
    ensures
        held(r) == member_of(json@, name@, place as nat, count as nat),
{
    match items(json) {
        Some(list) => {
            proof {
                assert(crate::text::views(list@).len() == list@.len());
            }
            if place < list.len() && list.len() <= count {
                proof {
                    assert(crate::text::views(list@)[place as int] == list@[place as int]@);
                }
                Some(list[place].clone())
            } else {
                None
            }
        },
        None => field(json, name),
    }
}

/// The text of a string member of a record.
pub fn word(json: &str, name: &str, place: usize, count: usize) -> (r: Option<String>)
    ensures
        held(r) == word_of(json@, name@, place as nat, count as nat),
{
    match member(json, name, place, count) {
        Some(member) => text(member.as_str()),
        None => None,
    }
}

/// The tag of a tagged record, as it is spelled.
pub fn tag(json: &str, name: &str) -> (r: Option<String>)
    ensures
        held(r) == tag_of(json@, name@),
{
    match items(json) {
        Some(list) => {
            proof {
                assert(crate::text::views(list@).len() == list@.len());
            }
            if list.len() > 0 {
                proof {
                    assert(crate::text::views(list@)[0] == list@[0]@);
                }
                Some(list[0].clone())
            } else {
                None
            }
        },
        None => field(json, name),
    }
}

/// The word a tag spells.
pub fn tag_word(json: &str, name: &str) -> (r: Option<String>)
    ensures
        held(r) == tag_word_of(json@, name@),
{
    match tag(json, name) {
        Some(tag) => text(tag.as_str()),
        None => None,
    }
}

/// Whether a tag names a kind, by its word or by its place.
pub fn tagged(tag: &Option<String>, word: &str, place: u64) -> (r: bool)
    ensures
        r == names_kind(held(*tag), word@, place),
{
    match tag {
        Some(tag) => {
            if let Some(spelled) = text(tag.as_str()) {
                if same(spelled.as_str(), word) {
                    return true;
                }
            }
            match number(tag.as_str()) {
                Some(n) => n == place,
                None => false,
            }
        },
        None => false,
    }
}

/// The word that spells a kind with nothing in it.
pub fn bare(json: &str, hollow: bool) -> (r: Option<String>)
    ensures
        held(r) == bare_of(json@, hollow),
{
    if let Some(word) = text(json) {
        return Some(word);
    }
    match names(json) {
        Some(list) => {
            proof {
                assert(crate::text::views(list@).len() == list@.len());
            }
            if list.len() != 1 {
                return None;
            }
            proof {
                assert(crate::text::views(list@)[0] == list@[0]@);
            }
            match field(json, list[0].as_str()) {
                Some(member) => if same(member.as_str(), "null") || (hollow && same(
                    member.as_str(),
                    "{}",
                )) {
                    Some(list[0].clone())
                } else {
                    None
                },
                None => None,
            }
        },
        None => None,
    }
}

/// One string out of an object.
pub fn text_field(json: &str, name: &str) -> (r: Option<String>)
    ensures
        held(r) == text_of(json@, name@),
{
    match field(json, name) {
        Some(member) => text(member.as_str()),
        None => None,
    }
}

/// One unsigned number out of an object.
pub fn number_field(json: &str, name: &str) -> (r: Option<u64>)
    ensures
        r == number_of(json@, name@),
{
    match field(json, name) {
        Some(member) => number(member.as_str()),
        None => None,
    }
}

/// Whether an object holds, under a name, a string that says this.
pub open spec fn says(json: Seq<char>, name: Seq<char>, said: Seq<char>) -> bool {
    &&& json_items(json) is None
    &&& json_field(json, name) matches Some(member) && json_text(member) == Some(said)
}

/// A member is read where it stands: in an object under its name, wherever that
/// is among the others; in an array at its place, where the array is no longer
/// than it may be. Its word is the string it spells, if it is one.
pub proof fn lemma_a_member_is_read_where_it_stands(
    json: Seq<char>,
    name: Seq<char>,
    place: nat,
    count: nat,
    said: Seq<char>,
)
    ensures
        json_items(json) is None ==> member_of(json, name, place, count) == json_field(json, name),
        json_items(json) matches Some(items) ==> match member_of(json, name, place, count) {
            Some(member) => place < items.len() && items.len() <= count && member
                == items[place as int],
            None => items.len() <= place || items.len() > count,
        },
        says(json, name, said) ==> word_of(json, name, place, count) == Some(said) && tag_word_of(
            json,
            name,
        ) == Some(said) && text_of(json, name) == Some(said),
        word_of(json, name, place, count) matches Some(word) ==> member_of(
            json,
            name,
            place,
            count,
        ) matches Some(member) && json_text(member) == Some(word),
        json_items(json) is None ==> tag_of(json, name) == json_field(json, name),
        json_items(json) matches Some(items) ==> (tag_of(json, name) is Some <==> items.len() > 0)
            && (items.len() > 0 ==> tag_of(json, name) == Some(items[0])),
{
}

/// A kind is named by its word or by its number, and by nothing else.
pub proof fn lemma_a_kind_has_a_word_and_a_number(tag: Seq<char>, word: Seq<char>, place: u64)
    ensures
        names_kind(Some(tag), word, place) <==> json_text(tag) == Some(word) || json_number(tag)
            == Some(place),
        !names_kind(None, word, place),
{
}

/// A word that stands for a choice is a string, or an object of that one name
/// with nothing in it: null, or where it may be hollow an empty object.
pub proof fn lemma_a_choice_is_a_word_alone(json: Seq<char>, word: Seq<char>, hollow: bool)
    ensures
        json_text(json) == Some(word) ==> bare_of(json, hollow) == Some(word),
        json_text(json) is None && json_names(json) is None ==> bare_of(json, hollow) is None,
        json_text(json) is None && json_names(json) == Some(seq![word]) ==> match json_field(
            json,
            word,
        ) {
            Some(member) => bare_of(json, hollow) == if member == "null"@ || hollow && member
                == "{}"@ {
                Some(word)
            } else {
                None
            },
            None => bare_of(json, hollow) is None,
        },
        json_text(json) is None && (json_names(json) matches Some(names) && names.len() != 1)
            ==> bare_of(json, hollow) is None,
{
}

/// A text and a number are read out of the member of that name and no other, and
/// there is none where the member is missing or is something else.
pub proof fn lemma_a_field_is_read_by_its_name(json: Seq<char>, name: Seq<char>)
    ensures
        json_field(json, name) matches Some(member) ==> text_of(json, name) == json_text(member)
            && number_of(json, name) == json_number(member),
        json_field(json, name) is None ==> text_of(json, name) is None && number_of(json, name)
            is None,
{
}

/// A truth value is one of two words, and never both.
pub proof fn lemma_true_is_not_false(json: Seq<char>)
    ensures
        json_bool(json) == Some(true) <==> json == "true"@,
        json_bool(json) == Some(false) <==> json == "false"@,
        json_bool(json) is None <==> json != "true"@ && json != "false"@,
{
    reveal_strlit("true");
    reveal_strlit("false");
    assert("true"@.len() != "false"@.len());
}

/// A record is an object, or an array no longer than its members are many.
pub proof fn lemma_a_record_is_no_longer_than_it_may_be(json: Seq<char>, count: nat)
    ensures
        json_names(json) is Some ==> is_record(json, count),
        json_names(json) is None ==> (is_record(json, count) <==> (json_items(json)
            matches Some(items) && items.len() <= count)),
{
}

/// Whether a text holds, under a name, a string that says this.
pub open spec fn spells(json: Seq<char>, name: Seq<char>, said: Seq<char>) -> bool {
    json_field(json, name) matches Some(member) && json_text(member) == Some(said)
}

/// Whether a text holds, under a name, this number.
pub open spec fn counts(json: Seq<char>, name: Seq<char>, n: u64) -> bool {
    json_field(json, name) matches Some(member) && json_number(member) == Some(n)
}

} // verus!
