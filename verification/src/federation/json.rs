//! JSON documents from other servers as plain values.

use vstd::prelude::*;
use vstd::string::*;

use crate::text::{
    contains, contains_text, eq_ignore_case, law_trim, lower, opt_str, opt_view, str_eq, trim,
    trim_text, CharClass,
};

verus! {

/// A JSON value.
pub enum JsonValue {
    Null,
    Bool(bool),
    /// A number, in the notation of the document.
    Number(String),
    Text(String),
    List(Vec<JsonValue>),
    /// The members of an object, each key once.
    Object(Vec<(String, JsonValue)>),
}

/// The first position from `i` on whose key is the given one.
pub open spec fn key_position(members: Seq<(String, JsonValue)>, key: Seq<char>, i: int) -> Option<
    int,
>
    decreases members.len() - i,
{
    if i < 0 || i >= members.len() {
        None
    } else if members[i].0@ == key {
        Some(i)
    } else {
        key_position(members, key, i + 1)
    }
}

/// The member of an object with the given key.
pub open spec fn member(value: JsonValue, key: Seq<char>) -> Option<JsonValue> {
    match value {
        JsonValue::Object(members) => match key_position(members@, key, 0) {
            Some(i) => Some(members@[i].1),
            None => None,
        },
        _ => None,
    }
}

pub open spec fn as_text(value: Option<JsonValue>) -> Option<Seq<char>> {
    match value {
        Some(JsonValue::Text(s)) => Some(s@),
        _ => None,
    }
}

pub open spec fn opt_value(r: Option<&JsonValue>) -> Option<JsonValue> {
    match r {
        Some(v) => Some(*v),
        None => None,
    }
}

impl JsonValue {
    /// The member with the given key, where the value is an object that has one.
    pub fn get(&self, key: &str) -> (r: Option<&JsonValue>)
        ensures
            opt_value(r) == member(*self, key@),
    {
        match self {
            JsonValue::Object(members) => {
                let mut i: usize = 0;
                while i < members.len()
                    invariant
                        i <= members.len(),
                        *self == JsonValue::Object(*members),
                        key_position(members@, key@, i as int) == key_position(members@, key@, 0),
                    decreases members.len() - i,
                {
                    if str_eq(members[i].0.as_str(), key) {
                        return Some(&members[i].1);
                    }
                    i = i + 1;
                }
                None
            },
            _ => None,
        }
    }

    /// The text, where the value is one.
    pub fn text(&self) -> (r: Option<&str>)
        ensures
            opt_str(r) == as_text(Some(*self)),
    {
        match self {
            JsonValue::Text(s) => Some(s.as_str()),
            _ => None,
        }
    }
}

/// A text that is not blank, without the space around it.
pub open spec fn filled(text: Option<Seq<char>>) -> Option<Seq<char>> {
    match text {
        Some(s) if trim(s).len() > 0 => Some(trim(s)),
        _ => None,
    }
}

fn filled_text(value: Option<&JsonValue>) -> (r: Option<String>)
    ensures
        opt_view(r) == filled(as_text(opt_value(value))),
{
    match value {
        Some(JsonValue::Text(s)) => {
            let trimmed: String = trim_text(s.as_str());
            if trimmed.as_str().is_empty() {
                None
            } else {
                Some(trimmed)
            }
        },
        _ => None,
    }
}

/// The text of a member that is not blank.
pub open spec fn member_text(value: JsonValue, key: Seq<char>) -> Option<Seq<char>> {
    filled(as_text(member(value, key)))
}

pub fn json_string(value: &JsonValue, key: &str) -> (r: Option<String>)
    ensures
        opt_view(r) == member_text(*value, key@),
{
    filled_text(value.get(key))
}

/// The value that the keys from position `i` on lead to, each within the value of the one before.
pub open spec fn value_at(value: JsonValue, path: Seq<&str>, i: int) -> Option<JsonValue>
    decreases path.len() - i,
{
    if i < 0 || i >= path.len() {
        Some(value)
    } else {
        match member(value, path[i]@) {
            Some(v) => value_at(v, path, i + 1),
            None => None,
        }
    }
}

/// The text at the end of a path of keys, where it is not blank.
pub open spec fn nested_text(value: JsonValue, path: Seq<&str>) -> Option<Seq<char>> {
    filled(as_text(value_at(value, path, 0)))
}

pub fn nested_json_string(value: &JsonValue, path: &[&str]) -> (r: Option<String>)
    ensures
        opt_view(r) == nested_text(*value, path@),
{
    let mut current: &JsonValue = value;
    let mut i: usize = 0;
    while i < path.len()
        invariant
            i <= path.len(),
            value_at(*current, path@, i as int) == value_at(*value, path@, 0),
        decreases path.len() - i,
    {
        match current.get(path[i]) {
            Some(v) => {
                current = v;
            },
            None => {
                return None;
            },
        }
        i = i + 1;
    }
    filled_text(Some(current))
}

// ---------------------------------------------------------------------------
// Icons
// ---------------------------------------------------------------------------
/// The address of the first entry from position `i` on that has one: a text, or an object with an
/// `href`.
pub open spec fn first_address(items: Seq<JsonValue>, i: int) -> Option<Seq<char>>
    decreases items.len() - i,
{
    if i < 0 || i >= items.len() {
        None
    } else {
        match items[i] {
            JsonValue::Text(s) => Some(trim(s@)),
            _ => match as_text(member(items[i], "href"@)) {
                Some(s) => Some(trim(s)),
                None => first_address(items, i + 1),
            },
        }
    }
}

/// The address of the icon of a user: the icon itself, its `url`, or one of a list under `url`.
pub open spec fn icon_address(value: JsonValue) -> Seq<char> {
    match member(value, "icon"@) {
        Some(JsonValue::Text(s)) => trim(s@),
        Some(icon) => match member(icon, "url"@) {
            Some(JsonValue::Text(s)) => trim(s@),
            Some(JsonValue::List(items)) => match first_address(items@, 0) {
                Some(s) => s,
                None => Seq::empty(),
            },
            _ => Seq::empty(),
        },
        None => Seq::empty(),
    }
}

fn first_address_of(items: &Vec<JsonValue>) -> (r: Option<String>)
    ensures
        opt_view(r) == first_address(items@, 0),
{
    let mut i: usize = 0;
    while i < items.len()
        invariant
            i <= items.len(),
            first_address(items@, i as int) == first_address(items@, 0),
        decreases items.len() - i,
    {
        match &items[i] {
            JsonValue::Text(s) => {
                return Some(trim_text(s.as_str()));
            },
            _ => {},
        }
        match items[i].get("href") {
            Some(JsonValue::Text(s)) => {
                return Some(trim_text(s.as_str()));
            },
            _ => {},
        }
        i = i + 1;
    }
    None
}

pub fn extract_remote_icon_url(value: &JsonValue) -> (r: String)
    ensures
        r@ == icon_address(*value),
{
    match value.get("icon") {
        Some(JsonValue::Text(s)) => trim_text(s.as_str()),
        Some(icon) => match icon.get("url") {
            Some(JsonValue::Text(s)) => trim_text(s.as_str()),
            Some(JsonValue::List(items)) => match first_address_of(items) {
                Some(s) => s,
                None => String::new(),
            },
            _ => String::new(),
        },
        None => String::new(),
    }
}

// ---------------------------------------------------------------------------
// Links to users
// ---------------------------------------------------------------------------
pub open spec fn text_or_empty(o: Option<Seq<char>>) -> Seq<char> {
    match o {
        Some(s) => s,
        None => Seq::empty(),
    }
}

/// The address that a link gives, if it leads to the document of a user.
pub open spec fn user_link(link: JsonValue) -> Option<Seq<char>> {
    let rel = text_or_empty(as_text(member(link, "rel"@)));
    let href = trim(text_or_empty(as_text(member(link, "href"@))));
    let kind = text_or_empty(as_text(member(link, "type"@)));
    if lower(rel) == lower("self"@) && href.len() > 0 && (contains_text(kind, "activity+json"@)
        || contains_text(kind, "ld+json"@) || kind.len() == 0) {
        Some(href)
    } else {
        None
    }
}

/// The address of the first link from position `i` on that leads to the document of a user.
pub open spec fn first_user_link(links: Seq<JsonValue>, i: int) -> Option<Seq<char>>
    decreases links.len() - i,
{
    if i < 0 || i >= links.len() {
        None
    } else {
        match user_link(links[i]) {
            Some(href) => Some(href),
            None => first_user_link(links, i + 1),
        }
    }
}

/// The address of the document of a user that a WebFinger answer gives.
pub open spec fn webfinger_actor(answer: JsonValue) -> Option<Seq<char>> {
    match member(answer, "links"@) {
        Some(JsonValue::List(links)) => first_user_link(links@, 0),
        _ => None,
    }
}

fn text_member<'a>(value: &'a JsonValue, key: &str) -> (r: &'a str)
    ensures
        r@ == text_or_empty(as_text(member(*value, key@))),
{
    match value.get(key) {
        Some(JsonValue::Text(s)) => s.as_str(),
        _ => {
            let empty: &'static str = "";
            proof {
                reveal_strlit("");
                assert(empty@ =~= Seq::<char>::empty());
            }
            empty
        },
    }
}

fn user_link_of(link: &JsonValue) -> (r: Option<String>)
    ensures
        opt_view(r) == user_link(*link),
{
    let rel: &str = text_member(link, "rel");
    let href: String = trim_text(text_member(link, "href"));
    let kind: &str = text_member(link, "type");
    if eq_ignore_case(rel, "self") && !href.as_str().is_empty() && (contains(kind, "activity+json")
        || contains(kind, "ld+json") || kind.is_empty()) {
        Some(href)
    } else {
        None
    }
}

/// Picks the address of the document of a user from a WebFinger answer.
pub fn webfinger_actor_url(answer: &JsonValue) -> (r: Option<String>)
    ensures
        opt_view(r) == webfinger_actor(*answer),
{
    match answer.get("links") {
        Some(JsonValue::List(links)) => {
            let mut i: usize = 0;
            while i < links.len()
                invariant
                    i <= links.len(),
                    member(*answer, "links"@) == Some(JsonValue::List(*links)),
                    first_user_link(links@, i as int) == first_user_link(links@, 0),
                decreases links.len() - i,
            {
                match user_link_of(&links[i]) {
                    Some(href) => {
                        return Some(href);
                    },
                    None => {},
                }
                i = i + 1;
            }
            None
        },
        _ => None,
    }
}

// ---------------------------------------------------------------------------
// What documents say
// ---------------------------------------------------------------------------
proof fn lemma_key_position(members: Seq<(String, JsonValue)>, key: Seq<char>, from: int, at: int)
    requires
        0 <= from <= at < members.len(),
        members[at].0@ == key,
        forall|j: int| from <= j < at ==> (#[trigger] members[j]).0@ != key,
    ensures
        key_position(members, key, from) == Some(at),
    decreases at - from,
{
    if from < at {
        assert(members[from].0@ != key);
        lemma_key_position(members, key, from + 1, at);
    }
}

proof fn lemma_no_key(members: Seq<(String, JsonValue)>, key: Seq<char>, from: int)
    requires
        0 <= from,
        forall|j: int| from <= j < members.len() ==> (#[trigger] members[j]).0@ != key,
    ensures
        key_position(members, key, from) is None,
    decreases members.len() - from,
{
    if from < members.len() {
        assert(members[from].0@ != key);
        lemma_no_key(members, key, from + 1);
    }
}

/// The member of an object under a key is the first with that key.
pub proof fn law_first_member_counts(members: Vec<(String, JsonValue)>, key: Seq<char>, at: int)
    requires
        0 <= at < members@.len(),
        members@[at].0@ == key,
        forall|j: int| 0 <= j < at ==> (#[trigger] members@[j]).0@ != key,
    ensures
        member(JsonValue::Object(members), key) == Some(members@[at].1),
{
    lemma_key_position(members@, key, 0, at);
}

/// There is no member under a key that an object does not have, nor in what is no object.
pub proof fn law_missing_members(value: JsonValue, key: Seq<char>)
    ensures
        value matches JsonValue::Object(members) ==> (forall|j: int|
            0 <= j < members@.len() ==> (#[trigger] members@[j]).0@ != key) ==> member(value, key)
            is None,
        !(value is Object) ==> member(value, key) is None,
{
    if let JsonValue::Object(members) = value {
        if forall|j: int| 0 <= j < members@.len() ==> (#[trigger] members@[j]).0@ != key {
            lemma_no_key(members@, key, 0);
        }
    }
}

/// The text of a member counts without the space around it, and not at all where it is blank.
pub proof fn law_member_texts(value: JsonValue, key: Seq<char>)
    ensures
        member(value, key) matches Some(JsonValue::Text(s)) ==> trim(s@).len() > 0 ==> member_text(
            value,
            key,
        ) == Some(trim(s@)),
        member(value, key) matches Some(JsonValue::Text(s)) ==> trim(s@).len() == 0 ==> member_text(
            value,
            key,
        ) is None,
        !(member(value, key) matches Some(JsonValue::Text(_))) ==> member_text(value, key) is None,
{
}

/// A path of two keys leads to the member under the second of the member under the first.
pub proof fn law_nested_texts(value: JsonValue, outer: &str, inner: &str)
    ensures
        member(value, outer@) matches Some(v) ==> nested_text(value, seq![outer, inner])
            == member_text(v, inner@),
        member(value, outer@) is None ==> nested_text(value, seq![outer, inner]) is None,
{
    let path = seq![outer, inner];
    reveal_with_fuel(value_at, 4);
    assert(path[0] == outer && path[1] == inner);
}

/// What an entry of a list gives as an address.
pub open spec fn gives_address(item: JsonValue, address: Seq<char>) -> bool {
    match item {
        JsonValue::Text(s) => trim(s@) == address,
        _ => member(item, "href"@) matches Some(JsonValue::Text(s)) && trim(s@) == address,
    }
}

/// Whether an entry of a list gives no address.
pub open spec fn gives_none(item: JsonValue) -> bool {
    !(item is Text) && !(member(item, "href"@) matches Some(JsonValue::Text(_)))
}

proof fn lemma_first_address(items: Seq<JsonValue>, from: int, at: int, address: Seq<char>)
    requires
        0 <= from <= at < items.len(),
        gives_address(items[at], address),
        forall|j: int| from <= j < at ==> gives_none(#[trigger] items[j]),
    ensures
        first_address(items, from) == Some(address),
    decreases at - from,
{
    if from < at {
        assert(gives_none(items[from]));
        lemma_first_address(items, from + 1, at, address);
    }
}

/// The icon of a user is a text, the text under its `url`, or the first address of the list there.
pub proof fn law_icon_addresses(value: JsonValue, icon: JsonValue, at: int, address: Seq<char>)
    requires
        member(value, "icon"@) == Some(icon),
    ensures
        icon matches JsonValue::Text(s) ==> icon_address(value) == trim(s@),
        member(icon, "url"@) matches Some(JsonValue::Text(s)) ==> !(icon is Text) ==> icon_address(
            value,
        ) == trim(s@),
        member(icon, "url"@) matches Some(JsonValue::List(items)) ==> !(icon is Text) ==> (0 <= at
            < items@.len() && gives_address(items@[at], address) && (forall|j: int|
            0 <= j < at ==> gives_none(#[trigger] items@[j]))) ==> icon_address(value) == address,
{
    if !(icon is Text) {
        if let Some(JsonValue::List(items)) = member(icon, "url"@) {
            if 0 <= at < items@.len() && gives_address(items@[at], address) && (forall|j: int|
                0 <= j < at ==> gives_none(#[trigger] items@[j])) {
                lemma_first_address(items@, 0, at, address);
            }
        }
    }
}

/// A user without an icon has no address of one.
pub proof fn law_no_icon_no_address(value: JsonValue)
    requires
        member(value, "icon"@) is None,
    ensures
        icon_address(value).len() == 0,
{
}

/// Whether a link leads to a document of a user: it says so, has an address, and its kind is one of
/// the two notations or is not given.
pub open spec fn leads_to_user(link: JsonValue, address: Seq<char>) -> bool {
    &&& member(link, "rel"@) matches Some(JsonValue::Text(rel)) && lower(rel@) == "self"@
    &&& member(link, "href"@) matches Some(JsonValue::Text(href)) && trim(href@) == address
    &&& address.len() > 0
    &&& match member(link, "type"@) {
        Some(JsonValue::Text(kind)) => kind@.len() == 0 || contains_text(kind@, "activity+json"@)
            || contains_text(kind@, "ld+json"@),
        _ => true,
    }
}

/// A link gives the address that it leads to, and none where it leads to no user.
pub proof fn law_user_links(link: JsonValue, address: Seq<char>)
    ensures
        leads_to_user(link, address) <==> user_link(link) == Some(address),
{
    reveal_strlit("self");
    assert(lower("self"@) =~= "self"@);
    let rel = text_or_empty(as_text(member(link, "rel"@)));
    if rel.len() == 0 {
        assert(lower(rel).len() == 0);
    }
    let href = text_or_empty(as_text(member(link, "href"@)));
    if href.len() == 0 {
        law_trim(href, CharClass::White);
    }
}

proof fn lemma_first_user_link(links: Seq<JsonValue>, from: int, at: int)
    requires
        0 <= from <= at < links.len(),
        user_link(links[at]) is Some,
        forall|j: int| from <= j < at ==> user_link(#[trigger] links[j]) is None,
    ensures
        first_user_link(links, from) == user_link(links[at]),
    decreases at - from,
{
    if from < at {
        assert(user_link(links[from]) is None);
        lemma_first_user_link(links, from + 1, at);
    }
}

/// An answer gives the address of its first link that leads to a user, wherever that link stands.
pub proof fn law_first_user_link_counts(
    answer: JsonValue,
    links: Vec<JsonValue>,
    at: int,
    address: Seq<char>,
)
    requires
        member(answer, "links"@) == Some(JsonValue::List(links)),
        0 <= at < links@.len(),
        leads_to_user(links@[at], address),
        forall|j: int|
            0 <= j < at ==> (forall|a: Seq<char>|
                !#[trigger] leads_to_user(#[trigger] links@[j], a)),
    ensures
        webfinger_actor(answer) == Some(address),
{
    law_user_links(links@[at], address);
    assert forall|j: int| 0 <= j < at implies user_link(#[trigger] links@[j]) is None by {
        if let Some(a) = user_link(links@[j]) {
            law_user_links(links@[j], a);
        }
    }
    lemma_first_user_link(links@, 0, at);
}

/// What an answer gives is the address of one of its links that leads to a user.
pub proof fn law_user_links_come_from_the_answer(answer: JsonValue, links: Vec<JsonValue>)
    requires
        member(answer, "links"@) == Some(JsonValue::List(links)),
    ensures
        webfinger_actor(answer) matches Some(a) ==> exists|i: int|
            0 <= i < links@.len() && leads_to_user(#[trigger] links@[i], a),
{
    if let Some(a) = webfinger_actor(answer) {
        lemma_some_user_link(links@, 0);
        let i = choose|i: int| 0 <= i < links@.len() && user_link(#[trigger] links@[i]) == Some(a);
        law_user_links(links@[i], a);
    }
}

proof fn lemma_some_user_link(links: Seq<JsonValue>, from: int)
    requires
        0 <= from,
    ensures
        first_user_link(links, from) matches Some(a) ==> exists|i: int|
            from <= i < links.len() && user_link(#[trigger] links[i]) == Some(a),
    decreases links.len() - from,
{
    if from < links.len() {
        lemma_some_user_link(links, from + 1);
        if user_link(links[from]) is Some {
            assert(user_link(links[from]) == first_user_link(links, from));
        }
    }
}

} // verus!
