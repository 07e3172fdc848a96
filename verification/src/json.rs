//! JSON documents.
use vstd::prelude::*;
use crate::outside;
use crate::text;

verus! {

/// A number of a JSON document.
#[derive(Clone, Copy, Debug, PartialEq, Eq, Structural)]
pub enum JsonNumber {
    /// A whole number that is not negative.
    Unsigned(u64),
    /// A negative whole number.
    Negative(i64),
    /// Any other number, by the bits of its double-precision form.
    Float(u64),
}

/// A JSON document.
#[derive(Debug)]
pub enum Json {
    Null,
    Bool(bool),
    Number(JsonNumber),
    Text(String),
    Array(Vec<Json>),
    /// The members in order.
    Object(Vec<(String, Json)>),
}

/// What a JSON document says.
pub enum JsonTree {
    Null,
    Bool(bool),
    Number(JsonNumber),
    Text(Seq<char>),
    Array(Seq<JsonTree>),
    Object(Seq<(Seq<char>, JsonTree)>),
}

impl Json {
    /// What the document says.
    pub open spec fn tree(self) -> JsonTree
        decreases self,
    {
        match self {
            Json::Null => JsonTree::Null,
            Json::Bool(b) => JsonTree::Bool(b),
            Json::Number(n) => JsonTree::Number(n),
            Json::Text(s) => JsonTree::Text(s@),
            Json::Array(a) => JsonTree::Array(
                Seq::new(
                    a@.len(),
                    |i: int|
                        if 0 <= i < a@.len() {
                            a@[i].tree()
                        } else {
                            JsonTree::Null
                        },
                ),
            ),
            Json::Object(o) => JsonTree::Object(
                Seq::new(
                    o@.len(),
                    |i: int|
                        if 0 <= i < o@.len() {
                            (o@[i].0@, o@[i].1.tree())
                        } else {
                            (Seq::empty(), JsonTree::Null)
                        },
                ),
            ),
        }
    }
}

/// The value of the first member at or after number `i` with the name `key`.
pub open spec fn member_from(members: Seq<(Seq<char>, JsonTree)>, key: Seq<char>, i: int) -> Option<
    JsonTree,
>
    decreases members.len() - i,
{
    if i < 0 || i >= members.len() {
        None
    } else if members[i].0 == key {
        Some(members[i].1)
    } else {
        member_from(members, key, i + 1)
    }
}

/// The value of an optional document.
pub open spec fn opt_tree(o: Option<&Json>) -> Option<JsonTree> {
    match o {
        Some(j) => Some(j.tree()),
        None => None,
    }
}

impl JsonTree {
    /// The value of the member `key` of an object.
    pub open spec fn member(self, key: Seq<char>) -> Option<JsonTree> {
        match self {
            JsonTree::Object(members) => member_from(members, key, 0),
            _ => None,
        }
    }

    /// The text of a string.
    pub open spec fn as_text(self) -> Option<Seq<char>> {
        match self {
            JsonTree::Text(s) => Some(s),
            _ => None,
        }
    }

    /// The value of a whole number that is not negative.
    pub open spec fn as_unsigned(self) -> Option<u64> {
        match self {
            JsonTree::Number(JsonNumber::Unsigned(n)) => Some(n),
            _ => None,
        }
    }

    /// The value of a number.
    pub open spec fn as_number(self) -> Option<JsonNumber> {
        match self {
            JsonTree::Number(n) => Some(n),
            _ => None,
        }
    }

    /// The value of `true` or `false`.
    pub open spec fn as_bool(self) -> Option<bool> {
        match self {
            JsonTree::Bool(b) => Some(b),
            _ => None,
        }
    }

    /// The text of the member `key`, where it is a string.
    pub open spec fn text_member(self, key: Seq<char>) -> Option<Seq<char>> {
        match self.member(key) {
            Some(v) => v.as_text(),
            None => None,
        }
    }
}

impl Json {
    /// The value of the member `key` of an object.
    pub fn get<'a>(&'a self, key: &str) -> (r: Option<&'a Json>)
        ensures
            opt_tree(r) == self.tree().member(key@),
            r matches Some(j) ==> decreases_to!(self => j),
    {
        match self {
            Json::Object(members) => {
                let ghost list = self.tree()->Object_0;
                for i in 0..members.len()
                    invariant
                        *self == Json::Object(*members),
                        list == self.tree()->Object_0,
                        self.tree().member(key@) == member_from(list, key@, i as int),
                {
                    assert(list[i as int] == (members@[i as int].0@, members@[i as int].1.tree()));
                    if text::same(&members[i].0, key) {
                        let found = &members[i].1;
                        assert(decreases_to!(self => members@[i as int].1));
                        return Some(found);
                    }
                }
                None
            },
            _ => None,
        }
    }

    /// The text of a string.
    pub fn as_str<'a>(&'a self) -> (r: Option<&'a str>)
        ensures
            text::opt_str(r) == self.tree().as_text(),
    {
        match self {
            Json::Text(s) => Some(s.as_str()),
            _ => None,
        }
    }

    /// The value of a whole number that is not negative.
    pub fn as_u64(&self) -> (r: Option<u64>)
        ensures
            r == self.tree().as_unsigned(),
    {
        match self {
            Json::Number(JsonNumber::Unsigned(n)) => Some(*n),
            _ => None,
        }
    }

    /// The value of a number.
    pub fn as_number(&self) -> (r: Option<JsonNumber>)
        ensures
            r == self.tree().as_number(),
    {
        match self {
            Json::Number(n) => Some(*n),
            _ => None,
        }
    }

    /// The value of `true` or `false`.
    pub fn as_bool(&self) -> (r: Option<bool>)
        ensures
            r == self.tree().as_bool(),
    {
        match self {
            Json::Bool(b) => Some(*b),
            _ => None,
        }
    }

    /// Whether the document is `null`.
    pub fn is_null(&self) -> (r: bool)
        ensures
            r == (self.tree() is Null),
    {
        match self {
            Json::Null => true,
            _ => false,
        }
    }

    /// The text of the member `key`, where it is a string.
    pub fn get_str<'a>(&'a self, key: &str) -> (r: Option<&'a str>)
        ensures
            text::opt_str(r) == self.tree().text_member(key@),
    {
        match self.get(key) {
            Some(v) => v.as_str(),
            None => None,
        }
    }
}

proof fn lemma_member_from_smaller(members: Seq<(Seq<char>, JsonTree)>, key: Seq<char>, i: int)
    ensures
        member_from(members, key, i) matches Some(v) ==> decreases_to!(members => v),
    decreases members.len() - i,
{
    if 0 <= i < members.len() {
        if members[i].0 == key {
            assert(decreases_to!(members => members[i]));
            assert(decreases_to!(members[i] => members[i].1));
        } else {
            lemma_member_from_smaller(members, key, i + 1);
        }
    }
}

/// A member is smaller than its object.
pub proof fn lemma_member_smaller(t: JsonTree, key: Seq<char>)
    ensures
        t.member(key) matches Some(v) ==> decreases_to!(t => v),
{
    if let JsonTree::Object(members) = t {
        lemma_member_from_smaller(members, key, 0);
        assert(decreases_to!(t => members));
    }
}

/// The value of an optional document of its own.
pub open spec fn own_tree(o: Option<Json>) -> Option<JsonTree> {
    match o {
        Some(j) => Some(j.tree()),
        None => None,
    }
}

/// Reads a JSON document.
pub fn parse(bytes: &[u8]) -> (r: Option<Json>)
    ensures
        own_tree(r) == outside::json_parsed(bytes@),
{
    match outside::json_value(bytes) {
        Some(v) => Some(outside::json_of(v)),
        None => None,
    }
}

// ---------------------------------------------------------------------------
// Making documents
// ---------------------------------------------------------------------------

/// What a row of members says.
pub open spec fn members_tree(members: Seq<(String, Json)>) -> Seq<(Seq<char>, JsonTree)> {
    Seq::new(members.len(), |i: int| (members[i].0@, members[i].1.tree()))
}

/// What a row of documents says.
pub open spec fn trees(items: Seq<Json>) -> Seq<JsonTree> {
    Seq::new(items.len(), |i: int| items[i].tree())
}

/// The number, or `null` where there is none.
pub open spec fn size_tree(n: Option<usize>) -> JsonTree {
    match n {
        Some(v) => JsonTree::Number(JsonNumber::Unsigned(v as u64)),
        None => JsonTree::Null,
    }
}

/// Adds a member.
pub fn put(members: &mut Vec<(String, Json)>, key: &str, value: Json)
    ensures
        members_tree(final(members)@) == members_tree(old(members)@).push((key@, value.tree())),
{
    let ghost before = members_tree(members@);
    members.push((key.to_string(), value));
    assert(members_tree(members@) =~= before.push((key@, value.tree())));
}

/// The object with the given members.
pub fn object(members: Vec<(String, Json)>) -> (r: Json)
    ensures
        r.tree() == JsonTree::Object(members_tree(members@)),
{
    let r = Json::Object(members);
    assert(r.tree()->Object_0 =~= members_tree(members@));
    r
}

/// The array with the given elements.
pub fn array(items: Vec<Json>) -> (r: Json)
    ensures
        r.tree() == JsonTree::Array(trees(items@)),
{
    let r = Json::Array(items);
    assert(r.tree()->Array_0 =~= trees(items@));
    r
}

/// The string with the given text.
pub fn string(s: &str) -> (r: Json)
    ensures
        r.tree() == JsonTree::Text(s@),
{
    Json::Text(s.to_string())
}

/// The number, or `null` where there is none.
pub fn size(n: Option<usize>) -> (r: Json)
    ensures
        r.tree() == size_tree(n),
{
    match n {
        Some(v) => Json::Number(JsonNumber::Unsigned(v as u64)),
        None => Json::Null,
    }
}

/// The member of a document under a key is the first one with that key: it is there exactly
/// where some member has the key.
pub proof fn law_first_member_counts(members: Seq<(Seq<char>, JsonTree)>, key: Seq<char>)
    ensures
        match JsonTree::Object(members).member(key) {
            Some(v) => exists|i: int|
                0 <= i < members.len() && #[trigger] members[i].0 == key && members[i].1 == v
                    && forall|j: int| 0 <= j < i ==> (#[trigger] members[j]).0 != key,
            None => forall|i: int| 0 <= i < members.len() ==> (#[trigger] members[i]).0 != key,
        },
{
    lemma_first_member(members, key, 0);
}

proof fn lemma_first_member(members: Seq<(Seq<char>, JsonTree)>, key: Seq<char>, i: int)
    requires
        0 <= i,
    ensures
        match member_from(members, key, i) {
            Some(v) => exists|k: int|
                i <= k < members.len() && #[trigger] members[k].0 == key && members[k].1 == v
                    && forall|j: int| i <= j < k ==> (#[trigger] members[j]).0 != key,
            None => forall|k: int| i <= k < members.len() ==> (#[trigger] members[k]).0 != key,
        },
    decreases members.len() - i,
{
    if i < members.len() {
        if members[i].0 == key {
            assert(members[i].1 == member_from(members, key, i)->0);
        } else {
            lemma_first_member(members, key, i + 1);
            if let Some(v) = member_from(members, key, i + 1) {
                let k = choose|k: int|
                    i + 1 <= k < members.len() && #[trigger] members[k].0 == key && members[k].1
                        == v && forall|j: int|
                        i + 1 <= j < k ==> (#[trigger] members[j]).0 != key;
                assert(members[k].0 == key && members[k].1 == v);
            }
        }
    }
}

} // verus!
