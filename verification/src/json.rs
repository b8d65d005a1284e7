//! A plain-value model of a JSON document, as the CLI hands it to the SDK.
//!
//! The parser only ever looks at one member of the top-level object (its
//! `"type"`), so the model is kept close to the shape of a parsed document:
//! objects keep their members in order, numbers keep the exact value they
//! were read with (a float by its IEEE-754 bit pattern).

use vstd::prelude::*;

verus! {

/// A JSON number, exactly as it was read.
#[derive(Debug, Clone, Copy, PartialEq, Eq, Structural)]
pub enum JsonNumber {
    /// A non-negative integer.
    PosInt(u64),
    /// A negative integer.
    NegInt(i64),
    /// A finite float, held by its IEEE-754 bit pattern.
    Float(u64),
}

/// A JSON value.
#[derive(Debug, PartialEq)]
pub enum Json {
    Null,
    Bool(bool),
    Number(JsonNumber),
    String(String),
    Array(Vec<Json>),
    /// The members of an object, in document order; in a parsed document
    /// their names are distinct (see [`Json::wf`]).
    Object(Vec<(String, Json)>),
}

/// Whether no two of `members` have the same name.
pub open spec fn names_distinct(members: Seq<(String, Json)>) -> bool {
    forall|i: int, j: int| 0 <= i < j < members.len() ==> members[i].0@ != members[j].0@
}

impl JsonNumber {
    /// A negative integer is below zero and a float is finite, as in a parsed document.
    pub open spec fn wf(self) -> bool {
        match self {
            JsonNumber::PosInt(_) => true,
            JsonNumber::NegInt(i) => i < 0,
            JsonNumber::Float(bits) => bits & 0x7ff0_0000_0000_0000u64 != 0x7ff0_0000_0000_0000u64,
        }
    }
}

/// The value of the first member named `key` among `members`.
pub open spec fn member_value(members: Seq<(String, Json)>, key: Seq<char>) -> Option<Json>
    decreases members.len(),
{
    if members.len() == 0 {
        None
    } else if members[0].0@ == key {
        Some(members[0].1)
    } else {
        member_value(members.drop_first(), key)
    }
}

impl Json {
    /// A value as a parsed document can be: every object, at any depth, has
    /// members of distinct names, and every number is well formed.
    pub open spec fn wf(self) -> bool
        decreases self,
    {
        match self {
            Json::Number(n) => n.wf(),
            Json::Array(items) => forall|i: int|
                0 <= i < items@.len() ==> (#[trigger] items@[i]).wf(),
            Json::Object(members) => {
                &&& names_distinct(members@)
                &&& forall|i: int| 0 <= i < members@.len() ==> (#[trigger] members@[i]).1.wf()
            },
            _ => true,
        }
    }

    /// What `get(key)` gives: the member `key` of an object, and nothing for
    /// any other kind of value.
    pub open spec fn spec_get(self, key: Seq<char>) -> Option<Json> {
        match self {
            Json::Object(members) => member_value(members@, key),
            _ => None,
        }
    }

    /// What `as_str()` gives: the text of a string, and nothing for any
    /// other kind of value.
    pub open spec fn spec_as_str(self) -> Option<Seq<char>> {
        match self {
            Json::String(s) => Some(s@),
            _ => None,
        }
    }

    /// Looks up the member `key` of an object.
    pub fn get(&self, key: &str) -> (res: Option<&Json>)
        ensures
            match res {
                Some(v) => self.spec_get(key@) == Some(*v),
                None => self.spec_get(key@) is None,
            },
    {
        match self {
            Json::Object(members) => {
                let wanted = key.to_owned();
                let n = members.len();
                let mut i: usize = 0;
                proof {
                    assert(members@.skip(0) =~= members@);
                }
                while i < n
                    invariant
                        n == members@.len(),
                        i <= n,
                        wanted@ == key@,
                        self.spec_get(key@) == member_value(members@, key@),
                        member_value(members@, key@) == member_value(members@.skip(i as int), key@),
                    decreases n - i,
                {
                    let entry = &members[i];
                    proof {
                        assert(members@.skip(i as int)[0] == members@[i as int]);
                        assert(members@.skip(i as int).drop_first() =~= members@.skip(i + 1));
                    }
                    if entry.0 == wanted {
                        assert(member_value(members@.skip(i as int), key@) == Some(entry.1));
                        return Some(&entry.1);
                    }
                    i = i + 1;
                }
                proof {
                    assert(members@.skip(i as int).len() == 0);
                }
                None
            },
            _ => None,
        }
    }

    /// In an object whose member names are distinct, `get` finds the one
    /// member of that name, wherever it stands.
    pub proof fn lemma_get_finds_the_member(self, i: int)
        requires
            self is Object,
            names_distinct(self->Object_0@),
            0 <= i < self->Object_0@.len(),
        ensures
            self.spec_get(self->Object_0@[i].0@) == Some(self->Object_0@[i].1),
    {
        let members = self->Object_0@;
        lemma_member_value_at(members, i);
    }

    /// The text of a string value.
    pub fn as_str(&self) -> (res: Option<&str>)
        ensures
            match res {
                Some(s) => self.spec_as_str() == Some(s@),
                None => self.spec_as_str() is None,
            },
    {
        match self {
            Json::String(s) => Some(s.as_str()),
            _ => None,
        }
    }
}

proof fn lemma_member_value_at(members: Seq<(String, Json)>, i: int)
    requires
        names_distinct(members),
        0 <= i < members.len(),
    ensures
        member_value(members, members[i].0@) == Some(members[i].1),
    decreases i,
{
    if i > 0 {
        let rest = members.drop_first();
        assert(members[0].0@ != members[i].0@);
        assert(rest[i - 1] == members[i]);
        assert(names_distinct(rest)) by {
            assert forall|a: int, b: int| 0 <= a < b < rest.len() implies rest[a].0@ != rest[b].0@ by {
                assert(rest[a] == members[a + 1]);
                assert(rest[b] == members[b + 1]);
            }
        }
        lemma_member_value_at(rest, i - 1);
    }
}

/// Looking up a name among members gives the value of the first member with
/// exactly that name, wherever it stands.
pub proof fn lemma_member_value_first(members: Seq<(String, Json)>, key: Seq<char>, i: int)
    requires
        0 <= i < members.len(),
        members[i].0@ == key,
        forall|j: int| 0 <= j < i ==> members[j].0@ != key,
    ensures
        member_value(members, key) == Some(members[i].1),
    decreases i,
{
    if i > 0 {
        let rest = members.drop_first();
        assert(members[0].0@ != key);
        assert(rest[i - 1] == members[i]);
        assert forall|j: int| 0 <= j < i - 1 implies rest[j].0@ != key by {
            assert(rest[j] == members[j + 1]);
        }
        lemma_member_value_first(rest, key, i - 1);
    }
}

/// Looking up a name that no member has gives nothing.
pub proof fn lemma_member_value_absent(members: Seq<(String, Json)>, key: Seq<char>)
    requires
        forall|j: int| 0 <= j < members.len() ==> members[j].0@ != key,
    ensures
        member_value(members, key) is None,
    decreases members.len(),
{
    if members.len() > 0 {
        let rest = members.drop_first();
        assert(members[0].0@ != key);
        assert forall|j: int| 0 <= j < rest.len() implies rest[j].0@ != key by {
            assert(rest[j] == members[j + 1]);
        }
        lemma_member_value_absent(rest, key);
    }
}

/// What `get` finds is always the value of a member named exactly `key`,
/// and the first such member: `get` gives `Some(v)` if and only if a member
/// has that name, wherever it stands, and nothing for a value that is not an
/// object.
pub proof fn lemma_get_finds_exactly_the_named_member(data: Json, key: Seq<char>)
    ensures
        !(data is Object) ==> data.spec_get(key) is None,
        data is Object ==> {
            let members = data->Object_0@;
            &&& (forall|j: int| 0 <= j < members.len() ==> members[j].0@ != key) ==> data.spec_get(key) is None
            &&& forall|i: int|
                0 <= i < members.len() && members[i].0@ == key
                    && (forall|j: int| 0 <= j < i ==> members[j].0@ != key)
                    ==> data.spec_get(key) == Some(members[i].1)
            &&& data.spec_get(key) is Some ==> exists|i: int|
                0 <= i < members.len() && members[i].0@ == key && data.spec_get(key) == Some(#[trigger] members[i].1)
        },
{
    if data is Object {
        let members = data->Object_0@;
        assert forall|i: int|
            0 <= i < members.len() && members[i].0@ == key
                && (forall|j: int| 0 <= j < i ==> members[j].0@ != key)
                implies data.spec_get(key) == Some(members[i].1) by {
            lemma_member_value_first(members, key, i);
        }
        if forall|j: int| 0 <= j < members.len() ==> members[j].0@ != key {
            lemma_member_value_absent(members, key);
        }
        if data.spec_get(key) is Some {
            if !(exists|i: int| 0 <= i < members.len() && members[i].0@ == key) {
                lemma_member_value_absent(members, key);
            } else {
                let i0 = choose|i: int| 0 <= i < members.len() && members[i].0@ == key;
                lemma_first_named(members, key, i0);
                let f = choose|f: int| 0 <= f <= i0 && members[f].0@ == key
                    && (forall|j: int| 0 <= j < f ==> members[j].0@ != key);
                lemma_member_value_first(members, key, f);
                assert(data.spec_get(key) == Some(members[f].1));
            }
        }
    }
}

proof fn lemma_first_named(members: Seq<(String, Json)>, key: Seq<char>, i: int)
    requires
        0 <= i < members.len(),
        members[i].0@ == key,
    ensures
        exists|f: int| 0 <= f <= i && members[f].0@ == key
            && (forall|j: int| 0 <= j < f ==> members[j].0@ != key),
    decreases i,
{
    if exists|j: int| 0 <= j < i && members[j].0@ == key {
        let j = choose|j: int| 0 <= j < i && members[j].0@ == key;
        lemma_first_named(members, key, j);
    } else {
        assert(forall|j: int| 0 <= j < i ==> members[j].0@ != key);
    }
}

} // verus!
