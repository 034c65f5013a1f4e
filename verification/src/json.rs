//! A JSON document as the proxy reads and writes it: request payloads, solver
//! replies and the bodies of its own answers.
use vstd::prelude::*;

verus! {

/// A JSON number. Integers are kept exactly; any other number is kept as the
/// text that writes it.
#[derive(Clone, Debug, PartialEq)]
pub enum JsonNumber {
    /// A non-negative integer.
    PosInt(u64),
    /// A negative integer.
    NegInt(i64),
    /// A number with a fraction or an exponent, by its text.
    Float(String),
}

/// One member of a JSON object.
#[derive(Debug, PartialEq)]
pub struct JsonEntry {
    pub key: String,
    pub value: Json,
}

/// A JSON value. An object is its members in order; a well-formed object holds
/// each key once (see [`Json::distinct_keys`]).
#[derive(Debug, PartialEq)]
pub enum Json {
    Null,
    Bool(bool),
    Number(JsonNumber),
    String(String),
    Array(Vec<Json>),
    Object(Vec<JsonEntry>),
}

/// The value of the first member of `entries` named `key`.
pub open spec fn entries_get(entries: Seq<JsonEntry>, key: Seq<char>) -> Option<Json>
    decreases entries.len(),
{
    if entries.len() == 0 {
        None
    } else if entries[0].key@ == key {
        Some(entries[0].value)
    } else {
        entries_get(entries.drop_first(), key)
    }
}

/// No two members of `entries` share a key.
pub open spec fn entries_distinct(entries: Seq<JsonEntry>) -> bool {
    forall|i: int, j: int|
        0 <= i < entries.len() && 0 <= j < entries.len() && i != j ==> #[trigger] entries[i].key@
            != #[trigger] entries[j].key@
}

proof fn lemma_get_absent(entries: Seq<JsonEntry>, key: Seq<char>)
    requires
        forall|i: int| 0 <= i < entries.len() ==> #[trigger] entries[i].key@ != key,
    ensures
        entries_get(entries, key) is None,
    decreases entries.len(),
{
    if entries.len() > 0 {
        assert(entries[0].key@ != key);
        assert forall|i: int| 0 <= i < entries.drop_first().len() implies #[trigger] entries.drop_first()[i].key@
            != key by {
            assert(entries.drop_first()[i] == entries[i + 1]);
        }
        lemma_get_absent(entries.drop_first(), key);
    }
}

proof fn lemma_get_found(entries: Seq<JsonEntry>, key: Seq<char>, i: int)
    requires
        0 <= i < entries.len(),
        entries[i].key@ == key,
        forall|j: int| 0 <= j < i ==> #[trigger] entries[j].key@ != key,
    ensures
        entries_get(entries, key) == Some(entries[i].value),
    decreases entries.len(),
{
    if i > 0 {
        assert(entries[0].key@ != key);
        assert forall|j: int| 0 <= j < i - 1 implies #[trigger] entries.drop_first()[j].key@
            != key by {
            assert(entries.drop_first()[j] == entries[j + 1]);
        }
        lemma_get_found(entries.drop_first(), key, i - 1);
    }
}

proof fn lemma_get_push(entries: Seq<JsonEntry>, e: JsonEntry, key: Seq<char>)
    requires
        forall|i: int| 0 <= i < entries.len() ==> #[trigger] entries[i].key@ != e.key@,
    ensures
        entries_get(entries.push(e), key) == if key == e.key@ {
            Some(e.value)
        } else {
            entries_get(entries, key)
        },
    decreases entries.len(),
{
    if entries.len() == 0 {
        assert(entries.push(e)[0] == e);
        assert(entries.push(e).drop_first() =~= Seq::<JsonEntry>::empty());
        assert(entries_get(Seq::<JsonEntry>::empty(), key) is None);
        assert(entries_get(entries, key) is None);
    } else {
        assert(entries.push(e)[0] == entries[0]);
        assert(entries.push(e).drop_first() =~= entries.drop_first().push(e));
        assert forall|i: int| 0 <= i < entries.drop_first().len() implies #[trigger] entries.drop_first()[i].key@
            != e.key@ by {
            assert(entries.drop_first()[i] == entries[i + 1]);
        }
        lemma_get_push(entries.drop_first(), e, key);
    }
}

proof fn lemma_get_update(entries: Seq<JsonEntry>, i: int, e: JsonEntry, key: Seq<char>)
    requires
        0 <= i < entries.len(),
        entries[i].key@ == e.key@,
        forall|j: int| 0 <= j < i ==> #[trigger] entries[j].key@ != e.key@,
    ensures
        entries_get(entries.update(i, e), key) == if key == e.key@ {
            Some(e.value)
        } else {
            entries_get(entries, key)
        },
    decreases entries.len(),
{
    if i == 0 {
        assert(entries.update(i, e)[0] == e);
        assert(entries.update(i, e).drop_first() =~= entries.drop_first());
    } else {
        assert(entries.update(i, e)[0] == entries[0]);
        assert(entries.update(i, e).drop_first() =~= entries.drop_first().update(i - 1, e));
        assert forall|j: int| 0 <= j < i - 1 implies #[trigger] entries.drop_first()[j].key@
            != e.key@ by {
            assert(entries.drop_first()[j] == entries[j + 1]);
        }
        lemma_get_update(entries.drop_first(), i - 1, e, key);
    }
}

impl Json {
    /// The value of the member `key`, where `self` is an object that has one.
    pub open spec fn field(self, key: Seq<char>) -> Option<Json> {
        match self {
            Json::Object(entries) => entries_get(entries@, key),
            _ => None,
        }
    }

    /// The member `key` as a string, where it is one.
    pub open spec fn str_field(self, key: Seq<char>) -> Option<Seq<char>> {
        match self.field(key) {
            Some(Json::String(s)) => Some(s@),
            _ => None,
        }
    }

    /// The member `key` as an unsigned 64-bit integer, where it is one.
    pub open spec fn u64_field(self, key: Seq<char>) -> Option<u64> {
        match self.field(key) {
            Some(Json::Number(JsonNumber::PosInt(n))) => Some(n),
            _ => None,
        }
    }

    /// The member `key` as a boolean, where it is one.
    pub open spec fn bool_field(self, key: Seq<char>) -> Option<bool> {
        match self.field(key) {
            Some(Json::Bool(b)) => Some(b),
            _ => None,
        }
    }

    /// The number of members of an object (0 for any other value).
    pub open spec fn member_count(self) -> nat {
        match self {
            Json::Object(entries) => entries@.len(),
            _ => 0,
        }
    }

    /// Every key of an object occurs once; other values have no keys.
    pub open spec fn distinct_keys(self) -> bool {
        match self {
            Json::Object(entries) => entries_distinct(entries@),
            _ => true,
        }
    }

    /// An object with no members.
    pub fn empty_object() -> (res: Json)
        ensures
            res is Object,
            res.member_count() == 0,
            forall|k: Seq<char>| #[trigger] res.field(k) is None,
    {
        Json::Object(Vec::new())
    }

    /// The value of the member `key`, where `self` is an object that has one.
    pub fn get(&self, key: &str) -> (res: Option<&Json>)
        ensures
            match res {
                Some(v) => self.field(key@) == Some(*v),
                None => self.field(key@) is None,
            },
    {
        match self {
            Json::Object(entries) => match find_key(entries, key) {
                Some(i) => {
                    proof {
                        lemma_get_found(entries@, key@, i as int);
                    }
                    Some(&entries[i].value)
                },
                None => {
                    proof {
                        lemma_get_absent(entries@, key@);
                    }
                    None
                },
            },
            _ => None,
        }
    }

    /// The member `key` as a string, as `value.get(key).and_then(Value::as_str)` reads it.
    pub fn get_str(&self, key: &str) -> (res: Option<&str>)
        ensures
            match res {
                Some(s) => self.str_field(key@) == Some(s@),
                None => self.str_field(key@) is None,
            },
    {
        match self.get(key) {
            Some(Json::String(s)) => Some(s.as_str()),
            _ => None,
        }
    }

    /// The member `key` as a `u64`, as `value.get(key).and_then(Value::as_u64)` reads it.
    pub fn get_u64(&self, key: &str) -> (res: Option<u64>)
        ensures
            res == self.u64_field(key@),
    {
        match self.get(key) {
            Some(Json::Number(JsonNumber::PosInt(n))) => Some(*n),
            _ => None,
        }
    }

    /// Sets the member `key` of an object to `value`: the first member of that
    /// name takes the new value, or a new member is added at the end. Any other
    /// value is left as it is.
    pub fn insert(&mut self, key: String, value: Json)
        ensures
            (*old(self) is Object) ==> {
                &&& *final(self) is Object
                &&& final(self).field(key@) == Some(value)
                &&& forall|k: Seq<char>|
                    k != key@ ==> #[trigger] final(self).field(k) == old(self).field(k)
                &&& old(self).distinct_keys() ==> final(self).distinct_keys()
                &&& final(self).member_count() == if old(self).field(key@) is Some {
                    old(self).member_count()
                } else {
                    old(self).member_count() + 1
                }
            },
            !(*old(self) is Object) ==> *final(self) == *old(self),
    {
        let pos = match &*self {
            Json::Object(entries) => find_key(entries, key.as_str()),
            _ => None,
        };
        match self {
            Json::Object(entries) => {
                let ghost before = entries@;
                let e = JsonEntry { key, value };
                match pos {
                    Some(i) => {
                        proof {
                            assert forall|k: Seq<char>| #[trigger] entries_get(before.update(i as int, e), k)
                                == if k == e.key@ {
                                Some(e.value)
                            } else {
                                entries_get(before, k)
                            } by {
                                lemma_get_update(before, i as int, e, k);
                            }
                            lemma_get_found(before, e.key@, i as int);
                        }
                        entries.set(i, e);
                        assert(entries@ == before.update(i as int, e));
                        assert(entries_distinct(before) ==> entries_distinct(entries@)) by {
                            if entries_distinct(before) {
                                assert forall|a: int, b: int|
                                    0 <= a < entries@.len() && 0 <= b < entries@.len() && a
                                        != b implies #[trigger] entries@[a].key@
                                    != #[trigger] entries@[b].key@ by {
                                    assert(before[a].key@ != before[b].key@);
                                }
                            }
                        }
                    },
                    None => {
                        proof {
                            assert forall|k: Seq<char>| #[trigger] entries_get(before.push(e), k)
                                == if k == e.key@ {
                                Some(e.value)
                            } else {
                                entries_get(before, k)
                            } by {
                                lemma_get_push(before, e, k);
                            }
                            lemma_get_absent(before, e.key@);
                        }
                        entries.push(e);
                        assert(entries@ == before.push(e));
                        assert(entries_distinct(before) ==> entries_distinct(entries@)) by {
                            if entries_distinct(before) {
                                assert forall|a: int, b: int|
                                    0 <= a < entries@.len() && 0 <= b < entries@.len() && a
                                        != b implies #[trigger] entries@[a].key@
                                    != #[trigger] entries@[b].key@ by {
                                    if a < before.len() && b < before.len() {
                                        assert(before[a].key@ != before[b].key@);
                                    }
                                }
                            }
                        }
                    },
                }
            },
            _ => {},
        }
    }
}

/// The position of the first member of `entries` named `key`.
fn find_key(entries: &Vec<JsonEntry>, key: &str) -> (res: Option<usize>)
    ensures
        match res {
            Some(i) => {
                &&& i < entries@.len()
                &&& entries@[i as int].key@ == key@
                &&& forall|j: int| 0 <= j < i ==> #[trigger] entries@[j].key@ != key@
            },
            None => forall|j: int| 0 <= j < entries@.len() ==> #[trigger] entries@[j].key@ != key@,
        },
{
    let n = entries.len();
    let mut i: usize = 0;
    while i < n
        invariant
            n == entries@.len(),
            i <= n,
            forall|j: int| 0 <= j < i ==> #[trigger] entries@[j].key@ != key@,
        decreases n - i,
    {
        if crate::text::text_eq(entries[i].key.as_str(), key) {
            return Some(i);
        }
        i = i + 1;
    }
    None
}

} // verus!
