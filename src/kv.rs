//! An in-memory key/value store reached by datagrams: each datagram is one
//! query, `version`, `key=value` (insert) or `key` (retrieve).

use vstd::prelude::*;
use vstd::string::*;
use vstd::utf8::{decode_utf8, valid_utf8};
use crate::text::concat_str;

verus! {

/// A parsed query.
#[derive(Debug, PartialEq, Eq)]
pub enum QueryType {
    Insert(String, String),
    Retrieve(String),
    Version,
}

/// The query that asks for the store's version.
pub open spec fn version_query() -> Seq<char> {
    "version"@
}

/// What `parse_query` makes of a text: `version` asks for the version; a text
/// with `=` inserts, the key ending at the first `=`; anything else retrieves.
pub open spec fn query_matches(s: Seq<char>, q: QueryType) -> bool {
    if s == version_query() {
        q is Version
    } else if s.contains('=') {
        q matches QueryType::Insert(k, v) && k@ + seq!['='] + v@ == s && !k@.contains('=')
    } else {
        q matches QueryType::Retrieve(k) && k@ == s
    }
}

/// Reads a query from the text of a datagram.
pub fn parse_query(query_string: &str) -> (r: QueryType)
    ensures
        query_matches(query_string@, r),
{
    let owned = String::from_str(query_string);
    let version = String::from_str("version");
    let is_version = owned.eq(&version);
    if is_version {
        return QueryType::Version;
    }
    assert(query_string@ != version_query());
    let n: usize = query_string.unicode_len();
    let mut i: usize = 0;
    while i < n
        invariant
            n == query_string@.len(),
            query_string@ != version_query(),
            i <= n,
            forall|k: int| 0 <= k < i ==> query_string@[k] != '=',
        decreases n - i,
    {
        if query_string.get_char(i) == '=' {
            let key = String::from_str(query_string.substring_char(0, i));
            let value = String::from_str(query_string.substring_char(i + 1, n));
            proof {
                let s = query_string@;
                assert(s.contains('=')) by {
                    assert(s[i as int] == '=');
                }
                assert(key@ + seq!['='] + value@ =~= s);
                assert(!key@.contains('=')) by {
                    if key@.contains('=') {
                        let k = choose|k: int| 0 <= k < key@.len() && key@[k] == '=';
                        assert(s[k] == '=');
                    }
                }
            }
            return QueryType::Insert(key, value);
        }
        i = i + 1;
    }
    assert(!query_string@.contains('=')) by {
        if query_string@.contains('=') {
            let k = choose|k: int| 0 <= k < query_string@.len() && query_string@[k] == '=';
            assert(query_string@[k] != '=');
        }
    }
    QueryType::Retrieve(owned)
}

/// Why a datagram could not be read.
#[derive(Debug, PartialEq, Eq)]
pub enum DecodeError {
    /// The datagram is not valid UTF-8.
    InvalidUtf8,
}

/// Relies on `std::str::from_utf8`: the text of valid UTF-8, nothing otherwise.
#[verifier::external_body]
fn text_from_utf8(bytes: &[u8]) -> (r: Option<String>)
    ensures
        r is Some <==> valid_utf8(bytes@),
        r matches Some(s) ==> s@ == decode_utf8(bytes@),
{
    match std::str::from_utf8(bytes) {
        Ok(s) => Some(String::from(s)),
        Err(_) => None,
    }
}

/// Cuts a stream of datagram payloads into queries: each payload gives one
/// frame (an empty one gives the empty text), and the call after a frame
/// answers that nothing more is buffered.
pub struct StringCodec {
    clear_buffer: bool,
}

impl StringCodec {
    /// Whether the last call gave a frame.
    pub closed spec fn spec_clear_buffer(&self) -> bool {
        self.clear_buffer
    }

    /// A codec ready for the first payload.
    pub fn new() -> (r: Self)
        ensures
            !r.spec_clear_buffer(),
    {
        StringCodec { clear_buffer: false }
    }

    /// After a frame, gives nothing and waits for the next payload. Otherwise
    /// takes the whole buffer as one frame of text; bytes that are not UTF-8
    /// are taken and refused.
    pub fn decode(&mut self, buffer: &mut Vec<u8>) -> (r: Result<Option<String>, DecodeError>)
        ensures
            old(self).spec_clear_buffer() ==> {
                &&& r == Ok::<Option<String>, DecodeError>(None)
                &&& !final(self).spec_clear_buffer()
                &&& final(buffer)@ == old(buffer)@
            },
            !old(self).spec_clear_buffer() ==> {
                &&& final(self).spec_clear_buffer()
                &&& final(buffer)@ == Seq::<u8>::empty()
                &&& valid_utf8(old(buffer)@) ==> (r matches Ok(Some(s)) && s@ == decode_utf8(old(buffer)@))
                &&& !valid_utf8(old(buffer)@) ==> r == Err::<Option<String>, DecodeError>(DecodeError::InvalidUtf8)
            },
    {
        if self.clear_buffer {
            self.clear_buffer = false;
            return Ok(None);
        }
        self.clear_buffer = true;
        let frame = text_from_utf8(buffer.as_slice());
        buffer.clear();
        match frame {
            Some(s) => Ok(Some(s)),
            None => Err(DecodeError::InvalidUtf8),
        }
    }
}

/// The keys and values held, one entry per key.
pub struct KeyValueStore {
    entries: Vec<(String, String)>,
}

impl KeyValueStore {
    /// The key of each entry, in order.
    pub closed spec fn keys(&self) -> Seq<Seq<char>> {
        self.entries@.map_values(|e: (String, String)| e.0@)
    }

    /// The index of an entry with key `k`.
    closed spec fn index_of(&self, k: Seq<char>) -> int {
        choose|i: int| 0 <= i < self.entries@.len() && self.entries@[i].0@ == k
    }

    /// Each key is held once.
    pub open spec fn wf(&self) -> bool {
        self.keys().no_duplicates()
    }
}

impl View for KeyValueStore {
    type V = Map<Seq<char>, Seq<char>>;

    closed spec fn view(&self) -> Map<Seq<char>, Seq<char>> {
        Map::new(
            |k: Seq<char>| exists|i: int| 0 <= i < self.entries@.len() && self.entries@[i].0@ == k,
            |k: Seq<char>| self.entries@[self.index_of(k)].1@,
        )
    }
}

impl KeyValueStore {
    /// An empty store.
    pub fn new() -> (r: Self)
        ensures
            r.wf(),
            r@ == Map::<Seq<char>, Seq<char>>::empty(),
    {
        let r = KeyValueStore { entries: Vec::new() };
        assert(r.keys() =~= Seq::<Seq<char>>::empty());
        assert(r@ =~= Map::<Seq<char>, Seq<char>>::empty());
        r
    }

    /// The number of keys.
    pub fn len(&self) -> (r: usize)
        requires
            self.wf(),
        ensures
            r == self@.dom().len(),
    {
        proof { self.lemma_dom_len(); }
        self.entries.len()
    }

    proof fn lemma_dom_len(&self)
        requires
            self.wf(),
        ensures
            self@.dom().len() == self.entries@.len(),
            self@.dom() == self.keys().to_set(),
    {
        assert(self@.dom() =~= self.keys().to_set()) by {
            assert forall|k: Seq<char>| self@.dom().contains(k) implies self.keys().to_set().contains(k) by {
                let i = choose|i: int| 0 <= i < self.entries@.len() && self.entries@[i].0@ == k;
                assert(self.keys()[i] == k);
            }
            assert forall|k: Seq<char>| self.keys().to_set().contains(k) implies self@.dom().contains(k) by {
                let i = choose|i: int| 0 <= i < self.keys().len() && self.keys()[i] == k;
                assert(self.entries@[i].0@ == k);
            }
        }
        self.keys().unique_seq_to_set();
    }

    /// The position of `key`, if it is held.
    fn find(&self, key: &String) -> (r: Option<usize>)
        requires
            self.wf(),
        ensures
            r is None ==> !self@.contains_key(key@),
            r matches Some(i) ==> {
                &&& i < self.entries@.len()
                &&& self.entries@[i as int].0@ == key@
                &&& self.index_of(key@) == i
                &&& self@.contains_key(key@)
                &&& self@[key@] == self.entries@[i as int].1@
            },
    {
        let mut i: usize = 0;
        while i < self.entries.len()
            invariant
                self.wf(),
                i <= self.entries@.len(),
                forall|k: int| 0 <= k < i ==> self.entries@[k].0@ != key@,
            decreases self.entries@.len() - i,
        {
            if self.entries[i].0 == *key {
                proof {
                    assert(self.entries@[i as int].0@ == key@);
                    let j = self.index_of(key@);
                    assert(self.entries@[j].0@ == key@);
                    assert(self.keys()[j] == self.entries@[j].0@);
                    assert(self.keys()[i as int] == self.entries@[i as int].0@);
                    assert(j == i);
                }
                return Some(i);
            }
            i = i + 1;
        }
        None
    }

    /// The value held under `key`.
    pub fn get(&self, key: &String) -> (r: Option<String>)
        requires
            self.wf(),
        ensures
            r is None <==> !self@.contains_key(key@),
            r matches Some(v) ==> v@ == self@[key@],
    {
        match self.find(key) {
            Some(i) => Some(self.entries[i].1.clone()),
            None => None,
        }
    }

    /// Sets the value under `key`, replacing any earlier one.
    pub fn insert(&mut self, key: String, value: String)
        requires
            old(self).wf(),
        ensures
            final(self).wf(),
            final(self)@ == old(self)@.insert(key@, value@),
    {
        let ghost k = key@;
        let ghost v = value@;
        match self.find(&key) {
            Some(i) => {
                self.entries.set(i, (key, value));
                proof {
                    assert(self.keys() =~= old(self).keys());
                    assert(self.entries@[i as int].0@ == k);
                    assert forall|k2: Seq<char>| old(self)@.insert(k, v).contains_key(k2) implies #[trigger] self@.contains_key(k2) by {
                        if k2 != k {
                            let j0 = old(self).index_of(k2);
                            assert(old(self).entries@[j0].0@ == k2);
                            assert(self.entries@[j0].0@ == k2);
                        }
                    }
                    assert forall|k2: Seq<char>| #[trigger] self@.contains_key(k2) implies old(self)@.insert(k, v).contains_key(k2) by {
                        let j = self.index_of(k2);
                        assert(self.entries@[j].0@ == k2);
                        if j != i {
                            assert(old(self).entries@[j].0@ == k2);
                        }
                    }
                    assert forall|k2: Seq<char>| #[trigger] self@.contains_key(k2) implies self@[k2] == old(self)@.insert(k, v)[k2] by {
                        let j = self.index_of(k2);
                        if k2 == k {
                            assert(self.keys()[j] == self.keys()[i as int]);
                        } else {
                            let j0 = old(self).index_of(k2);
                            assert(old(self).entries@[j0].0@ == k2);
                            assert(self.entries@[j0].0@ == k2);
                            assert(self.keys()[j] == self.keys()[j0]);
                        }
                    }
                    assert(self@ =~= old(self)@.insert(k, v));
                }
            },
            None => {
                self.entries.push((key, value));
                proof {
                    let n = old(self).entries@.len() as int;
                    assert(self.keys() =~= old(self).keys().push(k));
                    assert(!old(self).keys().contains(k)) by {
                        if old(self).keys().contains(k) {
                            let j = choose|j: int| 0 <= j < n && old(self).keys()[j] == k;
                            assert(old(self).entries@[j].0@ == k);
                        }
                    }
                    assert forall|a: int, b: int| 0 <= a < self.keys().len() && 0 <= b < self.keys().len() && a != b
                        implies self.keys()[a] != self.keys()[b] by {
                        if a == n {
                            assert(old(self).keys().contains(old(self).keys()[b]));
                        } else if b == n {
                            assert(old(self).keys().contains(old(self).keys()[a]));
                        }
                    }
                    assert(self.entries@[n].0@ == k);
                    assert forall|k2: Seq<char>| #[trigger] self@.contains_key(k2) implies self@[k2] == old(self)@.insert(k, v)[k2] by {
                        let j = self.index_of(k2);
                        if k2 == k {
                            assert(self.keys()[j] == self.keys()[n]);
                        } else {
                            let j0 = old(self).index_of(k2);
                            assert(old(self).entries@[j0].0@ == k2);
                            assert(self.entries@[j0].0@ == k2);
                            assert(self.keys()[j] == self.keys()[j0]);
                        }
                    }
                    assert forall|k2: Seq<char>| old(self)@.insert(k, v).contains_key(k2) implies #[trigger] self@.contains_key(k2) by {
                        if k2 != k {
                            let j0 = old(self).index_of(k2);
                            assert(self.entries@[j0].0@ == k2);
                        }
                    }
                    assert(self@ =~= old(self)@.insert(k, v));
                }
            },
        }
    }
}

/// The answer to a version query.
pub open spec fn version_text() -> Seq<char> {
    "version=Key-Value Store API v1"@
}

/// Runs a query on the store. `version` answers the version text; a
/// retrieve answers `key=value` when the key is held and nothing otherwise;
/// an insert sets the value and answers nothing.
pub fn execute_query(query: QueryType, key_value_db: &mut KeyValueStore) -> (r: Option<String>)
    requires
        old(key_value_db).wf(),
    ensures
        final(key_value_db).wf(),
        query is Version ==> (r matches Some(t) && t@ == version_text()) && final(key_value_db)@ == old(key_value_db)@,
        query matches QueryType::Retrieve(k) ==> {
            &&& final(key_value_db)@ == old(key_value_db)@
            &&& !old(key_value_db)@.contains_key(k@) ==> r is None
            &&& old(key_value_db)@.contains_key(k@) ==> (r matches Some(t) && t@ == k@ + seq!['='] + old(key_value_db)@[k@])
        },
        query matches QueryType::Insert(k, v) ==> {
            &&& r is None
            &&& final(key_value_db)@ == old(key_value_db)@.insert(k@, v@)
        },
{
    match query {
        QueryType::Version => Some(String::from_str("version=Key-Value Store API v1")),
        QueryType::Retrieve(key) => match key_value_db.get(&key) {
            Some(value) => {
                let mut text = concat_str(key.as_str(), "=");
                text.append(value.as_str());
                proof {
                    reveal_strlit("=");
                    assert("="@ =~= seq!['=']);
                }
                Some(text)
            },
            None => None,
        },
        QueryType::Insert(key, value) => {
            key_value_db.insert(key, value);
            None
        },
    }
}

} // verus!
