//! The boundary to handlers that run in another language.
//!
//! Such a handler is a callback kept by its binding under the hash of its
//! route. A request is handed to the callback and the binding waits for the
//! answer, for at most thirty seconds. The engine decides what is answered
//! for each way in which that exchange can end, counts the calls of each
//! callback, and orders those counts for inspection. The exchange itself is
//! the binding's.

use crate::cache::bumped;
use crate::key::{fast_hash, key_hash};
use crate::methods::{method_of_name, Method};
use crate::options::ResponseData;
use crate::outside::{
    bytes_from_static, bytes_from_string, serde_json_text, serde_to_text, simd_json_text,
    simd_to_text, to_uppercase, uppercased,
};
use serde_json::Value;
use std::collections::HashMap;
use vstd::prelude::*;
use vstd::std_specs::hash::spec_hash_map_iter;
use vstd::std_specs::iter::IteratorSpec;
use vstd::string::StringExecFns;
use vstd::string::StringSliceAdditionalSpecFns;
use vstd::utf8::encode_utf8;

verus! {

broadcast use vstd::std_specs::hash::group_hash_axioms;

/// The body of the answer where no callback is kept for the route.
pub const ROUTE_NOT_FOUND_BODY: &'static str = "{\"error\":\"Route not found\"}";

/// The body of the answer where the callback did not answer in time.
pub const CALLBACK_TIMEOUT_BODY: &'static str = "{\"error\":\"Callback timeout\"}";

/// The body of the answer where the callback's answer could not be
/// delivered.
pub const CALLBACK_FAILED_BODY: &'static str = "{\"error\":\"Callback failed\"}";

/// The seconds that the binding waits for a callback's answer.
pub const CALLBACK_TIMEOUT_SECS: u64 = 30;

/// How the exchange with a callback ended.
pub enum CallbackOutcome {
    /// The callback answered with a body and a status.
    Returned { data: String, status: u16 },
    /// No answer came within the time allowed.
    TimedOut,
    /// The answer could not be delivered.
    Disconnected,
}

/// What is answered for the way an exchange ended: the callback's own
/// body and status where it answered, 504 where it ran out of time, 500
/// where its answer could not be delivered.
pub open spec fn callback_answer(outcome: CallbackOutcome, response: ResponseData) -> bool {
    match outcome {
        CallbackOutcome::Returned { data, status } => {
            &&& response.status_code == status
            &&& response.body() == encode_utf8(data@)
        },
        CallbackOutcome::TimedOut => {
            &&& response.status_code == 504
            &&& response.body() == CALLBACK_TIMEOUT_BODY.spec_bytes()
        },
        CallbackOutcome::Disconnected => {
            &&& response.status_code == 500
            &&& response.body() == CALLBACK_FAILED_BODY.spec_bytes()
        },
    }
}

/// The answer to a request for whose route no callback is kept: status 404
/// and the fixed body `{"error":"Route not found"}`.
pub fn route_not_found_response() -> (response: ResponseData)
    ensures
        response.status_code == 404,
        response.body() == ROUTE_NOT_FOUND_BODY.spec_bytes(),
{
    ResponseData { data: bytes_from_static(ROUTE_NOT_FOUND_BODY), status_code: 404 }
}

/// The answer for the way the exchange with a callback ended.
pub fn callback_response(outcome: CallbackOutcome) -> (response: ResponseData)
    ensures
        callback_answer(outcome, response),
{
    match outcome {
        CallbackOutcome::Returned { data, status } => ResponseData {
            data: bytes_from_string(data),
            status_code: status,
        },
        CallbackOutcome::TimedOut => ResponseData {
            data: bytes_from_static(CALLBACK_TIMEOUT_BODY),
            status_code: 504,
        },
        CallbackOutcome::Disconnected => ResponseData {
            data: bytes_from_static(CALLBACK_FAILED_BODY),
            status_code: 500,
        },
    }
}

/// The text of the two writers' results: that of the fast one where it has
/// one, else that of the other.
pub open spec fn serialized(value: Value) -> Seq<char> {
    match simd_json_text(value) {
        Some(text) => text,
        None => serde_json_text(value),
    }
}

/// The text of a JSON document as it is handed to a callback: what the fast
/// writer writes, or what the other one does where the fast one fails.
pub fn fast_serialize(value: &Value) -> (text: String)
    ensures
        text@ == serialized(*value),
{
    match simd_to_text(value) {
        Some(text) => text,
        None => serde_to_text(value),
    }
}

/// The key under which a binding keeps the callback of a route: the method
/// name in upper case, a colon, the path.
pub open spec fn callback_key_spec(method: Seq<char>, path: Seq<char>) -> Seq<char> {
    uppercased(method) + seq![':'] + path
}

/// Whether the counts of a list of statistics never rise from one entry to
/// the next.
pub open spec fn descending_by_count(stats: Seq<(u64, u64)>) -> bool {
    forall|i: int, j: int| 0 <= i < j < stats.len() ==> stats[i].1 >= stats[j].1
}

/// Orders statistics by count, highest first. Entries with the same count
/// stay in the order in which they came.
pub fn sort_stats(stats: Vec<(u64, u64)>) -> (sorted: Vec<(u64, u64)>)
    ensures
        descending_by_count(sorted@),
        sorted@.to_multiset() == stats@.to_multiset(),
{
    let mut sorted: Vec<(u64, u64)> = Vec::new();
    let mut i: usize = 0;
    assert(stats@.take(0) =~= Seq::<(u64, u64)>::empty());
    while i < stats.len()
        invariant
            i <= stats.len(),
            descending_by_count(sorted@),
            sorted@.to_multiset() == stats@.take(i as int).to_multiset(),
        decreases stats.len() - i,
    {
        let entry = stats[i];
        let mut at: usize = 0;
        while at < sorted.len() && sorted[at].1 >= entry.1
            invariant
                at <= sorted.len(),
                forall|k: int| 0 <= k < at ==> sorted@[k].1 >= entry.1,
            decreases sorted.len() - at,
        {
            at = at + 1;
        }
        let ghost before = sorted@;
        sorted.insert(at, entry);
        proof {
            let after = sorted@;
            assert(after == before.insert(at as int, entry));
            assert(after.remove(at as int) =~= before);
            vstd::seq_lib::to_multiset_remove(after, at as int);
            vstd::seq_lib::to_multiset_build(stats@.take(i as int), entry);
            assert(stats@.take(i + 1) =~= stats@.take(i as int).push(entry));
            after.to_multiset_ensures();
            assert(after.contains(entry)) by {
                assert(after[at as int] == entry);
            }
            assert(after.to_multiset() =~= before.to_multiset().insert(entry));
            assert forall|a: int, b: int| 0 <= a < b < after.len() implies after[a].1
                >= after[b].1 by {
                let pa = if a < at { a } else { a - 1 };
                let pb = if b < at { b } else { b - 1 };
                if a != at && b != at {
                    assert(after[a] == before[pa]);
                    assert(after[b] == before[pb]);
                } else if a == at {
                    assert(after[b] == before[pb]);
                } else {
                    assert(after[a] == before[pa]);
                }
            }
        }
        i = i + 1;
    }
    assert(stats@.take(i as int) =~= stats@);
    sorted
}

/// The counts of the calls of the callbacks, by the hash of their route.
pub struct CallbackStore {
    counts: HashMap<u64, u64>,
}

impl View for CallbackStore {
    type V = Map<u64, u64>;

    closed spec fn view(&self) -> Map<u64, u64> {
        self.counts@
    }
}

impl CallbackStore {
    /// A store without callbacks.
    pub fn new() -> (store: Self)
        ensures
            store@ == Map::<u64, u64>::empty(),
    {
        CallbackStore { counts: HashMap::new() }
    }

    /// Takes note of a callback under the hash of its route. Its count
    /// starts at zero, also where the hash was known before.
    pub fn insert(&mut self, hash: u64)
        ensures
            final(self)@ == old(self)@.insert(hash, 0),
    {
        self.counts.insert(hash, 0);
    }

    /// Takes note of the callback of a route that is registered by method
    /// name, and returns the hash under which it is kept. A method name
    /// outside the closed set, in any case, is refused: nothing is noted
    /// and the store stays as it is.
    pub fn note_route(&mut self, method: &str, path: &str) -> (hash: Option<u64>)
        ensures
            match method_of_name(uppercased(method@)) {
                Some(_) => {
                    let noted = key_hash(callback_key_spec(method@, path@));
                    hash == Some(noted) && final(self)@ == old(self)@.insert(noted, 0)
                },
                None => hash is None && final(self)@ == old(self)@,
            },
    {
        let mut key = to_uppercase(method);
        if Method::from_name(key.as_str()).is_none() {
            return None;
        }
        proof {
            reveal_strlit(":");
        }
        key.append(":");
        key.append(path);
        assert(":"@ =~= seq![':']);
        let hash = fast_hash(key.as_str());
        self.insert(hash);
        Some(hash)
    }

    /// Counts a call of the callback under the hash, if one is kept, and
    /// says whether one is.
    pub fn call(&mut self, hash: u64) -> (known: bool)
        ensures
            known == old(self)@.contains_key(hash),
            known ==> final(self)@ == old(self)@.insert(hash, bumped(old(self)@[hash])),
            !known ==> final(self)@ == old(self)@,
    {
        let count = match self.counts.get(&hash) {
            Some(count) => *count,
            None => {
                return false;
            },
        };
        self.counts.insert(hash, count.wrapping_add(1));
        true
    }

    /// The callbacks with their counts, the most called first: each hash
    /// once, with its count.
    pub fn stats(&self) -> (stats: Vec<(u64, u64)>)
        ensures
            descending_by_count(stats@),
            stats@.len() == self@.len(),
            forall|i: int|
                0 <= i < stats@.len() ==> self@.contains_key((#[trigger] stats@[i]).0) && self@[stats@[i].0]
                    == stats@[i].1,
            forall|hash: u64|
                self@.contains_key(hash) ==> stats@.contains((hash, #[trigger] self@[hash])),
    {
        let ghost walked = spec_hash_map_iter(&self.counts).remaining();
        let mut listed: Vec<(u64, u64)> = Vec::new();
        for pair in it: self.counts.iter()
            invariant
                it.seq() == walked,
                listed@.len() == it.index(),
                forall|i: int|
                    0 <= i < it.index() ==> (#[trigger] listed@[i]) == (*walked[i].0, *walked[i].1),
        {
            let (hash, count) = pair;
            listed.push((*hash, *count));
        }
        let sorted = sort_stats(listed);
        proof {
            listed@.to_multiset_ensures();
            sorted@.to_multiset_ensures();
            assert forall|i: int| 0 <= i < sorted@.len() implies self@.contains_key(
                (#[trigger] sorted@[i]).0,
            ) && self@[sorted@[i].0] == sorted@[i].1 by {
                let entry = sorted@[i];
                assert(sorted@.contains(entry));
                assert(listed@.to_multiset().count(entry) > 0);
                assert(listed@.contains(entry));
                let k = choose|k: int| 0 <= k < listed@.len() && listed@[k] == entry;
                assert(listed@[k] == (*walked[k].0, *walked[k].1));
            }
            assert forall|hash: u64| self@.contains_key(hash) implies sorted@.contains(
                (hash, #[trigger] self@[hash]),
            ) by {
                assert(walked.contains((&hash, &self@[hash])));
                let k = choose|k: int| 0 <= k < walked.len() && walked[k] == (&hash, &self@[hash]);
                assert(listed@[k] == (hash, self@[hash]));
                assert(listed@.contains((hash, self@[hash])));
                assert(sorted@.to_multiset().count((hash, self@[hash])) > 0);
            }
        }
        sorted
    }
}

} // verus!
