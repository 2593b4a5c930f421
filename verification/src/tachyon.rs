//! The engine: the route registry, its published snapshot and the tiered
//! resolution of a request to a handler.
//!
//! A registration writes the route into the registry and publishes a new
//! snapshot: a copy of the one before, with the hash of the new route key
//! mapped to its handler. A request is resolved in three tiers, the first
//! hit winning: the snapshot by hash, the hot cache by hash, and last the
//! registry, by the exact key and then by pattern. A handler found only in
//! the registry is written into the hot cache.

use crate::body::{accepts_json, announces_json, header_bytes, parse_json_body_fast, parsed_body};
use crate::cache::{
    lemma_get_keeps_handlers, lemma_insertion_evicts_least_used, lemma_kept_handlers, shard_of,
    HotCache, HotCacheView,
};
use crate::key::{
    decimal, fast_hash, key_hash, lemma_route_key_bytes, route_key, route_key_spec,
};
use crate::matcher::{
    lemma_parameters_decide_match, route_matches, route_matches_spec, segment_accepts, segments,
    within_slack,
};
use crate::methods::{lemma_method_name_round_trip, method_of_name, Method};
use crate::options::{ResponseData, TachyonOptions};
use crate::outside::{
    index_entries, index_get, index_insert, index_list, index_with_capacity, to_uppercase,
    uppercased, RouteIndex,
};
use crate::response::{bad_request_response, build_response_fast, not_found_response, WireResponse};
use crate::router::{lemma_route_parts, TachyonRouter};
use serde_json::Value;
use std::collections::HashMap;
use std::sync::Arc;
use vstd::prelude::*;
use vstd::string::StringExecFns;
use vstd::string::StringSliceAdditionalSpecFns;
use vstd::utf8::encode_utf8;

verus! {

broadcast use vstd::std_specs::hash::group_hash_axioms;

/// The capacity that the route index is made with.
pub const INITIAL_ROUTE_CAPACITY: usize = 64;

/// Whether the route registered under `pattern` matches the route key.
pub open spec fn pattern_matches<F>(
    routes: Map<Seq<char>, TachyonRouter<F>>,
    pattern: Seq<char>,
    key: Seq<char>,
) -> bool {
    routes.contains_key(pattern) && route_matches_spec(encode_utf8(pattern), encode_utf8(key))
}

/// The handler of the route registered under the very key, if there is one.
pub open spec fn registry_exact<F: Fn(TachyonOptions) -> ResponseData>(
    routes: Map<Seq<char>, TachyonRouter<F>>,
    key: Seq<char>,
) -> Option<Arc<F>> {
    if routes.contains_key(key) {
        Some(routes[key].spec_handler())
    } else {
        None
    }
}

/// Whether the handler is that of a registered route whose pattern matches
/// the route key.
pub open spec fn registry_matches<F: Fn(TachyonOptions) -> ResponseData>(
    routes: Map<Seq<char>, TachyonRouter<F>>,
    key: Seq<char>,
    handler: Arc<F>,
) -> bool {
    exists|pattern: Seq<char>| #[trigger]
        pattern_matches(routes, pattern, key) && handler == routes[pattern].spec_handler()
}

/// Whether no registered route has a pattern that matches the route key.
pub open spec fn registry_matches_none<F>(
    routes: Map<Seq<char>, TachyonRouter<F>>,
    key: Seq<char>,
) -> bool {
    forall|pattern: Seq<char>| !#[trigger] pattern_matches(routes, pattern, key)
}

/// Whether a registry may answer a lookup of the route key with this
/// handler. If a route is registered under the very key, only its handler is
/// an answer. Otherwise the handler of any registered route whose pattern
/// matches the key is one; which of several, the order in which the registry
/// is walked decides.
pub open spec fn registry_finds<F: Fn(TachyonOptions) -> ResponseData>(
    routes: Map<Seq<char>, TachyonRouter<F>>,
    key: Seq<char>,
    handler: Arc<F>,
) -> bool {
    match registry_exact(routes, key) {
        Some(exact) => handler == exact,
        None => registry_matches(routes, key, handler),
    }
}

/// Whether a registry holds no route for the key: none under the very key,
/// and none whose pattern matches it.
pub open spec fn registry_finds_none<F: Fn(TachyonOptions) -> ResponseData>(
    routes: Map<Seq<char>, TachyonRouter<F>>,
    key: Seq<char>,
) -> bool {
    registry_exact(routes, key) is None && registry_matches_none(routes, key)
}

/// The body that a handler is given for a request: the parsed body where the
/// method carries one, and none otherwise.
pub open spec fn request_body(
    method: Method,
    content_type: Option<Seq<u8>>,
    body: Seq<u8>,
) -> Option<Value> {
    if method.spec_carries_body() {
        parsed_body(content_type, body)
    } else {
        None
    }
}

/// Whether the body of a request has to be read: its method carries a body
/// and its content type announces JSON. The handler of any other request is
/// given no body, whatever bytes the request holds.
pub open spec fn body_is_wanted(method: Method, content_type: Option<Seq<u8>>) -> bool {
    method.spec_carries_body() && announces_json(content_type)
}

/// Whether the response is the wire form of what the handler returned when
/// it was called with the given body and without parameters.
pub open spec fn answered_by<F: Fn(TachyonOptions) -> ResponseData>(
    handler: Arc<F>,
    body: Option<Value>,
    response: WireResponse,
) -> bool {
    exists|data: ResponseData|
        call_ensures(*handler, (TachyonOptions { body, params: None },), data)
            && #[trigger] response.carries(data)
}

/// Whether the handler can be called with every request.
pub open spec fn accepts_all<F: Fn(TachyonOptions) -> ResponseData>(handler: F) -> bool {
    forall|options: TachyonOptions| #[trigger] call_requires(handler, (options,))
}

/// Why a registration by method name was refused.
pub enum RegisterError {
    /// The name is none of GET, POST, PUT, DELETE and PATCH, in any case.
    UnsupportedMethod { method: String },
}

impl RegisterError {
    /// The method name that was refused, as it was given.
    pub open spec fn refused(&self) -> Seq<char> {
        match *self {
            RegisterError::UnsupportedMethod { method } => method@,
        }
    }

    /// The error in words: `Unsupported method: ` and the name as it was
    /// given.
    pub fn message(&self) -> (text: String)
        ensures
            text@ == "Unsupported method: "@ + self.refused(),
    {
        match self {
            RegisterError::UnsupportedMethod { method } => {
                let mut text = String::from_str("Unsupported method: ");
                text.append(method.as_str());
                text
            },
        }
    }
}

/// A registration: the method, the path and the handler.
pub struct Registration<F> {
    pub method: Method,
    pub path: Seq<char>,
    pub handler: Arc<F>,
}

impl<F> Registration<F> {
    /// The route key under which the registration is made.
    pub open spec fn key(self) -> Seq<char> {
        route_key_spec(self.method.spec_id(), self.path)
    }
}

/// What the engine holds: the registered routes by route key, the published
/// snapshot from key hash to handler, and the hot cache.
pub struct TachyonView<F> {
    pub routes: Map<Seq<char>, TachyonRouter<F>>,
    pub snapshot: Map<u64, Arc<F>>,
    pub cache: HotCacheView<F>,
}

impl<F: Fn(TachyonOptions) -> ResponseData> TachyonView<F> {
    /// The engine without routes.
    pub open spec fn empty() -> Self {
        TachyonView { routes: Map::empty(), snapshot: Map::empty(), cache: HotCacheView::empty() }
    }

    /// The engine after the registration of a handler for a method and a
    /// path. The registry maps the route key to the new route, replacing an
    /// earlier route of the same key. The snapshot maps the hash of the key
    /// to the handler, replacing an earlier handler of the same hash. The
    /// hot cache is left as it is.
    pub open spec fn after_register(self, method_id: u8, path: Seq<char>, handler: Arc<F>) -> Self {
        let key = route_key_spec(method_id, path);
        TachyonView {
            routes: self.routes.insert(key, TachyonRouter::spec_new(method_id, handler)),
            snapshot: self.snapshot.insert(key_hash(key), handler),
            cache: self.cache,
        }
    }

    /// Whether the engine holds the handler: in a registered route, in the
    /// snapshot or in the hot cache.
    pub open spec fn holds(self, handler: Arc<F>) -> bool {
        ||| exists|key: Seq<char>|
            self.routes.contains_key(key) && (#[trigger] self.routes[key]).spec_handler()
                == handler
        ||| exists|hash: u64|
            self.snapshot.contains_key(hash) && #[trigger] self.snapshot[hash] == handler
        ||| self.cache.keeps(handler)
    }

    /// Whether every handler that the engine holds can be called with every
    /// request.
    pub open spec fn callable(self) -> bool {
        forall|handler: Arc<F>, options: TachyonOptions|
            self.holds(handler) ==> #[trigger] call_requires(*handler, (options,))
    }

    /// The engine after a run of registrations, made one after the other.
    pub open spec fn after_registrations(self, registrations: Seq<Registration<F>>) -> Self
        decreases registrations.len(),
    {
        if registrations.len() == 0 {
            self
        } else {
            let last = registrations.last();
            self.after_registrations(registrations.drop_last()).after_register(
                last.method.spec_id(),
                last.path,
                last.handler,
            )
        }
    }

    /// Whether the registry may answer a lookup of the route key with this
    /// handler.
    pub open spec fn finds(self, key: Seq<char>, handler: Arc<F>) -> bool {
        registry_finds(self.routes, key, handler)
    }

    /// Whether the registry holds no route for the key.
    pub open spec fn finds_none(self, key: Seq<char>) -> bool {
        registry_finds_none(self.routes, key)
    }

    /// Whether a request may be answered with this response and leave the
    /// engine as `next`. A method name outside the closed set is answered
    /// with 400 and leaves the engine as it is. Otherwise the route key of
    /// the method and the path is resolved: if that finds nothing the answer
    /// is 404, and if it finds a handler the answer is what the handler
    /// returned for the request's body, in wire form.
    pub open spec fn answers(
        self,
        next: Self,
        method: Seq<char>,
        path: Seq<char>,
        content_type: Option<Seq<u8>>,
        body: Seq<u8>,
        response: WireResponse,
    ) -> bool {
        match method_of_name(method) {
            Some(known) => {
                let key = route_key_spec(known.spec_id(), path);
                ||| response.is_not_found() && self.resolves(next, key, None)
                ||| exists|handler: Arc<F>|
                    #[trigger] self.resolves(next, key, Some(handler)) && answered_by(
                        handler,
                        request_body(known, content_type, body),
                        response,
                    )
            },
            None => response.is_bad_request() && next == self,
        }
    }

    /// Whether a resolution of the route key may end with this result and
    /// leave the engine as `next`.
    ///
    /// The snapshot is asked first, by the hash of the key: a hit is the
    /// result and changes nothing. Then the hot cache is asked: a hit is the
    /// result, and the cache has counted the lookup. Then the registry is
    /// asked; the cache has counted a miss. What the registry finds is the
    /// result and is stored in the cache; if it finds nothing, the result is
    /// nothing.
    pub open spec fn resolves(self, next: Self, key: Seq<char>, result: Option<Arc<F>>) -> bool {
        let hash = key_hash(key);
        if self.snapshot.contains_key(hash) {
            result == Some(self.snapshot[hash]) && next == self
        } else if self.cache.found(key) is Some {
            &&& result == self.cache.found(key)
            &&& next == (TachyonView { cache: self.cache.after_get(key), ..self })
        } else {
            match result {
                Some(handler) => {
                    &&& self.finds(key, handler)
                    &&& self.cache.after_get(key).stored(next.cache, key, handler)
                    &&& next.routes == self.routes
                    &&& next.snapshot == self.snapshot
                },
                None => {
                    &&& self.finds_none(key)
                    &&& next == (TachyonView { cache: self.cache.after_get(key), ..self })
                },
            }
        }
    }
}

/// The engine.
pub struct Tachyon<F> {
    routes: RouteIndex,
    table: Vec<TachyonRouter<F>>,
    hot_cache: HotCache<F>,
    routes_snapshot: Arc<HashMap<u64, Arc<F>>>,
}

impl<F: Fn(TachyonOptions) -> ResponseData> View for Tachyon<F> {
    type V = TachyonView<F>;

    closed spec fn view(&self) -> TachyonView<F> {
        TachyonView {
            routes: Map::new(
                |key: Seq<char>| index_entries(self.routes).contains_key(key),
                |key: Seq<char>| self.table@[index_entries(self.routes)[key] as int],
            ),
            snapshot: self.routes_snapshot@,
            cache: self.hot_cache@,
        }
    }
}

impl<F: Fn(TachyonOptions) -> ResponseData> Tachyon<F> {
    /// Every slot of the route index is a place in the route table, no two
    /// keys share a slot, and the hot cache is within its bounds.
    pub closed spec fn wf(&self) -> bool {
        &&& forall|key: Seq<char>| #[trigger]
            index_entries(self.routes).contains_key(key) ==> index_entries(self.routes)[key]
                < self.table@.len()
        &&& forall|one: Seq<char>, other: Seq<char>|
            #![trigger index_entries(self.routes)[one], index_entries(self.routes)[other]]
            index_entries(self.routes).contains_key(one) && index_entries(
                self.routes,
            ).contains_key(other) && one != other ==> index_entries(self.routes)[one]
                != index_entries(self.routes)[other]
        &&& self.hot_cache@.wf()
    }

    /// The hot cache of a well-formed engine is within its bounds.
    pub proof fn lemma_wf_cache(&self)
        requires
            self.wf(),
        ensures
            self@.cache.wf(),
    {
    }

    /// An engine without routes.
    pub fn new() -> (engine: Self)
        ensures
            engine.wf(),
            engine@ == TachyonView::<F>::empty(),
            engine@.callable(),
    {
        proof {
            assert forall|handler: Arc<F>| !TachyonView::<F>::empty().holds(handler) by {
                lemma_held_handlers(
                    TachyonView::<F>::empty(),
                    TachyonView::<F>::empty(),
                    0,
                    Seq::empty(),
                    handler,
                    Seq::empty(),
                    None,
                    handler,
                );
            }
        }
        let engine = Tachyon {
            routes: index_with_capacity(INITIAL_ROUTE_CAPACITY),
            table: Vec::new(),
            hot_cache: HotCache::new(),
            routes_snapshot: Arc::new(HashMap::new()),
        };
        assert(engine@.routes =~= Map::<Seq<char>, TachyonRouter<F>>::empty());
        engine
    }

    /// Registers the handler for a method and a path, and publishes the new
    /// snapshot. Returns the handler as the engine now shares it.
    pub fn register_route(&mut self, method: Method, path: &str, callback: F) -> (handler: Arc<F>)
        requires
            old(self).wf(),
        ensures
            final(self).wf(),
            *handler == callback,
            final(self)@ == old(self)@.after_register(method.spec_id(), path@, handler),
            old(self)@.callable() && accepts_all(callback) ==> final(self)@.callable(),
    {
        let method_id = method.id();
        let key = route_key(method_id, path);
        let handler = Arc::new(callback);
        let hash = fast_hash(key.as_str());
        let route = TachyonRouter::new(method_id, Arc::clone(&handler));
        let ghost key_view = key@;
        match index_get(&self.routes, key.as_str()) {
            Some(slot) => {
                self.table.set(slot, route);
            },
            None => {
                let slot = self.table.len();
                self.table.push(route);
                index_insert(&mut self.routes, key, slot);
            },
        }
        let mut published: HashMap<u64, Arc<F>> = (*self.routes_snapshot).clone();
        published.insert(hash, Arc::clone(&handler));
        self.routes_snapshot = Arc::new(published);
        proof {
            let before = old(self)@;
            let after = before.after_register(method.spec_id(), path@, handler);
            let index = index_entries(self.routes);
            let index_before = index_entries(old(self).routes);
            assert forall|k: Seq<char>| #[trigger] index.contains_key(k) implies index[k]
                < self.table@.len() by {
                if k != key_view {
                    assert(index_before.contains_key(k));
                }
            }
            assert forall|one: Seq<char>, other: Seq<char>|
                #![trigger index[one], index[other]]
                index.contains_key(one) && index.contains_key(other) && one
                    != other implies index[one] != index[other] by {
                if one != key_view {
                    assert(index_before.contains_key(one));
                }
                if other != key_view {
                    assert(index_before.contains_key(other));
                }
            }
            assert forall|k: Seq<char>| self@.routes.contains_key(k) implies #[trigger] self@.routes[k]
                == after.routes[k] by {
                if k != key_view {
                    assert(index_before.contains_key(k));
                    if index_before.contains_key(key_view) {
                        assert(index_before[k] != index_before[key_view]);
                    }
                }
            }
            assert(self@.routes =~= after.routes);
            assert forall|held: Arc<F>| self@.holds(held) implies held == handler || before.holds(
                held,
            ) by {
                lemma_held_handlers(
                    before,
                    before,
                    method.spec_id(),
                    path@,
                    handler,
                    Seq::empty(),
                    None,
                    held,
                );
            }
        }
        handler
    }

    /// Registers the handler for GET requests of the path.
    pub fn get(&mut self, path: &str, callback: F) -> (handler: Arc<F>)
        requires
            old(self).wf(),
        ensures
            final(self).wf(),
            *handler == callback,
            final(self)@ == old(self)@.after_register(Method::Get.spec_id(), path@, handler),
            old(self)@.callable() && accepts_all(callback) ==> final(self)@.callable(),
    {
        self.register_route(Method::Get, path, callback)
    }

    /// Registers the handler for POST requests of the path.
    pub fn post(&mut self, path: &str, callback: F) -> (handler: Arc<F>)
        requires
            old(self).wf(),
        ensures
            final(self).wf(),
            *handler == callback,
            final(self)@ == old(self)@.after_register(Method::Post.spec_id(), path@, handler),
            old(self)@.callable() && accepts_all(callback) ==> final(self)@.callable(),
    {
        self.register_route(Method::Post, path, callback)
    }

    /// Registers the handler for DELETE requests of the path.
    pub fn delete(&mut self, path: &str, callback: F) -> (handler: Arc<F>)
        requires
            old(self).wf(),
        ensures
            final(self).wf(),
            *handler == callback,
            final(self)@ == old(self)@.after_register(Method::Delete.spec_id(), path@, handler),
            old(self)@.callable() && accepts_all(callback) ==> final(self)@.callable(),
    {
        self.register_route(Method::Delete, path, callback)
    }

    /// Registers the handler for PUT requests of the path.
    pub fn put(&mut self, path: &str, callback: F) -> (handler: Arc<F>)
        requires
            old(self).wf(),
        ensures
            final(self).wf(),
            *handler == callback,
            final(self)@ == old(self)@.after_register(Method::Put.spec_id(), path@, handler),
            old(self)@.callable() && accepts_all(callback) ==> final(self)@.callable(),
    {
        self.register_route(Method::Put, path, callback)
    }

    /// Registers the handler for PATCH requests of the path.
    pub fn patch(&mut self, path: &str, callback: F) -> (handler: Arc<F>)
        requires
            old(self).wf(),
        ensures
            final(self).wf(),
            *handler == callback,
            final(self)@ == old(self)@.after_register(Method::Patch.spec_id(), path@, handler),
            old(self)@.callable() && accepts_all(callback) ==> final(self)@.callable(),
    {
        self.register_route(Method::Patch, path, callback)
    }

    /// Registers the handler for the method of the given name and the path.
    /// The name may be in any case. A name outside the closed set is
    /// refused, and nothing is registered.
    pub fn register(&mut self, method: &str, path: &str, callback: F) -> (result: Result<
        Arc<F>,
        RegisterError,
    >)
        requires
            old(self).wf(),
        ensures
            final(self).wf(),
            match method_of_name(uppercased(method@)) {
                Some(known) => result matches Ok(handler) && *handler == callback && final(self)@
                    == old(self)@.after_register(known.spec_id(), path@, handler),
                None => result matches Err(error) && error.refused() == method@ && final(self)@
                    == old(self)@,
            },
            old(self)@.callable() && accepts_all(callback) ==> final(self)@.callable(),
    {
        let upper = to_uppercase(method);
        match Method::from_name(upper.as_str()) {
            Some(known) => Ok(self.register_route(known, path, callback)),
            None => Err(RegisterError::UnsupportedMethod { method: method.to_owned() }),
        }
    }

    /// The registered route keys, each once and with the id of its method,
    /// in the order in which the registry is walked.
    pub fn routes(&self) -> (listed: Vec<(String, u8)>)
        requires
            self.wf(),
        ensures
            forall|i: int|
                0 <= i < listed.len() ==> self@.routes.contains_key(#[trigger] listed[i].0@)
                    && self@.routes[listed[i].0@].spec_method() == listed[i].1,
            forall|key: Seq<char>|
                self@.routes.contains_key(key) ==> exists|i: int|
                    0 <= i < listed.len() && #[trigger] listed[i].0@ == key,
            forall|i: int, j: int|
                0 <= i < j < listed.len() ==> #[trigger] listed[i].0@ != #[trigger] listed[j].0@,
    {
        let indexed = index_list(&self.routes);
        let mut listed: Vec<(String, u8)> = Vec::new();
        let mut i: usize = 0;
        while i < indexed.len()
            invariant
                i <= indexed.len(),
                self.wf(),
                listed.len() == i,
                forall|j: int|
                    0 <= j < indexed.len() ==> index_entries(self.routes).contains_key(
                        #[trigger] indexed[j].0@,
                    ) && index_entries(self.routes)[indexed[j].0@] == indexed[j].1,
                forall|j: int|
                    0 <= j < i ==> (#[trigger] listed[j]).0@ == indexed[j].0@ && listed[j].1
                        == self.table@[indexed[j].1 as int].spec_method(),
            decreases indexed.len() - i,
        {
            let slot = indexed[i].1;
            assert(index_entries(self.routes).contains_key(indexed[i as int].0@));
            listed.push((indexed[i].0.clone(), self.table[slot].method()));
            i = i + 1;
        }
        proof {
            assert forall|key: Seq<char>| self@.routes.contains_key(key) implies exists|i: int|
                0 <= i < listed.len() && #[trigger] listed[i].0@ == key by {
                let j = choose|j: int| 0 <= j < indexed.len() && #[trigger] indexed[j].0@ == key;
                assert(listed[j].0@ == key);
            }
        }
        listed
    }

    /// The hot cache, for inspection.
    pub fn hot_cache(&self) -> (cache: &HotCache<F>)
        ensures
            cache@ == self@.cache,
    {
        &self.hot_cache
    }

    /// The snapshot that is published now. Whoever holds it keeps seeing
    /// the routes that were registered when it was taken.
    pub fn snapshot(&self) -> (held: Arc<HashMap<u64, Arc<F>>>)
        ensures
            held@ == self@.snapshot,
    {
        Arc::clone(&self.routes_snapshot)
    }

    /// Looks the route key up in the registry, under the very key.
    pub fn lookup_exact(&self, route_key: &str) -> (found: Option<Arc<F>>)
        requires
            self.wf(),
        ensures
            found == registry_exact(self@.routes, route_key@),
    {
        match index_get(&self.routes, route_key) {
            Some(slot) => Some(Arc::clone(self.table[slot].handler())),
            None => None,
        }
    }

    /// Walks the registry and returns the handler of the first route whose
    /// pattern matches the route key. The order of the walk is the
    /// registry's own.
    pub fn lookup_pattern(&self, route_key: &str) -> (found: Option<Arc<F>>)
        requires
            self.wf(),
        ensures
            match found {
                Some(handler) => registry_matches(self@.routes, route_key@, handler),
                None => registry_matches_none(self@.routes, route_key@),
            },
    {
        let listed = index_list(&self.routes);
        let mut i: usize = 0;
        while i < listed.len()
            invariant
                i <= listed.len(),
                self.wf(),
                forall|j: int|
                    0 <= j < listed.len() ==> index_entries(self.routes).contains_key(
                        #[trigger] listed[j].0@,
                    ) && index_entries(self.routes)[listed[j].0@] == listed[j].1,
                forall|j: int|
                    0 <= j < i ==> !route_matches_spec(
                        encode_utf8(#[trigger] listed[j].0@),
                        encode_utf8(route_key@),
                    ),
            decreases listed.len() - i,
        {
            if route_matches(listed[i].0.as_str(), route_key) {
                let slot = listed[i].1;
                assert(pattern_matches(self@.routes, listed[i as int].0@, route_key@));
                return Some(Arc::clone(self.table[slot].handler()));
            }
            i = i + 1;
        }
        proof {
            assert forall|pattern: Seq<char>| !#[trigger] pattern_matches(
                self@.routes,
                pattern,
                route_key@,
            ) by {
                if self@.routes.contains_key(pattern) {
                    let j = choose|j: int| 0 <= j < listed.len() && #[trigger] listed[j].0@ == pattern;
                    assert(!route_matches_spec(encode_utf8(listed[j].0@), encode_utf8(route_key@)));
                }
            }
        }
        None
    }

    /// Looks the route key up in the registry: under the very key first,
    /// then among the patterns.
    pub fn find_route(&self, route_key: &str) -> (found: Option<Arc<F>>)
        requires
            self.wf(),
        ensures
            match found {
                Some(handler) => self@.finds(route_key@, handler),
                None => self@.finds_none(route_key@),
            },
    {
        match self.lookup_exact(route_key) {
            Some(handler) => Some(handler),
            None => self.lookup_pattern(route_key),
        }
    }

    /// Resolves the route key of a request to a handler: by the snapshot,
    /// else by the hot cache, else by the registry. A handler that only the
    /// registry found is stored in the hot cache.
    pub fn resolve(&mut self, route_key: &str) -> (found: Option<Arc<F>>)
        requires
            old(self).wf(),
        ensures
            final(self).wf(),
            old(self)@.resolves(final(self)@, route_key@, found),
            old(self)@.callable() ==> final(self)@.callable(),
    {
        let found = self.resolve_tiers(route_key);
        proof {
            let before = old(self)@;
            let after = self@;
            assert forall|held: Arc<F>| after.holds(held) implies before.holds(held) by {
                lemma_held_handlers(before, after, 0, Seq::empty(), held, route_key@, found, held);
            }
        }
        found
    }

    /// The three tiers of a resolution.
    fn resolve_tiers(&mut self, route_key: &str) -> (found: Option<Arc<F>>)
        requires
            old(self).wf(),
        ensures
            final(self).wf(),
            old(self)@.resolves(final(self)@, route_key@, found),
    {
        let hash = fast_hash(route_key);
        match self.routes_snapshot.get(&hash) {
            Some(handler) => {
                return Some(Arc::clone(handler));
            },
            None => {},
        }
        match self.hot_cache.get(route_key) {
            Some(handler) => {
                assert(self@.routes =~= old(self)@.routes);
                return Some(handler);
            },
            None => {},
        }
        assert(self@.routes =~= old(self)@.routes);
        let ghost missed = self@;
        match self.find_route(route_key) {
            Some(handler) => {
                self.hot_cache.set(route_key.to_owned(), Arc::clone(&handler));
                assert(self@.routes =~= missed.routes);
                Some(handler)
            },
            None => None,
        }
    }
}

impl<F: Fn(TachyonOptions) -> ResponseData> Tachyon<F> {
    /// Finds the handler of a request by its method name and path. A method
    /// outside the closed set is answered with 400 and a route that does not
    /// resolve with 404; otherwise the method and the handler are returned.
    pub fn dispatch(&mut self, method: &str, path: &str) -> (target: Result<
        (Method, Arc<F>),
        WireResponse,
    >)
        requires
            old(self).wf(),
        ensures
            final(self).wf(),
            match method_of_name(method@) {
                Some(known) => {
                    let key = route_key_spec(known.spec_id(), path@);
                    match target {
                        Ok(pair) => pair.0 == known && old(self)@.resolves(
                            final(self)@,
                            key,
                            Some(pair.1),
                        ),
                        Err(response) => response.is_not_found() && old(self)@.resolves(
                            final(self)@,
                            key,
                            None,
                        ),
                    }
                },
                None => target matches Err(response) && response.is_bad_request() && final(self)@
                    == old(self)@,
            },
            old(self)@.callable() ==> final(self)@.callable(),
    {
        let known = match Method::from_name(method) {
            Some(known) => known,
            None => {
                return Err(bad_request_response());
            },
        };
        let key = route_key(known.id(), path);
        match self.resolve(key.as_str()) {
            Some(handler) => Ok((known, handler)),
            None => Err(not_found_response()),
        }
    }

    /// Finds the handler of a request in a published snapshot alone, without
    /// the engine: whoever holds a snapshot can ask it while registrations
    /// go on. A method outside the closed set is answered with 400. Where
    /// the snapshot holds the hash of the request's route key, the method
    /// and the handler are returned, as the engine that published the
    /// snapshot would return them. Where it does not, the answer is `None`:
    /// the request has to go to the engine.
    pub fn dispatch_published(
        snapshot: &HashMap<u64, Arc<F>>,
        method: &str,
        path: &str,
    ) -> (target: Option<Result<(Method, Arc<F>), WireResponse>>)
        ensures
            match method_of_name(method@) {
                Some(known) => {
                    let hash = key_hash(route_key_spec(known.spec_id(), path@));
                    if snapshot@.contains_key(hash) {
                        target == Some(
                            Ok::<(Method, Arc<F>), WireResponse>((known, snapshot@[hash])),
                        )
                    } else {
                        target is None
                    }
                },
                None => target matches Some(Err(response)) && response.is_bad_request(),
            },
    {
        let known = match Method::from_name(method) {
            Some(known) => known,
            None => {
                return Some(Err(bad_request_response()));
            },
        };
        let key = route_key(known.id(), path);
        let hash = fast_hash(key.as_str());
        match snapshot.get(&hash) {
            Some(handler) => Some(Ok((known, Arc::clone(handler)))),
            None => None,
        }
    }

    /// Whether the body of a request has to be read before its handler is
    /// called. Where it has not, the handler is given no body, so the bytes
    /// handed to `execute_handler` do not matter.
    pub fn wants_body(method: Method, content_type: Option<&[u8]>) -> (wanted: bool)
        ensures
            wanted == body_is_wanted(method, header_bytes(content_type)),
            !wanted ==> forall|body: Seq<u8>|
                #[trigger] request_body(method, header_bytes(content_type), body) is None,
    {
        method.carries_body() && accepts_json(content_type)
    }

    /// Calls the handler of a request and puts its response into wire form.
    /// The handler is given the parsed body where the method carries one,
    /// and no parameters.
    pub fn execute_handler(
        handler: Arc<F>,
        method: Method,
        content_type: Option<&[u8]>,
        body: &[u8],
    ) -> (response: WireResponse)
        requires
            forall|options: TachyonOptions| call_requires(*handler, (options,)),
        ensures
            answered_by(handler, request_body(method, header_bytes(content_type), body@), response),
    {
        let parsed = if method.carries_body() {
            parse_json_body_fast(content_type, body)
        } else {
            None
        };
        let options = TachyonOptions { body: parsed, params: None };
        let result = handler(options);
        let response = build_response_fast(result);
        assert(response.carries(result));
        response
    }

    /// Answers a request: finds its handler, calls it and returns its
    /// response in wire form; or answers 400 for a method outside the
    /// closed set, and 404 for a route that does not resolve.
    pub fn handle_request_fast(
        &mut self,
        method: &str,
        path: &str,
        content_type: Option<&[u8]>,
        body: &[u8],
    ) -> (response: WireResponse)
        requires
            old(self).wf(),
            old(self)@.callable(),
        ensures
            final(self).wf(),
            final(self)@.callable(),
            old(self)@.answers(
                final(self)@,
                method@,
                path@,
                header_bytes(content_type),
                body@,
                response,
            ),
    {
        match self.dispatch(method, path) {
            Ok((known, handler)) => {
                let ghost key = route_key_spec(known.spec_id(), path@);
                assert(old(self)@.resolves(self@, key, Some(handler)));
                proof {
                    old(self).lemma_wf_cache();
                    lemma_resolved_handler_is_held(old(self)@, self@, key, handler);
                }
                Self::execute_handler(handler, known, content_type, body)
            },
            Err(response) => response,
        }
    }
}

impl<F: Fn(TachyonOptions) -> ResponseData> Default for Tachyon<F> {
    fn default() -> (engine: Self)
        ensures
            engine.wf(),
            engine@ == TachyonView::<F>::empty(),
    {
        Self::new()
    }
}

/// The published tier answers as the engine does. Where the snapshot of an
/// engine holds the hash of a route key, every resolution of the key returns
/// the handler that the snapshot holds for it, and leaves the engine as it
/// is.
pub proof fn lemma_published_tier<F: Fn(TachyonOptions) -> ResponseData>(
    engine: TachyonView<F>,
    next: TachyonView<F>,
    key: Seq<char>,
    found: Option<Arc<F>>,
)
    requires
        engine.snapshot.contains_key(key_hash(key)),
        engine.resolves(next, key, found),
    ensures
        found == Some(engine.snapshot[key_hash(key)]),
        next == engine,
{
}

/// What a resolution returns is held. The handler that a resolution of a
/// route key returns is one that the engine held before: in the snapshot, in
/// the hot cache or in a registered route.
pub proof fn lemma_resolved_handler_is_held<F: Fn(TachyonOptions) -> ResponseData>(
    engine: TachyonView<F>,
    next: TachyonView<F>,
    key: Seq<char>,
    handler: Arc<F>,
)
    requires
        engine.cache.wf(),
        engine.resolves(next, key, Some(handler)),
    ensures
        engine.holds(handler),
{
    let hash = key_hash(key);
    lemma_kept_handlers(engine.cache, engine.cache, key, handler, handler);
    if engine.snapshot.contains_key(hash) {
        assert(engine.snapshot[hash] == handler);
    } else if engine.cache.found(key) is None {
        if engine.routes.contains_key(key) {
            assert(engine.routes[key].spec_handler() == handler);
        } else {
            let pattern = choose|pattern: Seq<char>| #[trigger]
                pattern_matches(engine.routes, pattern, key) && handler
                    == engine.routes[pattern].spec_handler();
            assert(engine.routes.contains_key(pattern) && engine.routes[pattern].spec_handler()
                == handler);
        }
    }
}

/// The engine holds only what was registered. The empty engine holds no
/// handler. A registration adds its handler and no other. A resolution adds
/// none.
pub proof fn lemma_held_handlers<F: Fn(TachyonOptions) -> ResponseData>(
    engine: TachyonView<F>,
    next: TachyonView<F>,
    method_id: u8,
    path: Seq<char>,
    registered: Arc<F>,
    key: Seq<char>,
    found: Option<Arc<F>>,
    handler: Arc<F>,
)
    ensures
        !TachyonView::<F>::empty().holds(handler),
        engine.after_register(method_id, path, registered).holds(handler) ==> handler
            == registered || engine.holds(handler),
        engine.cache.wf() && engine.resolves(next, key, found) && next.holds(handler)
            ==> engine.holds(handler),
{
    let nothing = HotCacheView::<F>::empty();
    assert(nothing.wf());
    lemma_kept_handlers(nothing, nothing, key, handler, handler);
    lemma_route_parts(method_id, registered);
    let after = engine.after_register(method_id, path, registered);
    if after.holds(handler) && handler != registered {
        if exists|at: Seq<char>|
            after.routes.contains_key(at) && (#[trigger] after.routes[at]).spec_handler()
                == handler {
            let at = choose|at: Seq<char>|
                after.routes.contains_key(at) && (#[trigger] after.routes[at]).spec_handler()
                    == handler;
            assert(engine.routes.contains_key(at) && engine.routes[at].spec_handler() == handler);
        } else if exists|hash: u64|
            after.snapshot.contains_key(hash) && #[trigger] after.snapshot[hash] == handler {
            let hash = choose|hash: u64|
                after.snapshot.contains_key(hash) && #[trigger] after.snapshot[hash] == handler;
            assert(engine.snapshot.contains_key(hash) && engine.snapshot[hash] == handler);
        }
    }
    if engine.cache.wf() && engine.resolves(next, key, found) && next.holds(handler) {
        let hash = key_hash(key);
        let looked = engine.cache.after_get(key);
        lemma_get_keeps_handlers(engine.cache, key, key);
        lemma_kept_handlers(engine.cache, looked, key, handler, handler);
        if !engine.snapshot.contains_key(hash) && engine.cache.found(key) is None {
            if let Some(stored) = found {
                lemma_kept_handlers(looked, next.cache, key, stored, handler);
                lemma_resolved_handler_is_held(engine, next, key, stored);
            }
        }
    }
}

/// A registered route is answered by its handler. After any run of
/// registrations, made in any order on any engine, the route key of each
/// registration resolves to the handler registered with it, at the first
/// tier and without a change to the engine; and a request with the method
/// and the path of the registration is answered with what that handler
/// returned for it. This holds of every registration that no later one
/// overwrote: one whose key hash is also the key hash of a later
/// registration has lost its place in the snapshot to that one.
pub proof fn lemma_registered_route_resolves<F: Fn(TachyonOptions) -> ResponseData>(
    engine: TachyonView<F>,
    registrations: Seq<Registration<F>>,
    i: int,
    next: TachyonView<F>,
    found: Option<Arc<F>>,
    content_type: Option<Seq<u8>>,
    body: Seq<u8>,
    response: WireResponse,
)
    requires
        0 <= i < registrations.len(),
        forall|j: int|
            i < j < registrations.len() ==> key_hash((#[trigger] registrations[j]).key())
                != key_hash(registrations[i].key()),
    ensures
        engine.after_registrations(registrations).resolves(next, registrations[i].key(), found)
            ==> found == Some(registrations[i].handler) && next == engine.after_registrations(
            registrations,
        ),
        engine.after_registrations(registrations).answers(
            next,
            registrations[i].method.spec_name(),
            registrations[i].path,
            content_type,
            body,
            response,
        ) ==> next == engine.after_registrations(registrations) && answered_by(
            registrations[i].handler,
            request_body(registrations[i].method, content_type, body),
            response,
        ),
{
    lemma_registration_published(engine, registrations, i);
    lemma_method_name_round_trip(registrations[i].method);
}

/// After a run of registrations the snapshot maps the key hash of each
/// registration that no later one overwrote to its handler.
pub proof fn lemma_registration_published<F: Fn(TachyonOptions) -> ResponseData>(
    engine: TachyonView<F>,
    registrations: Seq<Registration<F>>,
    i: int,
)
    requires
        0 <= i < registrations.len(),
        forall|j: int|
            i < j < registrations.len() ==> key_hash((#[trigger] registrations[j]).key())
                != key_hash(registrations[i].key()),
    ensures
        engine.after_registrations(registrations).snapshot.contains_key(
            key_hash(registrations[i].key()),
        ),
        engine.after_registrations(registrations).snapshot[key_hash(registrations[i].key())]
            == registrations[i].handler,
    decreases registrations.len(),
{
    let earlier = registrations.drop_last();
    if i < registrations.len() - 1 {
        assert(earlier[i] == registrations[i]);
        assert forall|j: int| i < j < earlier.len() implies key_hash((#[trigger] earlier[j]).key())
            != key_hash(earlier[i].key()) by {
            assert(earlier[j] == registrations[j]);
        }
        lemma_registration_published(engine, earlier, i);
        assert(key_hash(registrations.last().key()) != key_hash(registrations[i].key()));
    }
}

/// A request that a registered pattern matches is not answered with 404.
/// Take a route registered for a method and a pattern path, and a request of
/// the same method whose path has as many segments as the pattern, agrees
/// with it byte for byte on every segment that is no parameter, and has a
/// non-empty segment in the place of every parameter. Then the resolution of
/// the request finds a handler. This holds of paths whose lengths are within
/// the matcher's slack of each other.
pub proof fn lemma_matching_request_resolves<F: Fn(TachyonOptions) -> ResponseData>(
    engine: TachyonView<F>,
    next: TachyonView<F>,
    method: Method,
    pattern_path: Seq<char>,
    request_path: Seq<char>,
    found: Option<Arc<F>>,
)
    requires
        engine.routes.contains_key(route_key_spec(method.spec_id(), pattern_path)),
        within_slack(encode_utf8(pattern_path).len(), encode_utf8(request_path).len()),
        segments(encode_utf8(pattern_path)).len() == segments(encode_utf8(request_path)).len(),
        forall|i: int|
            0 <= i < segments(encode_utf8(pattern_path)).len() ==> segment_accepts(
                #[trigger] segments(encode_utf8(pattern_path))[i],
                segments(encode_utf8(request_path))[i],
            ),
        engine.resolves(next, route_key_spec(method.spec_id(), request_path), found),
    ensures
        found is Some,
{
    let id = method.spec_id();
    let pattern_key = route_key_spec(id, pattern_path);
    let request_key = route_key_spec(id, request_path);
    lemma_route_key_bytes(id, pattern_path);
    lemma_route_key_bytes(id, request_path);
    lemma_parameters_decide_match(
        encode_utf8(decimal(id as nat)),
        encode_utf8(pattern_path),
        encode_utf8(request_path),
    );
    assert(pattern_matches(engine.routes, pattern_key, request_key));
}

/// A route found below the snapshot graduates to the hot cache. Where the
/// snapshot does not hold the hash of a route key and a resolution of the
/// key returns a handler, the hot cache holds that handler for the key
/// afterwards, whether the cache or the registry had found it.
pub proof fn lemma_resolved_route_is_cached<F: Fn(TachyonOptions) -> ResponseData>(
    engine: TachyonView<F>,
    next: TachyonView<F>,
    key: Seq<char>,
    handler: Arc<F>,
)
    requires
        engine.cache.wf(),
        !engine.snapshot.contains_key(key_hash(key)),
        engine.resolves(next, key, Some(handler)),
    ensures
        next.cache.wf(),
        next.cache.found(key) == Some(handler),
{
    let hash = key_hash(key);
    let index = shard_of(hash);
    lemma_get_keeps_handlers(engine.cache, key, key);
    if engine.cache.found(key) is None {
        let missed = engine.cache.after_get(key);
        assert(0 <= index < missed.shards.len());
        lemma_insertion_evicts_least_used(
            missed.shard_for(key),
            next.cache.shard_for(key),
            hash,
            handler,
        );
        assert forall|i: int| 0 <= i < next.cache.shards.len() implies (#[trigger] next.cache.shards[i]).wf() by {
            if i != index {
                assert(next.cache.shards[i] == missed.shards[i]);
            }
        }
    }
}

/// Snapshots are isolated. A snapshot taken before a registration is a
/// value of its own, which the registration does not touch: it is not the
/// snapshot that the registration publishes unless it already mapped the
/// hash of the new key to the new handler. The published snapshot maps that
/// hash to the new handler, and differs from the one before at that hash
/// only.
pub proof fn lemma_snapshot_isolation<F: Fn(TachyonOptions) -> ResponseData>(
    engine: TachyonView<F>,
    method: Method,
    path: Seq<char>,
    handler: Arc<F>,
)
    ensures
        ({
            let held = engine.snapshot;
            let published = engine.after_register(method.spec_id(), path, handler).snapshot;
            let hash = key_hash(route_key_spec(method.spec_id(), path));
            &&& published.contains_key(hash)
            &&& published[hash] == handler
            &&& published.remove(hash) == held.remove(hash)
            &&& !held.contains_key(hash) ==> held != published
        }),
{
    let held = engine.snapshot;
    let published = engine.after_register(method.spec_id(), path, handler).snapshot;
    let hash = key_hash(route_key_spec(method.spec_id(), path));
    assert(published.remove(hash) =~= held.remove(hash));
}

} // verus!
