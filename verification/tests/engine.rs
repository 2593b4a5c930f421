use bytes::Bytes;
use std::sync::Arc;
use tachyon::key::fast_hash;
use tachyon::methods::Method;
use tachyon::options::{ResponseData, TachyonOptions};
use tachyon::tachyon::{RegisterError, Tachyon};

type Handler = Box<dyn Fn(TachyonOptions) -> ResponseData + Send + Sync>;

fn says(text: &'static str) -> Handler {
    Box::new(move |_options: TachyonOptions| ResponseData::ok(Bytes::from(text)))
}

fn echoes_body() -> Handler {
    Box::new(|options: TachyonOptions| match options.body {
        Some(body) => ResponseData::ok(Bytes::from(body.to_string())),
        None => ResponseData::ok(Bytes::from("no body")),
    })
}

fn body_of(engine: &mut Tachyon<Handler>, method: &str, path: &str) -> (u16, Vec<u8>) {
    let response = engine.handle_request_fast(method, path, None, b"");
    (response.status, response.body.to_vec())
}

#[test]
fn unknown_route_is_answered_with_404() {
    let mut engine: Tachyon<Handler> = Tachyon::new();
    let response = engine.handle_request_fast("DELETE", "/missing", None, b"");
    assert_eq!(response.status, 404);
    assert_eq!(&response.body[..], b"{\"error\":\"Not Found\"}");
    assert_eq!(response.content_type, "application/json");
    assert_eq!(response.content_length, "21");
}

#[test]
fn unknown_method_is_answered_with_400() {
    let mut engine: Tachyon<Handler> = Tachyon::new();
    engine.get("/users", says("users"));
    let response = engine.handle_request_fast("HEAD", "/users", None, b"");
    assert_eq!(response.status, 400);
    assert_eq!(&response.body[..], b"{\"error\":\"Bad Request\"}");
    assert_eq!(response.content_type, "application/json");
    assert_eq!(response.content_length, "23");
    // Method names are taken as the request line gives them.
    assert_eq!(engine.handle_request_fast("get", "/users", None, b"").status, 400);
}

#[test]
fn registered_literal_route_is_dispatched() {
    let mut engine: Tachyon<Handler> = Tachyon::new();
    engine.get("/users", says("users"));
    let response = engine.handle_request_fast("GET", "/users", None, b"");
    assert_eq!(response.status, 200);
    assert_eq!(&response.body[..], b"users");
    assert_eq!(response.content_type, "application/json");
    assert_eq!(response.content_length, "5");
}

#[test]
fn each_method_has_its_own_routes() {
    let mut engine: Tachyon<Handler> = Tachyon::new();
    engine.get("/thing", says("get"));
    engine.post("/thing", says("post"));
    engine.put("/thing", says("put"));
    engine.delete("/thing", says("delete"));
    engine.patch("/thing", says("patch"));
    assert_eq!(body_of(&mut engine, "GET", "/thing"), (200, b"get".to_vec()));
    assert_eq!(body_of(&mut engine, "POST", "/thing"), (200, b"post".to_vec()));
    assert_eq!(body_of(&mut engine, "PUT", "/thing"), (200, b"put".to_vec()));
    assert_eq!(body_of(&mut engine, "DELETE", "/thing"), (200, b"delete".to_vec()));
    assert_eq!(body_of(&mut engine, "PATCH", "/thing"), (200, b"patch".to_vec()));
}

#[test]
fn registered_routes_resolve_in_any_order_of_registration() {
    let paths = ["/a", "/b", "/c/d", "/e/:id", "/"];
    let tags = ["a", "b", "cd", "e", "root"];
    let orders: [[usize; 5]; 3] = [[0, 1, 2, 3, 4], [4, 3, 2, 1, 0], [2, 0, 4, 1, 3]];
    for order in orders.iter() {
        let mut engine: Tachyon<Handler> = Tachyon::new();
        for &i in order.iter() {
            engine.get(paths[i], says(tags[i]));
        }
        for i in 0..paths.len() {
            let (status, body) = body_of(&mut engine, "GET", paths[i]);
            assert_eq!(status, 200);
            assert_eq!(body, tags[i].as_bytes().to_vec());
        }
    }
}

#[test]
fn registered_route_resolves_to_the_very_handler() {
    let mut engine: Tachyon<Handler> = Tachyon::new();
    let users = engine.get("/users", says("users"));
    let posts = engine.register_route(Method::Post, "/posts", says("posts"));
    assert!(Arc::ptr_eq(&engine.resolve("0:/users").unwrap(), &users));
    assert!(Arc::ptr_eq(&engine.resolve("1:/posts").unwrap(), &posts));
    assert!(engine.resolve("1:/users").is_none());
    // The snapshot answered: the hot cache was not asked for the hits.
    assert_eq!(engine.hot_cache().stats(), (0, 1));
}

#[test]
fn a_later_registration_of_the_same_key_wins() {
    let mut engine: Tachyon<Handler> = Tachyon::new();
    engine.get("/users", says("first"));
    engine.get("/users", says("second"));
    assert_eq!(body_of(&mut engine, "GET", "/users"), (200, b"second".to_vec()));
    assert_eq!(engine.routes().len(), 1);
}

#[test]
fn parameterized_route_resolves_and_empty_parameter_does_not() {
    let mut engine: Tachyon<Handler> = Tachyon::new();
    let h1 = engine.get("/users/:id", says("h1"));
    let response = engine.handle_request_fast("GET", "/users/42", None, b"");
    assert_eq!(response.status, 200);
    assert_eq!(&response.body[..], b"h1");
    assert!(Arc::ptr_eq(&engine.resolve("0:/users/42").unwrap(), &h1));
    let empty = engine.handle_request_fast("GET", "/users/", None, b"");
    assert_eq!(empty.status, 404);
    assert_eq!(&empty.body[..], b"{\"error\":\"Not Found\"}");
    assert_eq!(body_of(&mut engine, "POST", "/users/42").0, 404);
    assert_eq!(body_of(&mut engine, "GET", "/users/42/posts").0, 404);
}

#[test]
fn a_route_found_by_pattern_graduates_to_the_hot_cache() {
    let mut engine: Tachyon<Handler> = Tachyon::new();
    engine.get("/users/:id", says("h1"));
    assert_eq!(engine.hot_cache().stats(), (0, 0));
    assert_eq!(body_of(&mut engine, "GET", "/users/42"), (200, b"h1".to_vec()));
    // Snapshot missed, cache missed, the registry found it.
    assert_eq!(engine.hot_cache().stats(), (0, 1));
    assert_eq!(body_of(&mut engine, "GET", "/users/42"), (200, b"h1".to_vec()));
    assert_eq!(engine.hot_cache().stats(), (1, 1));
    assert_eq!(body_of(&mut engine, "GET", "/users/43"), (200, b"h1".to_vec()));
    assert_eq!(engine.hot_cache().stats(), (1, 2));
}

#[test]
fn a_route_that_resolves_nowhere_is_not_cached() {
    let mut engine: Tachyon<Handler> = Tachyon::new();
    engine.get("/users/:id", says("h1"));
    assert_eq!(body_of(&mut engine, "GET", "/nothing").0, 404);
    assert_eq!(body_of(&mut engine, "GET", "/nothing").0, 404);
    assert_eq!(engine.hot_cache().stats(), (0, 2));
}

#[test]
fn the_cache_is_not_invalidated_by_a_registration() {
    let mut engine: Tachyon<Handler> = Tachyon::new();
    engine.get("/users/:id", says("pattern"));
    assert_eq!(body_of(&mut engine, "GET", "/users/42"), (200, b"pattern".to_vec()));
    // The exact route is published in the snapshot, which is asked first.
    engine.get("/users/42", says("exact"));
    assert_eq!(body_of(&mut engine, "GET", "/users/42"), (200, b"exact".to_vec()));
    // The cached entry is still there for whoever asks the cache.
    let mut cache_only = engine.hot_cache().stats();
    assert_eq!(cache_only, (0, 1));
    assert_eq!(body_of(&mut engine, "GET", "/users/43"), (200, b"pattern".to_vec()));
    cache_only = engine.hot_cache().stats();
    assert_eq!(cache_only, (0, 2));
}

#[test]
fn find_route_looks_under_the_key_and_then_among_the_patterns() {
    let mut engine: Tachyon<Handler> = Tachyon::new();
    let exact = engine.get("/users/me", says("me"));
    let pattern = engine.get("/users/:id", says("id"));
    assert!(Arc::ptr_eq(&engine.find_route("0:/users/me").unwrap(), &exact));
    assert!(Arc::ptr_eq(&engine.find_route("0:/users/:id").unwrap(), &pattern));
    assert!(Arc::ptr_eq(&engine.find_route("0:/users/7").unwrap(), &pattern));
    assert!(engine.find_route("0:/users").is_none());
    assert!(engine.find_route("1:/users/7").is_none());
}

#[test]
fn lookup_exact_finds_only_the_very_key() {
    let mut engine: Tachyon<Handler> = Tachyon::new();
    let pattern = engine.get("/users/:id", says("id"));
    assert!(Arc::ptr_eq(&engine.lookup_exact("0:/users/:id").unwrap(), &pattern));
    assert!(engine.lookup_exact("0:/users/7").is_none());
    assert!(engine.lookup_exact("0:/users/").is_none());
    assert!(engine.lookup_exact("1:/users/:id").is_none());
}

#[test]
fn lookup_pattern_finds_a_route_whose_pattern_matches() {
    let mut engine: Tachyon<Handler> = Tachyon::new();
    let users = engine.get("/users/:id", says("user"));
    let posts = engine.get("/users/:id/posts/:post", says("post"));
    let literal = engine.post("/login", says("login"));
    assert!(Arc::ptr_eq(&engine.lookup_pattern("0:/users/7").unwrap(), &users));
    assert!(Arc::ptr_eq(&engine.lookup_pattern("0:/users/7/posts/9").unwrap(), &posts));
    assert!(Arc::ptr_eq(&engine.lookup_pattern("1:/login").unwrap(), &literal));
    assert!(engine.lookup_pattern("0:/users/7/posts").is_none());
    assert!(engine.lookup_pattern("0:/users//posts/9").is_none());
    assert!(engine.lookup_pattern("0:/login").is_none());
}

#[test]
fn lookup_pattern_may_find_any_of_several_matching_routes() {
    let mut engine: Tachyon<Handler> = Tachyon::new();
    let by_id = engine.get("/users/:id", says("id"));
    let by_name = engine.get("/users/:name", says("name"));
    let found = engine.lookup_pattern("0:/users/7").unwrap();
    assert!(Arc::ptr_eq(&found, &by_id) || Arc::ptr_eq(&found, &by_name));
}

#[test]
fn snapshot_taken_before_a_registration_does_not_see_it() {
    let mut engine: Tachyon<Handler> = Tachyon::new();
    let users = engine.get("/users", says("users"));
    let held = engine.snapshot();
    let posts = engine.get("/posts", says("posts"));
    let users_hash = fast_hash("0:/users");
    let posts_hash = fast_hash("0:/posts");
    assert_eq!(held.len(), 1);
    assert!(Arc::ptr_eq(held.get(&users_hash).unwrap(), &users));
    assert!(held.get(&posts_hash).is_none());
    let published = engine.snapshot();
    assert_eq!(published.len(), 2);
    assert!(Arc::ptr_eq(published.get(&users_hash).unwrap(), &users));
    assert!(Arc::ptr_eq(published.get(&posts_hash).unwrap(), &posts));
    assert!(!Arc::ptr_eq(&held, &published));
}

#[test]
fn snapshot_is_the_same_until_the_next_registration() {
    let mut engine: Tachyon<Handler> = Tachyon::new();
    engine.get("/users", says("users"));
    let one = engine.snapshot();
    let two = engine.snapshot();
    assert!(Arc::ptr_eq(&one, &two));
    assert!(engine.resolve("0:/users").is_some());
    assert!(Arc::ptr_eq(&one, &engine.snapshot()));
}

#[test]
fn new_engine_has_no_routes() {
    let engine: Tachyon<Handler> = Tachyon::new();
    assert!(engine.routes().is_empty());
    assert!(engine.snapshot().is_empty());
    assert!(engine.find_route("0:/").is_none());
    let other: Tachyon<Handler> = Tachyon::default();
    assert!(other.routes().is_empty());
}

#[test]
fn routes_lists_each_key_once_with_its_method() {
    let mut engine: Tachyon<Handler> = Tachyon::new();
    engine.get("/users", says("a"));
    engine.post("/users", says("b"));
    engine.patch("/users/:id", says("c"));
    engine.get("/users", says("d"));
    let mut listed = engine.routes();
    listed.sort();
    assert_eq!(
        listed,
        vec![
            ("0:/users".to_string(), 0u8),
            ("1:/users".to_string(), 1u8),
            ("4:/users/:id".to_string(), 4u8),
        ]
    );
}

#[test]
fn register_takes_the_method_name_in_any_case() {
    let mut engine: Tachyon<Handler> = Tachyon::new();
    assert!(engine.register("get", "/a", says("a")).is_ok());
    assert!(engine.register("Post", "/b", says("b")).is_ok());
    assert!(engine.register("DELETE", "/c", says("c")).is_ok());
    assert_eq!(body_of(&mut engine, "GET", "/a"), (200, b"a".to_vec()));
    assert_eq!(body_of(&mut engine, "POST", "/b"), (200, b"b".to_vec()));
    assert_eq!(body_of(&mut engine, "DELETE", "/c"), (200, b"c".to_vec()));
}

#[test]
fn register_refuses_a_method_outside_the_set() {
    let mut engine: Tachyon<Handler> = Tachyon::new();
    let refused = engine.register("Fetch", "/a", says("a"));
    match refused {
        Err(RegisterError::UnsupportedMethod { method }) => assert_eq!(method, "Fetch"),
        Ok(_) => panic!("a method outside the set was registered"),
    }
    assert!(engine.routes().is_empty());
    assert!(engine.snapshot().is_empty());
    let error = engine.register("", "/a", says("a")).err().unwrap();
    assert_eq!(error.message(), "Unsupported method: ");
}

#[test]
fn register_error_says_which_method_was_refused() {
    let error = RegisterError::UnsupportedMethod { method: "Fetch".to_string() };
    assert_eq!(error.message(), "Unsupported method: Fetch");
}

#[test]
fn dispatch_returns_method_and_handler() {
    let mut engine: Tachyon<Handler> = Tachyon::new();
    let handler = engine.put("/items/:id", says("item"));
    match engine.dispatch("PUT", "/items/3") {
        Ok((method, found)) => {
            assert_eq!(method, Method::Put);
            assert!(Arc::ptr_eq(&found, &handler));
        }
        Err(_) => panic!("the route did not resolve"),
    }
    assert_eq!(engine.dispatch("PUT", "/items").err().unwrap().status, 404);
    assert_eq!(engine.dispatch("TRACE", "/items/3").err().unwrap().status, 400);
}

#[test]
fn published_snapshot_answers_for_registered_keys_only() {
    let mut engine: Tachyon<Handler> = Tachyon::new();
    let users = engine.get("/users", says("users"));
    engine.get("/users/:id", says("user"));
    let held = engine.snapshot();
    match Tachyon::dispatch_published(&held, "GET", "/users") {
        Some(Ok((method, handler))) => {
            assert_eq!(method, Method::Get);
            assert!(Arc::ptr_eq(&handler, &users));
        }
        _ => panic!("the snapshot did not resolve a registered key"),
    }
    // A request that only a pattern matches has to go to the engine.
    assert!(Tachyon::dispatch_published(&held, "GET", "/users/42").is_none());
    assert!(Tachyon::dispatch_published(&held, "GET", "/missing").is_none());
    assert!(Tachyon::dispatch_published(&held, "POST", "/users").is_none());
    match Tachyon::dispatch_published(&held, "OPTIONS", "/users") {
        Some(Err(response)) => {
            assert_eq!(response.status, 400);
            assert_eq!(&response.body[..], b"{\"error\":\"Bad Request\"}");
        }
        _ => panic!("a method outside the set was not refused"),
    }
    // A snapshot taken earlier keeps answering as it did.
    let late = engine.get("/late", says("late"));
    assert!(Tachyon::dispatch_published(&held, "GET", "/late").is_none());
    match Tachyon::dispatch_published(&engine.snapshot(), "GET", "/late") {
        Some(Ok((_, handler))) => assert!(Arc::ptr_eq(&handler, &late)),
        _ => panic!("the new snapshot did not resolve the new key"),
    }
}

#[test]
fn json_body_reaches_the_handler_of_a_post() {
    let mut engine: Tachyon<Handler> = Tachyon::new();
    engine.post("/echo", echoes_body());
    let json = engine.handle_request_fast(
        "POST",
        "/echo",
        Some(&b"application/json"[..]),
        b"{\"a\":1}",
    );
    assert_eq!(json.status, 200);
    assert_eq!(&json.body[..], b"{\"a\":1}");
    let plain = engine.handle_request_fast("POST", "/echo", Some(&b"text/plain"[..]), b"{\"a\":1}");
    assert_eq!(plain.status, 200);
    assert_eq!(&plain.body[..], b"no body");
    let absent = engine.handle_request_fast("POST", "/echo", None, b"{\"a\":1}");
    assert_eq!(&absent.body[..], b"no body");
}

#[test]
fn a_body_that_is_no_json_is_no_error() {
    let mut engine: Tachyon<Handler> = Tachyon::new();
    engine.post("/echo", echoes_body());
    let broken = engine.handle_request_fast(
        "POST",
        "/echo",
        Some(&b"application/json"[..]),
        b"{\"a\":",
    );
    assert_eq!(broken.status, 200);
    assert_eq!(&broken.body[..], b"no body");
}

#[test]
fn only_methods_that_carry_a_body_have_it_parsed() {
    let mut engine: Tachyon<Handler> = Tachyon::new();
    engine.get("/echo", echoes_body());
    engine.delete("/echo", echoes_body());
    engine.put("/echo", echoes_body());
    engine.patch("/echo", echoes_body());
    let json = Some(&b"application/json"[..]);
    for method in ["GET", "DELETE"] {
        let response = engine.handle_request_fast(method, "/echo", json, b"[1,2]");
        assert_eq!(&response.body[..], b"no body");
    }
    for method in ["PUT", "PATCH"] {
        let response = engine.handle_request_fast(method, "/echo", json, b"[1,2]");
        assert_eq!(&response.body[..], b"[1,2]");
    }
}

#[test]
fn body_is_wanted_only_for_json_under_a_method_that_carries_one() {
    let json = Some(&b"application/json"[..]);
    let plain = Some(&b"text/plain"[..]);
    assert!(Tachyon::<Handler>::wants_body(Method::Post, json));
    assert!(Tachyon::<Handler>::wants_body(Method::Put, json));
    assert!(Tachyon::<Handler>::wants_body(Method::Patch, json));
    assert!(!Tachyon::<Handler>::wants_body(Method::Get, json));
    assert!(!Tachyon::<Handler>::wants_body(Method::Delete, json));
    assert!(!Tachyon::<Handler>::wants_body(Method::Post, plain));
    assert!(!Tachyon::<Handler>::wants_body(Method::Post, None));
}

#[test]
fn handlers_are_never_given_parameters() {
    let mut engine: Tachyon<Handler> = Tachyon::new();
    engine.get(
        "/users/:id",
        Box::new(|options: TachyonOptions| {
            if options.params.is_none() {
                ResponseData::ok(Bytes::from("no params"))
            } else {
                ResponseData::ok(Bytes::from("params"))
            }
        }),
    );
    assert_eq!(body_of(&mut engine, "GET", "/users/42"), (200, b"no params".to_vec()));
}

#[test]
fn execute_handler_puts_the_response_on_the_wire() {
    let handler: Arc<Handler> = Arc::new(Box::new(|_options: TachyonOptions| {
        ResponseData::new(Bytes::from("created"), 201)
    }));
    let response = Tachyon::execute_handler(handler, Method::Post, None, b"");
    assert_eq!(response.status, 201);
    assert_eq!(response.content_type, "application/json");
    assert_eq!(response.content_length, "7");
    assert_eq!(&response.body[..], b"created");
}

#[test]
fn a_status_that_is_no_status_code_is_sent_as_200() {
    let mut engine: Tachyon<Handler> = Tachyon::new();
    engine.get("/low", Box::new(|_| ResponseData::new(Bytes::from("x"), 99)));
    engine.get("/high", Box::new(|_| ResponseData::new(Bytes::from("x"), 1000)));
    engine.get("/teapot", Box::new(|_| ResponseData::new(Bytes::from("x"), 418)));
    assert_eq!(body_of(&mut engine, "GET", "/low").0, 200);
    assert_eq!(body_of(&mut engine, "GET", "/high").0, 200);
    assert_eq!(body_of(&mut engine, "GET", "/teapot").0, 418);
}
