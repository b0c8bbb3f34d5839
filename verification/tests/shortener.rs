use url_shortener::{IdEncoder, KVService, Method, Reply, Request, Status, UniqueIdGen, UrlShortener};

const URL: &str = "/www.youtube.com/watch?v=lL9zveDz8H12";

fn shortener() -> UrlShortener {
    UrlShortener::new(KVService::new(), UniqueIdGen::new())
}

fn req(method: Method, path: &str) -> Request {
    Request { method, path: path.to_string() }
}

fn reference_code(id: u64) -> String {
    hash_ids::HashIds::builder().with_salt("Arbitrary string").finish().encode(&[id])
}

#[test]
fn test_service() {
    let mut service = shortener();
    let first = service.call(req(Method::Get, URL));
    let second = service.call(req(Method::Post, URL));
    assert_eq!(first.status, Status::NotFound);
    assert_eq!(second.status, Status::Success);
}

#[test]
fn get_unknown_is_not_found_with_empty_body() {
    let mut service = shortener();
    let reply = service.call(req(Method::Get, "/nothing"));
    assert_eq!(reply.status, Status::NotFound);
    assert_eq!(reply.body, "");
}

#[test]
fn other_methods_are_not_found() {
    let mut service = shortener();
    service.call(req(Method::Post, URL));
    let reply = service.call(req(Method::Other, URL));
    assert_eq!(reply.status, Status::NotFound);
    assert_eq!(reply.body, "");
}

#[test]
fn post_gives_slash_and_code_of_first_id() {
    let mut service = shortener();
    let reply = service.call(req(Method::Post, URL));
    assert_eq!(reply.status, Status::Success);
    assert_eq!(reply.body, format!("/{}", reference_code(0)));
    assert!(reply.body.starts_with('/'));
    assert!(reply.body.len() >= 2);
}

#[test]
fn get_after_post_gives_short_and_back() {
    let mut service = shortener();
    let Reply { body: short, .. } = service.call(req(Method::Post, URL));
    let by_long = service.call(req(Method::Get, URL));
    assert_eq!(by_long.status, Status::Success);
    assert_eq!(by_long.body, short);
    let by_short = service.call(req(Method::Get, &short));
    assert_eq!(by_short.status, Status::Success);
    assert_eq!(by_short.body, URL);
}

#[test]
fn second_post_is_answered_the_same() {
    let mut service = shortener();
    let first = service.call(req(Method::Post, URL));
    let second = service.call(req(Method::Post, URL));
    assert_eq!(second.status, Status::Success);
    assert_eq!(second.body, first.body);
    // the counter was not advanced by the second POST
    let third = service.call(req(Method::Post, "/another"));
    assert_eq!(third.body, format!("/{}", reference_code(1)));
}

#[test]
fn post_of_short_url_gives_long_url() {
    let mut service = shortener();
    let short = service.call(req(Method::Post, URL)).body;
    let again = service.call(req(Method::Post, &short));
    assert_eq!(again.status, Status::Success);
    assert_eq!(again.body, URL);
}

#[test]
fn posts_keep_earlier_bindings() {
    let mut service = shortener();
    let a = service.call(req(Method::Post, "/a")).body;
    let b = service.call(req(Method::Post, "/b")).body;
    assert_ne!(a, b);
    assert_eq!(service.call(req(Method::Get, &a)).body, "/a");
    assert_eq!(service.call(req(Method::Get, &b)).body, "/b");
    assert_eq!(service.call(req(Method::Get, "/a")).body, a);
    assert_eq!(service.call(req(Method::Get, "/b")).body, b);
}

#[test]
fn shorten_with_id_uses_the_given_id() {
    let mut service = shortener();
    let reply = service.shorten_with_id("/page".to_string(), 12345);
    assert_eq!(reply.status, Status::Success);
    assert_eq!(reply.body, format!("/{}", reference_code(12345)));
    assert_eq!(service.lookup("/page".to_string()).body, reply.body);
    assert_eq!(service.lookup(reply.body.clone()).body, "/page");
}

#[test]
fn lookup_does_not_change_the_store() {
    let mut service = shortener();
    service.call(req(Method::Get, URL));
    let reply = service.call(req(Method::Post, URL));
    assert_eq!(reply.body, format!("/{}", reference_code(0)));
}

#[test]
fn short_url_is_slash_and_code() {
    let service = shortener();
    assert_eq!(service.short_url(7), format!("/{}", reference_code(7)));
    assert_ne!(service.short_url(7), "7");
}

#[test]
fn encoder_matches_documented_value() {
    let encoder = IdEncoder::with_salt("Arbitrary string");
    assert_eq!(encoder.encode(&[1, 2, 3]), "neHrCa");
    assert_eq!(encoder.encode(&[]), "");
}

#[test]
fn encoder_default_salt_values() {
    let encoder = IdEncoder::with_salt("");
    assert_eq!(encoder.encode(&[1]), "jR");
    assert_eq!(encoder.encode(&[12345]), "j0gW");
}

#[test]
fn ids_count_up_from_zero() {
    let mut ids = UniqueIdGen::new();
    assert_eq!(ids.next_id(), 0);
    assert_eq!(ids.next_id(), 1);
    assert_eq!(ids.next_id(), 2);
}

#[test]
fn distinct_posts_use_consecutive_ids_and_map_back() {
    let mut service = shortener();
    let urls = ["/one", "/two", "/three", "/four"];
    let shorts: Vec<String> = urls.iter().map(|u| service.call(req(Method::Post, u)).body).collect();
    for (i, (url, short)) in urls.iter().zip(shorts.iter()).enumerate() {
        assert_eq!(*short, format!("/{}", reference_code(i as u64)));
        assert_eq!(service.call(req(Method::Get, short)).body, *url);
        assert_eq!(service.call(req(Method::Get, url)).body, *short);
    }
}

#[test]
fn new_shortener_uses_documented_salt() {
    let service = shortener();
    assert_eq!(service.hash_ids.salt, "Arbitrary string");
}
