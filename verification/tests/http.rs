use slight::http::{router_delete, router_get, router_new, router_new_with_base, router_post, router_put, Methods, RouterInner, RouterProxy};
use slight::http_api::{BodyError, HttpBody, HttpHeader, Method, MAX_ALLOWED_SIZE};

#[test]
fn router_records_routes_in_order() {
    let mut router = RouterInner::new("/api");
    let copy = router.get("/a".to_string(), "handle_a".to_string()).unwrap();
    assert_eq!(copy.routes().len(), 1);
    router.put("/b".to_string(), "handle_b".to_string()).unwrap();
    router.post("/c".to_string(), "handle_c".to_string()).unwrap();
    let last = router.delete("/d".to_string(), "handle_d".to_string()).unwrap();
    let routes = router.routes();
    assert_eq!(routes.len(), 4);
    assert_eq!(routes[0].method, Methods::GET);
    assert_eq!(routes[1].method, Methods::PUT);
    assert_eq!(routes[2].method, Methods::POST);
    assert_eq!(routes[3].method, Methods::DELETE);
    assert_eq!(routes[2].route, "/c");
    assert_eq!(routes[3].handler, "handle_d");
    assert_eq!(last.routes().len(), 4);
    assert_eq!(last.base_uri(), "/api");
    assert_eq!(router.base_uri(), "/api");
}

#[test]
fn free_router_functions_leave_the_router_unchanged() {
    let base = router_new_with_base("http://localhost").unwrap();
    let r1 = router_get(&base, "/x", "hx").unwrap();
    let r2 = router_put(&r1, "/y", "hy").unwrap();
    let r3 = router_post(&r2, "/z", "hz").unwrap();
    let r4 = router_delete(&r3, "/w", "hw").unwrap();
    assert_eq!(base.routes().len(), 0);
    assert_eq!(r1.routes().len(), 1);
    assert_eq!(r4.routes().len(), 4);
    assert_eq!(r4.routes()[3].method, Methods::DELETE);
    assert_eq!(r4.routes()[0].handler, "hx");
    assert_eq!(r4.base_uri(), "http://localhost");
    let empty = router_new().unwrap();
    assert_eq!(empty.base_uri(), "");
    assert_eq!(empty.routes().len(), 0);
}

#[test]
fn router_proxy_adds_get_routes() {
    let mut proxy = RouterProxy::new_with_base(Some("/base".to_string()));
    let copy = proxy.get("/hello".to_string(), "handle_hello".to_string()).unwrap();
    assert_eq!(copy.routes().len(), 1);
    assert_eq!(copy.routes()[0].method, Methods::GET);
    assert_eq!(proxy.routes()[0].route, "/hello");
    let fresh = RouterProxy::new();
    assert_eq!(fresh.routes().len(), 0);
}

#[test]
fn method_names_round_trip() {
    for m in [
        Method::Get,
        Method::Post,
        Method::Put,
        Method::Delete,
        Method::Patch,
        Method::Head,
        Method::Options,
    ] {
        assert_eq!(Method::from_name(m.name()), Some(m));
    }
    assert_eq!(Method::Patch.name(), "PATCH");
    assert_eq!(Method::from_name("TRACE"), None);
    assert_eq!(Method::from_name("get"), None);
}

#[test]
fn body_and_header_wrappers() {
    let body = HttpBody::new(vec![1, 2, 3]);
    assert_eq!(body.inner(), vec![1, 2, 3]);
    let header = HttpHeader::new(vec![("Content-Type", "text/plain")]);
    assert_eq!(header.inner(), vec![("Content-Type", "text/plain")]);
    assert_eq!(HttpBody::check_size_hint(Some(10)), Ok(10));
    assert_eq!(HttpBody::check_size_hint(None), Err(BodyError::UnknownSize));
    assert_eq!(
        HttpBody::check_size_hint(Some(u64::MAX)),
        Err(BodyError::TooLarge { size: u64::MAX, allowed: MAX_ALLOWED_SIZE })
    );
}
