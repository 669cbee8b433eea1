use memory_server::redis::RedisClient;
use memory_server::session::{resolve_session, RequestError};
use memory_server::types::Query;

fn query(id: &str, session: Option<&str>) -> Query {
    Query { message: "hello".to_string(), id: id.to_string(), session_id: session.map(|s| s.to_string()) }
}

#[test]
fn missing_user_id_is_a_bad_request() {
    let e = resolve_session(&query("", Some("s1"))).unwrap_err();
    assert!(matches!(e, RequestError::BadRequest(_)));
    assert_eq!(e.status_code(), 400);
    assert_eq!(e.message(), "please provide a user id");
}

#[test]
fn named_session_is_kept() {
    assert_eq!(resolve_session(&query("u1", Some("s1"))).unwrap(), "s1");
}

#[test]
fn new_session_gets_a_uuid() {
    let s = resolve_session(&query("u1", None)).unwrap();
    assert_eq!(s.len(), 36);
    let cs: Vec<char> = s.chars().collect();
    for i in [8, 13, 18, 23] {
        assert_eq!(cs[i], '-');
    }
    assert_eq!(cs[14], '4');
    assert!(matches!(cs[19], '8' | '9' | 'a' | 'b'));
    assert!(cs.iter().enumerate().all(|(i, c)| [8, 13, 18, 23].contains(&i) || c.is_ascii_hexdigit() && !c.is_ascii_uppercase()));
    assert_ne!(resolve_session(&query("u1", None)).unwrap(), s);
}

#[test]
fn internal_error_is_500() {
    let e = RequestError::Internal("connection refused".to_string());
    assert_eq!(e.status_code(), 500);
    assert_eq!(e.message(), "connection refused");
}

#[test]
fn redis_handle_keeps_its_client() {
    let client = redis::Client::open("redis://127.0.0.1/").unwrap();
    let handle = RedisClient::from_client(client);
    assert_eq!(handle.client_ref().get_connection_info().addr().to_string(), "127.0.0.1:6379");
}
