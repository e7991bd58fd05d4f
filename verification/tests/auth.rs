use axum::http::{HeaderMap, HeaderValue};
use axum_realtime_kit::auth::{
    get_token, get_token_from_headers, get_token_from_pairs, get_token_from_query, TokenValidator,
    WsAuth,
};

fn headers(value: &[u8]) -> HeaderMap {
    let mut headers = HeaderMap::new();
    headers.insert("Authorization", HeaderValue::from_bytes(value).unwrap());
    headers
}

fn pairs(pairs: &[(&str, &str)]) -> Vec<(String, String)> {
    pairs.iter().map(|(name, value)| (name.to_string(), value.to_string())).collect()
}

fn some(token: &str) -> Option<String> {
    Some(token.to_string())
}

#[test]
fn bearer_token_is_what_follows_the_scheme() {
    assert_eq!(get_token_from_headers(&headers(b"Bearer abc.def")), some("abc.def"));
    assert_eq!(get_token_from_headers(&headers(b"Bearer ")), some(""));
    assert_eq!(get_token_from_headers(&headers(b"Bearer  a b")), some(" a b"));
    assert_eq!(get_token_from_headers(&headers(b"bearer abc")), None);
    assert_eq!(get_token_from_headers(&headers(b"Bearer")), None);
    assert_eq!(get_token_from_headers(&headers(b"Basic abc")), None);
    assert_eq!(get_token_from_headers(&headers(b"")), None);
    assert_eq!(get_token_from_headers(&HeaderMap::new()), None);
}

#[test]
fn header_name_matches_in_any_case() {
    let mut headers = HeaderMap::new();
    headers.insert("AUTHORIZATION", HeaderValue::from_static("Bearer x"));
    assert_eq!(get_token_from_headers(&headers), some("x"));
}

#[test]
fn first_value_of_the_header_counts() {
    let mut headers = HeaderMap::new();
    headers.append("authorization", HeaderValue::from_static("Basic x"));
    headers.append("authorization", HeaderValue::from_static("Bearer y"));
    assert_eq!(get_token_from_headers(&headers), None);
    let mut headers = HeaderMap::new();
    headers.append("authorization", HeaderValue::from_static("Bearer y"));
    headers.append("authorization", HeaderValue::from_static("Basic x"));
    assert_eq!(get_token_from_headers(&headers), some("y"));
}

#[test]
fn header_value_has_to_be_text() {
    assert_eq!(get_token_from_headers(&headers(b"Bearer a\tb")), some("a\tb"));
    assert_eq!(get_token_from_headers(&headers(b"Bearer ~")), some("~"));
    assert_eq!(get_token_from_headers(&headers("Bearer é".as_bytes())), None);
    assert_eq!(get_token_from_headers(&headers(&[b'B', 0xff])), None);
}

#[test]
fn query_token_is_decoded() {
    assert_eq!(get_token_from_query("token=abc"), some("abc"));
    assert_eq!(get_token_from_query("a=1&token=x%20y+z&b=2"), some("x y z"));
    assert_eq!(get_token_from_query("token="), some(""));
    assert_eq!(get_token_from_query("token"), some(""));
    assert_eq!(get_token_from_query("to%6ben=k"), some("k"));
    assert_eq!(get_token_from_query("a1a2a3a4:alice"), None);
    assert_eq!(
        get_token_from_query("token=a1a2a3a4-b1b2-c1c2-d1d2-d3d4d5d6d7d8:alice"),
        some("a1a2a3a4-b1b2-c1c2-d1d2-d3d4d5d6d7d8:alice")
    );
}

#[test]
fn query_without_exactly_one_token_has_none() {
    assert_eq!(get_token_from_query(""), None);
    assert_eq!(get_token_from_query("Token=abc"), None);
    assert_eq!(get_token_from_query("token=a&token=b"), None);
    assert_eq!(get_token_from_query("token=a b"), None);
}

#[test]
fn a_query_may_be_as_long_as_a_uri() {
    let token = "a".repeat(65_533 - "token=".len());
    assert_eq!(get_token_from_query(&format!("token={}", token)), Some(token.clone()));
    assert_eq!(get_token_from_query(&format!("token={}a", token)), None);
}

#[test]
fn token_among_pairs() {
    assert_eq!(get_token_from_pairs(&pairs(&[])), None);
    assert_eq!(get_token_from_pairs(&pairs(&[("token", "t")])), some("t"));
    assert_eq!(get_token_from_pairs(&pairs(&[("a", "b"), ("token", "t"), ("c", "d")])), some("t"));
    assert_eq!(get_token_from_pairs(&pairs(&[("token", "t"), ("token", "t")])), None);
    assert_eq!(get_token_from_pairs(&pairs(&[("tokens", "t")])), None);
}

#[test]
fn header_takes_precedence_over_query() {
    assert_eq!(get_token(&headers(b"Bearer h"), "token=q"), some("h"));
    assert_eq!(get_token(&headers(b"Basic h"), "token=q"), some("q"));
    assert_eq!(get_token(&HeaderMap::new(), "token=q"), some("q"));
    assert_eq!(get_token(&HeaderMap::new(), "q"), None);
}

struct Secret;

impl TokenValidator for Secret {
    type User = i64;
    type Error = &'static str;

    fn validate_token(&self, token: &str) -> Result<i64, &'static str> {
        if token == "secret-token" {
            Ok(123)
        } else {
            Err("Invalid token")
        }
    }
}

#[test]
fn only_a_validated_user_is_admitted() {
    let admitted = WsAuth::from_request_parts(&headers(b"Bearer secret-token"), "", &Secret);
    assert_eq!(admitted.unwrap().0, 123);
    let admitted = WsAuth::from_request_parts(&HeaderMap::new(), "token=secret-token", &Secret);
    assert_eq!(admitted.unwrap().0, 123);
    let rejected = WsAuth::from_request_parts(&headers(b"Bearer other"), "token=secret-token", &Secret);
    assert_eq!(rejected.unwrap_err(), 401);
    let rejected = WsAuth::from_request_parts(&HeaderMap::new(), "", &Secret);
    assert_eq!(rejected.unwrap_err(), 401);
}

#[test]
fn outcome_of_validation_decides() {
    assert_eq!(WsAuth::decide::<()>(Ok(5)).unwrap().0, 5);
    assert_eq!(WsAuth::<u8>::decide(Err("no")).unwrap_err(), 401);
}
