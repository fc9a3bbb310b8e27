use cbn_client::colour::{Colour, ColourState};
use cbn_client::lock::{parse_lock_response, Lock};
use cbn_client::submit::{SetColourRequest, SubmitError};

fn lock_with_token(token: &str) -> Lock {
    let mut status = serde_json::Map::new();
    status.insert("code".to_string(), serde_json::Value::from(1u64));
    status.insert("description".to_string(), serde_json::Value::from("ok"));
    let mut response = serde_json::Map::new();
    response.insert("status".to_string(), serde_json::Value::Object(status));
    response.insert("hash".to_string(), serde_json::Value::from(token));
    let body = serde_json::to_vec(&serde_json::Value::Object(response)).expect("serialises");
    parse_lock_response(&body).expect("the lock is granted")
}

#[test]
fn request_carries_token_and_colour_text() {
    let lock = lock_with_token("abc123");
    let request = SetColourRequest::new(&lock, &ColourState::uniform(Colour::rgb(255, 0, 0)));
    assert_eq!(request.hash, "abc123");
    assert_eq!(
        request.colours,
        "{\"0\":[255,0,0],\"1\":[255,0,0],\"2\":[255,0,0],\"3\":[255,0,0],\"4\":[255,0,0],\"5\":[255,0,0],\"6\":[255,0,0],\"7\":[255,0,0],\"8\":[255,0,0],\"9\":[255,0,0]}"
    );
}

#[test]
fn request_keeps_a_token_with_reserved_characters() {
    let token = "a b&c=d/é\"{}";
    let lock = lock_with_token(token);
    let request = SetColourRequest::new(&lock, &ColourState::uniform(Colour::rgb(1, 2, 3)));
    assert_eq!(request.hash, token);
}

#[test]
fn query_pairs_are_hash_then_colours() {
    let lock = lock_with_token("t");
    let request = SetColourRequest::new(&lock, &ColourState::uniform(Colour::rgb(0, 0, 0)));
    let pairs = request.query_pairs();
    assert_eq!(pairs.len(), 2);
    assert_eq!(pairs[0], ("hash".to_string(), "t".to_string()));
    assert_eq!(pairs[1].0, "colours");
    assert_eq!(pairs[1].1, request.colours);
}

#[test]
fn colours_parameter_is_one_json_string() {
    let lock = lock_with_token("t");
    let request = SetColourRequest::new(&lock, &ColourState::uniform(Colour::rgb(7, 8, 9)));
    let pairs = request.query_pairs();
    let inner: serde_json::Value = serde_json::from_str(&pairs[1].1).expect("JSON text");
    assert_eq!(inner.as_object().map(|object| object.len()), Some(10));
}

#[test]
fn submit_transport_failures_are_told_apart() {
    assert!(matches!(SubmitError::from_transport(true, "slow".to_string()), SubmitError::Timeout));
    match SubmitError::from_transport(false, "tls handshake".to_string()) {
        SubmitError::Transport(cause) => assert_eq!(cause, "tls handshake"),
        other => panic!("unexpected error: {:?}", other),
    }
}
