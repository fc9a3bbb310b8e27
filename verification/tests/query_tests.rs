use cbn_client::colour::{Colour, ColourState};
use cbn_client::lock::{parse_lock_response, Lock};
use cbn_client::query::encode_query;
use cbn_client::submit::SetColourRequest;

fn pair(name: &str, value: &str) -> (String, String) {
    (name.to_string(), value.to_string())
}

fn lock_with_token(token: &str) -> Lock {
    let mut status = serde_json::Map::new();
    status.insert("code".to_string(), serde_json::Value::from(1u64));
    status.insert("description".to_string(), serde_json::Value::from("ok"));
    let mut response = serde_json::Map::new();
    response.insert("status".to_string(), serde_json::Value::Object(status));
    response.insert("hash".to_string(), serde_json::Value::from(token));
    let body = serde_json::to_vec(&serde_json::Value::Object(response)).expect("serialises");
    parse_lock_response(&body).expect("the lock is granted")
}

fn query_by_reqwest(pairs: &Vec<(String, String)>) -> String {
    let request = reqwest::Client::new()
        .get("http://localhost/setColours")
        .query(pairs)
        .build()
        .expect("the request can be built");
    request.url().query().unwrap_or("").to_string()
}

#[test]
fn plain_characters_stand_for_themselves() {
    let plain = "ABCXYZabcxyz0123456789*-._";
    assert_eq!(encode_query(&vec![pair(plain, plain)]), format!("{}={}", plain, plain));
}

#[test]
fn space_becomes_plus_and_the_rest_percent_hex() {
    assert_eq!(encode_query(&vec![pair("a b", "c+d")]), "a+b=c%2Bd");
    assert_eq!(encode_query(&vec![pair("k", "[1,2]")]), "k=%5B1%2C2%5D");
    assert_eq!(encode_query(&vec![pair("k", "{\"0\":7}")]), "k=%7B%220%22%3A7%7D");
    assert_eq!(encode_query(&vec![pair("k", "~/?#&=%")]), "k=%7E%2F%3F%23%26%3D%25");
    assert_eq!(encode_query(&vec![pair("k", "\u{0}\u{1f}\u{7f}")]), "k=%00%1F%7F");
    assert_eq!(encode_query(&vec![pair("k", "@`^")]), "k=%40%60%5E");
}

#[test]
fn text_outside_ascii_is_escaped_byte_by_byte() {
    assert_eq!(encode_query(&vec![pair("k", "é")]), "k=%C3%A9");
    assert_eq!(encode_query(&vec![pair("k", "€")]), "k=%E2%82%AC");
    assert_eq!(encode_query(&vec![pair("k", "😀")]), "k=%F0%9F%98%80");
}

#[test]
fn parameters_are_joined_by_ampersand() {
    assert_eq!(encode_query(&vec![]), "");
    assert_eq!(encode_query(&vec![pair("a", "")]), "a=");
    assert_eq!(encode_query(&vec![pair("", "")]), "=");
    assert_eq!(encode_query(&vec![pair("a", "1"), pair("b", "2"), pair("c", "3")]), "a=1&b=2&c=3");
}

#[test]
fn every_byte_is_escaped_as_reqwest_escapes_it() {
    for code in 0u32..0x250 {
        let Some(c) = char::from_u32(code) else { unreachable!() };
        let pairs = vec![pair("k", &format!("x{}y", c)), pair(&c.to_string(), "v")];
        assert_eq!(encode_query(&pairs), query_by_reqwest(&pairs), "for U+{:04X}", code);
    }
}

#[test]
fn request_query_string_is_what_reqwest_sends() {
    let lock = lock_with_token("a1/b2+c3 d4=&é");
    let colours: Vec<Colour> = (0..10u8).map(|i| Colour::rgb(i, 25 * i, 255 - i)).collect();
    let state = ColourState::new(colours).expect("ten colours make a state");
    let request = SetColourRequest::new(&lock, &state);
    assert_eq!(request.query_string(), query_by_reqwest(&request.query_pairs()));
}

#[test]
fn request_query_string_for_uniform_red() {
    let lock = lock_with_token("abc123");
    let request = SetColourRequest::new(&lock, &ColourState::uniform(Colour::rgb(255, 0, 0)));
    let mut expected = String::from("hash=abc123&colours=%7B");
    for position in 0..10 {
        if position > 0 {
            expected.push_str("%2C");
        }
        expected.push_str(&format!("%22{}%22%3A%5B255%2C0%2C0%5D", position));
    }
    expected.push_str("%7D");
    assert_eq!(request.query_string(), expected);
}

#[test]
fn query_string_survives_being_put_behind_a_url() {
    let lock = lock_with_token("to ken/=&%+é");
    let request = SetColourRequest::new(&lock, &ColourState::uniform(Colour::rgb(1, 22, 133)));
    let query = request.query_string();
    let built = reqwest::Client::new()
        .get(format!("http://localhost/setColours?{}", query))
        .build()
        .expect("the request can be built");
    assert_eq!(built.url().query(), Some(query.as_str()));
}
