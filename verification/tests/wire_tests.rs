use cbn_client::colour::{Colour, ColourState};
use cbn_client::decode::decode_colour_state;
use cbn_client::encode::{encode_colour, encode_colour_state};

fn rainbow() -> ColourState {
    let colours: Vec<Colour> = vec![
        Colour::rgb(0, 0, 0),
        Colour::rgb(255, 255, 255),
        Colour::rgb(1, 10, 100),
        Colour::rgb(9, 99, 199),
        Colour::rgb(200, 20, 2),
        Colour::rgb(128, 127, 129),
        Colour::rgb(5, 50, 250),
        Colour::rgb(19, 91, 119),
        Colour::rgb(101, 110, 11),
        Colour::rgb(254, 0, 7),
    ];
    ColourState::new(colours).expect("ten colours make a state")
}

const RAINBOW_TEXT: &str = "{\"0\":[0,0,0],\"1\":[255,255,255],\"2\":[1,10,100],\"3\":[9,99,199],\"4\":[200,20,2],\"5\":[128,127,129],\"6\":[5,50,250],\"7\":[19,91,119],\"8\":[101,110,11],\"9\":[254,0,7]}";

const RED_TEXT: &str = "{\"0\":[255,0,0],\"1\":[255,0,0],\"2\":[255,0,0],\"3\":[255,0,0],\"4\":[255,0,0],\"5\":[255,0,0],\"6\":[255,0,0],\"7\":[255,0,0],\"8\":[255,0,0],\"9\":[255,0,0]}";

#[test]
fn colour_serialize() {
    let col = Colour::rgb(128, 127, 129);

    assert_eq!(r#"[128,127,129]"#, encode_colour(&col))
}

#[test]
fn colour_text_has_no_leading_zeros_or_spaces() {
    assert_eq!(encode_colour(&Colour::rgb(0, 0, 0)), "[0,0,0]");
    assert_eq!(encode_colour(&Colour::rgb(255, 255, 255)), "[255,255,255]");
    assert_eq!(encode_colour(&Colour::rgb(9, 10, 99)), "[9,10,99]");
    assert_eq!(encode_colour(&Colour::rgb(100, 101, 7)), "[100,101,7]");
}

#[test]
fn every_channel_value_is_written_in_decimal() {
    for value in 0..=255u8 {
        let expected = format!("[{},{},{}]", value, 255 - value, value / 2);
        assert_eq!(encode_colour(&Colour::rgb(value, 255 - value, value / 2)), expected);
    }
}

#[test]
fn uniform_red_state_is_written_with_keys_in_order() {
    let state = ColourState::uniform(Colour::rgb(255, 0, 0));
    assert_eq!(encode_colour_state(&state), RED_TEXT);
}

#[test]
fn state_text_is_a_json_object_of_ten_arrays() {
    let text = encode_colour_state(&ColourState::uniform(Colour::rgb(255, 0, 0)));
    let parsed: serde_json::Value = serde_json::from_str(&text).expect("the text is JSON");
    let object = parsed.as_object().expect("the text is a JSON object");
    assert_eq!(object.len(), 10);
    for position in 0..10 {
        let colour = object.get(&position.to_string()).expect("every position has its key");
        let channels: Vec<u64> = colour
            .as_array()
            .expect("a colour is an array")
            .iter()
            .map(|channel| channel.as_u64().expect("a channel is a whole number"))
            .collect();
        assert_eq!(channels, vec![255, 0, 0]);
    }
}

#[test]
fn state_text_agrees_with_serde_json() {
    let state = rainbow();
    let mut object = serde_json::Map::new();
    for (position, colour) in state.leds().iter().enumerate() {
        let channels = vec![
            serde_json::Value::from(colour.red),
            serde_json::Value::from(colour.green),
            serde_json::Value::from(colour.blue),
        ];
        object.insert(position.to_string(), serde_json::Value::Array(channels));
    }
    let expected = serde_json::to_string(&serde_json::Value::Object(object)).expect("serialises");
    assert_eq!(encode_colour_state(&state), expected);
}

#[test]
fn mixed_state_is_written_position_by_position() {
    assert_eq!(encode_colour_state(&rainbow()), RAINBOW_TEXT);
}

#[test]
fn encoding_twice_gives_the_same_text() {
    let state = rainbow();
    assert_eq!(encode_colour_state(&state), encode_colour_state(&state));
    assert_eq!(encode_colour_state(&state.clone()), encode_colour_state(&state));
}

#[test]
fn decoding_gives_back_what_was_encoded() {
    let state = rainbow();
    let read = decode_colour_state(&encode_colour_state(&state)).expect("own text is read back");
    assert_eq!(read.leds(), state.leds());
    let red = ColourState::uniform(Colour::rgb(255, 0, 0));
    let read = decode_colour_state(RED_TEXT).expect("own text is read back");
    assert_eq!(read.leds(), red.leds());
}

#[test]
fn round_trip_holds_for_every_channel_value() {
    for value in 0..=255u8 {
        let colours: Vec<Colour> =
            (0..10u8).map(|i| Colour::rgb(value, value.wrapping_add(i), 255 - value)).collect();
        let state = ColourState::new(colours).expect("ten colours make a state");
        let text = encode_colour_state(&state);
        let read = decode_colour_state(&text).expect("own text is read back");
        assert_eq!(read.leds(), state.leds());
        assert_eq!(encode_colour_state(&read), text);
    }
}

#[test]
fn decoding_rejects_what_encoding_never_writes() {
    let rejected = [
        "",
        "{",
        "{}",
        "[]",
        "null",
        &RED_TEXT[..RED_TEXT.len() - 1],
        &RED_TEXT[1..],
        &format!("{} ", RED_TEXT),
        &format!(" {}", RED_TEXT),
        &format!("{}}}", RED_TEXT),
        &RED_TEXT.replace("255", "256"),
        &RED_TEXT.replace("255", "0255"),
        &RED_TEXT.replace("255", "+255"),
        &RED_TEXT.replace("255", "2550"),
        &RED_TEXT.replace("255", ""),
        &RED_TEXT.replace("[255,0,0]", "[255,0]"),
        &RED_TEXT.replace("[255,0,0]", "[255,0,0,0]"),
        &RED_TEXT.replace(",0]", ",00]"),
        &RED_TEXT.replace(",0]", ",-0]"),
        &RED_TEXT.replace(",0,", ", 0,"),
        &RED_TEXT.replace(":", ": "),
        &RED_TEXT.replace("\"9\"", "\"10\""),
        &RED_TEXT.replace("\"3\"", "\"4\""),
        &RED_TEXT.replace("\"0\"", "0"),
        &RED_TEXT.replace("\"0\":[255,0,0],", ""),
        &RED_TEXT.replace("],", "];"),
        &RED_TEXT.replace("255", "２55"),
        &RED_TEXT.replace("255", "25\u{e9}"),
    ];
    for text in rejected {
        assert!(decode_colour_state(text).is_none(), "accepted {:?}", text);
    }
}

#[test]
fn decoding_rejects_keys_out_of_order() {
    let swapped = RAINBOW_TEXT
        .replace("\"0\":[0,0,0]", "\"1\":[0,0,0]")
        .replacen("\"1\":[255,255,255]", "\"0\":[255,255,255]", 1);
    assert!(decode_colour_state(&swapped).is_none());
}

#[test]
fn decoding_reads_channel_limits() {
    let text = RED_TEXT.replace("[255,0,0]", "[0,255,199]");
    let read = decode_colour_state(&text).expect("a text that encoding writes");
    assert_eq!(read.leds(), &vec![Colour::rgb(0, 255, 199); 10]);
}
