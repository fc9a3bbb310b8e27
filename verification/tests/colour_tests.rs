use cbn_client::colour::{Colour, ColourState, LED_COUNT};

#[test]
fn rgb_keeps_channels() {
    let colour = Colour::rgb(128, 127, 129);
    assert_eq!(colour.red, 128);
    assert_eq!(colour.green, 127);
    assert_eq!(colour.blue, 129);
    assert_eq!(colour, Colour { red: 128, green: 127, blue: 129 });
}

#[test]
fn state_needs_exactly_ten_colours() {
    let red = Colour::rgb(255, 0, 0);
    assert!(ColourState::new(vec![]).is_none());
    assert!(ColourState::new(vec![red; 9]).is_none());
    assert!(ColourState::new(vec![red; 11]).is_none());
    let state = ColourState::new(vec![red; 10]).expect("ten colours make a state");
    assert_eq!(state.leds().len(), LED_COUNT);
}

#[test]
fn state_keeps_the_order_of_its_colours() {
    let colours: Vec<Colour> = (0..10u8).map(|i| Colour::rgb(i, 10 * i, 255 - i)).collect();
    let state = ColourState::new(colours.clone()).expect("ten colours make a state");
    assert_eq!(state.leds(), &colours);
    for position in 0..10usize {
        assert_eq!(state.get(position), Some(colours[position]));
    }
    assert_eq!(state.get(10), None);
    assert_eq!(state.get(usize::MAX), None);
}

#[test]
fn uniform_state_has_one_colour_everywhere() {
    let teal = Colour::rgb(0, 128, 128);
    let state = ColourState::uniform(teal);
    assert_eq!(state.leds(), &vec![teal; 10]);
}

#[test]
fn clone_of_a_state_has_the_same_colours() {
    let colours: Vec<Colour> = (0..10u8).map(|i| Colour::rgb(i, i, i)).collect();
    let state = ColourState::new(colours.clone()).expect("ten colours make a state");
    let copy = state.clone();
    assert_eq!(copy.leds(), state.leds());
}
