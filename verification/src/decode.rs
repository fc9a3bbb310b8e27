//! Reading back what was written for the service.

use crate::colour::{Colour, ColourState, LED_COUNT};
use crate::format::{
    colour_text, decimal, digit, entries_text, lemma_decimal_digits, lemma_entries_step,
    state_text,
};
use vstd::prelude::*;

verus! {

/// The colour assignment that a text stands for: the one that is written
/// as this text, if there is one.
pub open spec fn decoded(text: Seq<char>) -> Option<Seq<Colour>> {
    if exists|leds: Seq<Colour>| leds.len() == LED_COUNT && state_text(leds) == text {
        Some(choose|leds: Seq<Colour>| leds.len() == LED_COUNT && state_text(leds) == text)
    } else {
        None
    }
}

/// Reads a colour assignment from the text that `encode_colour_state`
/// writes for it. Any other text stands for no assignment.
pub fn decode_colour_state(text: &str) -> (state: Option<ColourState>)
    ensures
        match state {
            Some(state) => decoded(text@) == Some(state@),
            None => decoded(text@) is None,
        },
{
    if !text.is_ascii() {
        proof {
            assert forall|full: Seq<Colour>| state_text(full) != text@ by {
                lemma_entries_ascii(full);
            }
        }
        return None;
    }
    let n = length(text);
    if n == 0 || char_at(text, 0) != '{' {
        proof {
            assert forall|full: Seq<Colour>| state_text(full) != text@ by {
                assert(state_text(full)[0] == '{');
            }
        }
        return None;
    }
    let mut leds: Vec<Colour> = Vec::new();
    let mut at: usize = 1;
    proof {
        assert(prefix_text(leds@) =~= seq!['{']);
        assert forall|k: int| 0 <= k < prefix_text(leds@).len() implies text@[0 + k]
            == #[trigger] prefix_text(leds@)[k] by {}
    }
    while leds.len() < LED_COUNT
        invariant
            text.is_ascii(),
            leds@.len() <= LED_COUNT,
            at == prefix_text(leds@).len(),
            occurs_at(text@, 0, prefix_text(leds@)),
        decreases LED_COUNT - leds.len(),
    {
        let position = leds.len() as u8;
        let colour_at = match parse_key(text, at, position) {
            Some(next) => next,
            None => {
                proof {
                    assert forall|full: Seq<Colour>| full.len() == LED_COUNT implies state_text(
                        full,
                    ) != text@ by {
                        if state_text(full) == text@ {
                            lemma_entry_expected(full, leds@);
                        }
                    }
                }
                return None;
            },
        };
        let (colour, next) = match parse_colour(text, colour_at) {
            Some(found) => found,
            None => {
                proof {
                    assert forall|full: Seq<Colour>| full.len() == LED_COUNT implies state_text(
                        full,
                    ) != text@ by {
                        if state_text(full) == text@ {
                            lemma_entry_expected(full, leds@);
                        }
                    }
                }
                return None;
            },
        };
        proof {
            lemma_prefix_step(leds@, colour);
            lemma_occurs_concat(
                text@,
                at as int,
                key_text(leds@.len()),
                colour_text(colour),
            );
            lemma_occurs_concat(
                text@,
                0,
                prefix_text(leds@),
                key_text(leds@.len()) + colour_text(colour),
            );
        }
        leds.push(colour);
        at = next;
    }
    if n - at != 1 || char_at(text, at) != '}' {
        proof {
            assert forall|full: Seq<Colour>| full.len() == LED_COUNT implies state_text(full)
                != text@ by {
                if state_text(full) == text@ {
                    lemma_prefix_agree(full, leds@);
                    assert(full.take(full.len() as int) =~= full);
                    assert(text@ =~= prefix_text(leds@) + seq!['}']);
                }
            }
        }
        return None;
    }
    proof {
        assert(text@ =~= state_text(leds@));
        lemma_decode_inverts_encode(leds@);
    }
    ColourState::new(leds)
}

/// Writing an assignment and reading the text back gives the assignment:
/// all ten colours come back as they were.
pub proof fn lemma_decode_inverts_encode(leds: Seq<Colour>)
    requires
        leds.len() == LED_COUNT,
    ensures
        decoded(state_text(leds)) == Some(leds),
{
    let text = state_text(leds);
    let chosen = choose|other: Seq<Colour>| other.len() == LED_COUNT && state_text(other) == text;
    lemma_state_text_injective(chosen, leds);
}

/// A text that stands for an assignment is the text of that assignment,
/// which has ten LEDs.
pub proof fn lemma_encode_inverts_decode(text: Seq<char>)
    requires
        decoded(text) is Some,
    ensures
        decoded(text)->0.len() == LED_COUNT,
        state_text(decoded(text)->0) == text,
{
}

/// An assignment can be read off its text: two assignments of the same
/// number of LEDs that are written alike are the same.
pub proof fn lemma_state_text_injective(one: Seq<Colour>, other: Seq<Colour>)
    requires
        one.len() == other.len(),
        state_text(one) == state_text(other),
    ensures
        one == other,
{
    lemma_state_has_prefix(other, other.len() as int);
    assert(other.take(other.len() as int) =~= other);
    lemma_prefix_agree(one, other);
    assert(one.take(one.len() as int) =~= one);
}

/// Whether `c` is one of the ten decimal digits.
spec fn is_digit(c: char) -> bool {
    '0' <= c && c <= '9'
}

/// Whether `piece` stands in `text`, starting at index `at`.
spec fn occurs_at(text: Seq<char>, at: int, piece: Seq<char>) -> bool {
    &&& 0 <= at
    &&& at + piece.len() <= text.len()
    &&& forall|k: int| 0 <= k < piece.len() ==> text[at + k] == #[trigger] piece[k]
}

/// A channel value with the character that closes it.
spec fn channel_text(value: u8, close: char) -> Seq<char> {
    decimal(value as nat).push(close)
}

proof fn lemma_occurs_index(text: Seq<char>, at: int, piece: Seq<char>, k: int)
    requires
        occurs_at(text, at, piece),
        0 <= k < piece.len(),
    ensures
        text[at + k] == piece[k],
{
    let _ = piece[k];
}

/// A text holds two pieces in a row exactly when it holds the first and,
/// behind it, the second.
proof fn lemma_occurs_concat(text: Seq<char>, at: int, first: Seq<char>, second: Seq<char>)
    ensures
        occurs_at(text, at, first + second) <==> occurs_at(text, at, first) && occurs_at(
            text,
            at + first.len(),
            second,
        ),
{
    let both = first + second;
    if occurs_at(text, at, both) {
        assert forall|k: int| 0 <= k < first.len() implies text[at + k] == #[trigger] first[k] by {
            lemma_occurs_index(text, at, both, k);
        }
        assert forall|k: int| 0 <= k < second.len() implies text[at + first.len() + k]
            == #[trigger] second[k] by {
            lemma_occurs_index(text, at, both, first.len() + k);
        }
    }
    if occurs_at(text, at, first) && occurs_at(text, at + first.len(), second) {
        assert forall|k: int| 0 <= k < both.len() implies text[at + k] == #[trigger] both[k] by {
            if k < first.len() {
                lemma_occurs_index(text, at, first, k);
            } else {
                lemma_occurs_index(text, at + first.len(), second, k - first.len());
            }
        }
    }
}

/// The characters of a channel value and its closing character, spelt out:
/// one, two or three digits at `at`, then `close`.
spec fn channel_shape(text: Seq<char>, at: int, value: u8, close: char) -> bool {
    if value < 10 {
        &&& at + 2 <= text.len()
        &&& text[at] == digit(value as int)
        &&& text[at + 1] == close
    } else if value < 100 {
        &&& at + 3 <= text.len()
        &&& text[at] == digit(value as int / 10)
        &&& text[at + 1] == digit(value as int % 10)
        &&& text[at + 2] == close
    } else {
        &&& at + 4 <= text.len()
        &&& text[at] == digit(value as int / 100)
        &&& text[at + 1] == digit(value as int / 10 % 10)
        &&& text[at + 2] == digit(value as int % 10)
        &&& text[at + 3] == close
    }
}

proof fn lemma_channel_shape(text: Seq<char>, at: int, value: u8, close: char)
    requires
        0 <= at,
    ensures
        occurs_at(text, at, channel_text(value, close)) <==> channel_shape(text, at, value, close),
{
    lemma_decimal_digits(value as nat);
    let piece = channel_text(value, close);
    if occurs_at(text, at, piece) {
        lemma_occurs_index(text, at, piece, 0);
        lemma_occurs_index(text, at, piece, 1);
        if value >= 10 {
            lemma_occurs_index(text, at, piece, 2);
        }
        if value >= 100 {
            lemma_occurs_index(text, at, piece, 3);
        }
    }
    if channel_shape(text, at, value, close) {
        assert forall|k: int| 0 <= k < piece.len() implies text[at + k] == #[trigger] piece[k] by {
            if k == 0 {
            } else if k == 1 {
            } else if k == 2 {
            } else {
            }
        }
    }
}

/// No text holds two different channel values, each with the same closing
/// character, at one place.
proof fn lemma_channel_unique(text: Seq<char>, at: int, one: u8, other: u8, close: char)
    requires
        !is_digit(close),
        occurs_at(text, at, channel_text(one, close)),
        occurs_at(text, at, channel_text(other, close)),
    ensures
        one == other,
{
    lemma_channel_shape(text, at, one, close);
    lemma_channel_shape(text, at, other, close);
}

fn length(text: &str) -> (n: usize)
    requires
        text.is_ascii(),
    ensures
        n == text@.len(),
{
    broadcast use vstd::string::is_ascii_spec_bytes;

    text.as_bytes().len()
}

fn char_at(text: &str, at: usize) -> (c: char)
    requires
        text.is_ascii(),
        at < text@.len(),
    ensures
        c == text@[at as int],
{
    text.get_ascii(at) as char
}

fn digit_value(c: char) -> (d: u8)
    requires
        is_digit(c),
    ensures
        d < 10,
        digit(d as int) == c,
{
    (c as u8) - 48
}

/// Reads a channel value that is closed by `close`.
fn parse_channel(text: &str, at: usize, close: char) -> (found: Option<(u8, usize)>)
    requires
        text.is_ascii(),
        at <= text@.len(),
        !is_digit(close),
    ensures
        match found {
            Some((value, next)) => occurs_at(text@, at as int, channel_text(value, close)) && next
                == at + channel_text(value, close).len(),
            None => forall|value: u8| !occurs_at(text@, at as int, channel_text(value, close)),
        },
{
    let n = length(text);
    proof {
        assert forall|value: u8|
            occurs_at(text@, at as int, #[trigger] channel_text(value, close)) == channel_shape(
                text@,
                at as int,
                value,
                close,
            ) by {
            lemma_channel_shape(text@, at as int, value, close);
        }
    }
    if n - at < 2 {
        return None;
    }
    let first = char_at(text, at);
    if !('0' <= first && first <= '9') {
        return None;
    }
    let hundreds_or_less = digit_value(first);
    let second = char_at(text, at + 1);
    if second == close {
        return Some((hundreds_or_less, at + 2));
    }
    if first == '0' || !('0' <= second && second <= '9') || n - at < 3 {
        return None;
    }
    let tens_or_less = digit_value(second);
    let third = char_at(text, at + 2);
    if third == close {
        let value = hundreds_or_less * 10 + tens_or_less;
        proof {
            lemma_decimal_digits(value as nat);
            lemma_channel_shape(text@, at as int, value, close);
        }
        return Some((value, at + 3));
    }
    if !('0' <= third && third <= '9') || n - at < 4 {
        return None;
    }
    let units = digit_value(third);
    if char_at(text, at + 3) != close {
        return None;
    }
    let value: u16 = hundreds_or_less as u16 * 100 + tens_or_less as u16 * 10 + units as u16;
    if value > 255 {
        return None;
    }
    proof {
        lemma_decimal_digits(value as nat);
        lemma_channel_shape(text@, at as int, value as u8, close);
    }
    Some((value as u8, at + 4))
}

/// A colour stands at a place exactly when `[` stands there and the three
/// channel values follow one another behind it, each with its closing
/// character.
proof fn lemma_colour_parts(text: Seq<char>, at: int, colour: Colour)
    requires
        0 <= at,
    ensures
        occurs_at(text, at, colour_text(colour)) <==> {
            let green_at = at + 1 + channel_text(colour.red, ',').len();
            let blue_at = green_at + channel_text(colour.green, ',').len();
            &&& at < text.len()
            &&& text[at] == '['
            &&& occurs_at(text, at + 1, channel_text(colour.red, ','))
            &&& occurs_at(text, green_at, channel_text(colour.green, ','))
            &&& occurs_at(text, blue_at, channel_text(colour.blue, ']'))
        },
        colour_text(colour).len() == 1 + channel_text(colour.red, ',').len() + channel_text(
            colour.green,
            ',',
        ).len() + channel_text(colour.blue, ']').len(),
{
    let open = seq!['['];
    let red = channel_text(colour.red, ',');
    let green = channel_text(colour.green, ',');
    let blue = channel_text(colour.blue, ']');
    assert(colour_text(colour) =~= open + (red + (green + blue)));
    lemma_occurs_concat(text, at, open, red + (green + blue));
    lemma_occurs_concat(text, at + 1, red, green + blue);
    lemma_occurs_concat(text, at + 1 + red.len(), green, blue);
    if occurs_at(text, at, open) {
        lemma_occurs_index(text, at, open, 0);
    }
    if at < text.len() && text[at] == '[' {
        assert forall|k: int| 0 <= k < open.len() implies text[at + k] == #[trigger] open[k] by {}
    }
}

/// No text holds two different colours at one place.
proof fn lemma_colour_unique(text: Seq<char>, at: int, one: Colour, other: Colour)
    requires
        occurs_at(text, at, colour_text(one)),
        occurs_at(text, at, colour_text(other)),
    ensures
        one == other,
{
    lemma_colour_parts(text, at, one);
    lemma_colour_parts(text, at, other);
    lemma_channel_unique(text, at + 1, one.red, other.red, ',');
    let green_at = at + 1 + channel_text(one.red, ',').len();
    lemma_channel_unique(text, green_at, one.green, other.green, ',');
    let blue_at = green_at + channel_text(one.green, ',').len();
    lemma_channel_unique(text, blue_at, one.blue, other.blue, ']');
}

/// Reads a colour.
fn parse_colour(text: &str, at: usize) -> (found: Option<(Colour, usize)>)
    requires
        text.is_ascii(),
        at <= text@.len(),
    ensures
        match found {
            Some((colour, next)) => occurs_at(text@, at as int, colour_text(colour)) && next == at
                + colour_text(colour).len(),
            None => forall|colour: Colour| !occurs_at(text@, at as int, colour_text(colour)),
        },
{
    let n = length(text);
    proof {
        assert forall|colour: Colour|
            occurs_at(text@, at as int, #[trigger] colour_text(colour)) implies at < n && text@[at as int]
            == '[' && occurs_at(text@, at + 1, channel_text(colour.red, ',')) by {
            lemma_colour_parts(text@, at as int, colour);
        }
    }
    if at >= n || char_at(text, at) != '[' {
        return None;
    }
    let (red, green_at) = match parse_channel(text, at + 1, ',') {
        Some(found) => found,
        None => {
            return None;
        },
    };
    let (green, blue_at) = match parse_channel(text, green_at, ',') {
        Some(found) => found,
        None => {
            proof {
                assert forall|colour: Colour|
                    !occurs_at(text@, at as int, #[trigger] colour_text(colour)) by {
                    if occurs_at(text@, at as int, colour_text(colour)) {
                        lemma_colour_parts(text@, at as int, colour);
                        lemma_channel_unique(text@, at + 1, red, colour.red, ',');
                    }
                }
            }
            return None;
        },
    };
    let (blue, next) = match parse_channel(text, blue_at, ']') {
        Some(found) => found,
        None => {
            proof {
                assert forall|colour: Colour|
                    !occurs_at(text@, at as int, #[trigger] colour_text(colour)) by {
                    if occurs_at(text@, at as int, colour_text(colour)) {
                        lemma_colour_parts(text@, at as int, colour);
                        lemma_channel_unique(text@, at + 1, red, colour.red, ',');
                        lemma_channel_unique(text@, green_at as int, green, colour.green, ',');
                    }
                }
            }
            return None;
        },
    };
    let colour = Colour { red, green, blue };
    proof {
        lemma_colour_parts(text@, at as int, colour);
    }
    Some((colour, next))
}

/// What stands between the colour of one LED and that of the next: the key
/// of the LED at `position`, with a comma before it unless it is the first.
spec fn key_text(position: nat) -> Seq<char> {
    (if position == 0 {
        Seq::<char>::empty()
    } else {
        seq![',']
    }) + seq!['"'] + decimal(position) + seq!['"', ':']
}

/// A colour assignment on the wire, up to and without the closing brace.
spec fn prefix_text(leds: Seq<Colour>) -> Seq<char> {
    seq!['{'] + entries_text(leds)
}

proof fn lemma_prefix_step(leds: Seq<Colour>, colour: Colour)
    ensures
        prefix_text(leds.push(colour)) == prefix_text(leds) + (key_text(leds.len()) + colour_text(
            colour,
        )),
{
    lemma_entries_step(leds, colour);
    assert(prefix_text(leds.push(colour)) =~= prefix_text(leds) + (key_text(leds.len())
        + colour_text(colour)));
}

/// The text of an assignment begins with the text of its first `k` LEDs.
proof fn lemma_state_has_prefix(full: Seq<Colour>, k: int)
    requires
        0 <= k <= full.len(),
    ensures
        occurs_at(state_text(full), 0, prefix_text(full.take(k))),
    decreases full.len() - k,
{
    let text = state_text(full);
    if k == full.len() {
        assert(full.take(k) =~= full);
        assert(text =~= prefix_text(full) + seq!['}']);
        assert forall|i: int| 0 <= i < prefix_text(full).len() implies text[0 + i]
            == #[trigger] prefix_text(full)[i] by {}
    } else {
        lemma_state_has_prefix(full, k + 1);
        assert(full.take(k + 1) =~= full.take(k).push(full[k]));
        lemma_prefix_step(full.take(k), full[k]);
        lemma_occurs_concat(
            text,
            0,
            prefix_text(full.take(k)),
            key_text(k as nat) + colour_text(full[k]),
        );
    }
}

/// Behind the text of its first `k` LEDs, the text of an assignment goes on
/// with the key and the colour of the LED at `k`.
proof fn lemma_next_entry(full: Seq<Colour>, k: int)
    requires
        0 <= k < full.len(),
    ensures
        occurs_at(
            state_text(full),
            prefix_text(full.take(k)).len() as int,
            key_text(k as nat) + colour_text(full[k]),
        ),
{
    lemma_state_has_prefix(full, k + 1);
    assert(full.take(k + 1) =~= full.take(k).push(full[k]));
    lemma_prefix_step(full.take(k), full[k]);
    lemma_occurs_concat(
        state_text(full),
        0,
        prefix_text(full.take(k)),
        key_text(k as nat) + colour_text(full[k]),
    );
}

/// Colours whose text opens the text of an assignment are the first colours
/// of that assignment.
proof fn lemma_prefix_agree(full: Seq<Colour>, leds: Seq<Colour>)
    requires
        leds.len() <= full.len(),
        occurs_at(state_text(full), 0, prefix_text(leds)),
    ensures
        full.take(leds.len() as int) == leds,
    decreases leds.len(),
{
    if leds.len() == 0 {
        assert(full.take(0) =~= leds);
    } else {
        let text = state_text(full);
        let init = leds.drop_last();
        let colour = leds.last();
        let k = init.len() as int;
        let entry_at = prefix_text(init).len() as int;
        assert(leds =~= init.push(colour));
        lemma_prefix_step(init, colour);
        lemma_occurs_concat(text, 0, prefix_text(init), key_text(k as nat) + colour_text(colour));
        lemma_prefix_agree(full, init);
        lemma_occurs_concat(text, entry_at, key_text(k as nat), colour_text(colour));
        lemma_next_entry(full, k);
        lemma_occurs_concat(text, entry_at, key_text(k as nat), colour_text(full[k]));
        lemma_colour_unique(text, entry_at + key_text(k as nat).len(), colour, full[k]);
        assert(full.take(k + 1) =~= leds);
    }
}

/// The characters of a key, spelt out.
spec fn key_shape(text: Seq<char>, at: int, position: nat) -> bool {
    if position == 0 {
        &&& at + 4 <= text.len()
        &&& text[at] == '"'
        &&& text[at + 1] == digit(position as int)
        &&& text[at + 2] == '"'
        &&& text[at + 3] == ':'
    } else {
        &&& at + 5 <= text.len()
        &&& text[at] == ','
        &&& text[at + 1] == '"'
        &&& text[at + 2] == digit(position as int)
        &&& text[at + 3] == '"'
        &&& text[at + 4] == ':'
    }
}

proof fn lemma_key_shape(text: Seq<char>, at: int, position: nat)
    requires
        0 <= at,
        position < 10,
    ensures
        occurs_at(text, at, key_text(position)) <==> key_shape(text, at, position),
        key_text(position).len() == if position == 0 {
            4int
        } else {
            5int
        },
{
    let piece = key_text(position);
    if position == 0 {
        assert(piece =~= seq!['"', digit(position as int), '"', ':']);
    } else {
        assert(piece =~= seq![',', '"', digit(position as int), '"', ':']);
    }
    if occurs_at(text, at, piece) {
        lemma_occurs_index(text, at, piece, 0);
        lemma_occurs_index(text, at, piece, 1);
        lemma_occurs_index(text, at, piece, 2);
        lemma_occurs_index(text, at, piece, 3);
        if position > 0 {
            lemma_occurs_index(text, at, piece, 4);
        }
    }
    if key_shape(text, at, position) {
        assert forall|k: int| 0 <= k < piece.len() implies text[at + k] == #[trigger] piece[k] by {
            if k == 0 {
            } else if k == 1 {
            } else if k == 2 {
            } else if k == 3 {
            } else {
            }
        }
    }
}

/// Reads the key of the LED at `position`.
fn parse_key(text: &str, at: usize, position: u8) -> (found: Option<usize>)
    requires
        text.is_ascii(),
        at <= text@.len(),
        position < 10,
    ensures
        match found {
            Some(next) => occurs_at(text@, at as int, key_text(position as nat)) && next == at
                + key_text(position as nat).len(),
            None => !occurs_at(text@, at as int, key_text(position as nat)),
        },
{
    let n = length(text);
    proof {
        lemma_key_shape(text@, at as int, position as nat);
    }
    let mut quote_at = at;
    if position > 0 {
        if n - at < 5 || char_at(text, at) != ',' {
            return None;
        }
        quote_at = at + 1;
    }
    if n - quote_at < 4 || char_at(text, quote_at) != '"' {
        return None;
    }
    let numeral = char_at(text, quote_at + 1);
    if !('0' <= numeral && numeral <= '9') || digit_value(numeral) != position {
        return None;
    }
    if char_at(text, quote_at + 2) != '"' || char_at(text, quote_at + 3) != ':' {
        return None;
    }
    Some(quote_at + 4)
}

proof fn lemma_decimal_ascii(n: nat)
    ensures
        vstd::utf8::is_ascii_chars(decimal(n)),
    decreases n,
{
    if n >= 10 {
        lemma_decimal_ascii(n / 10);
    }
}

proof fn lemma_colour_ascii(colour: Colour)
    ensures
        vstd::utf8::is_ascii_chars(colour_text(colour)),
{
    lemma_decimal_ascii(colour.red as nat);
    lemma_decimal_ascii(colour.green as nat);
    lemma_decimal_ascii(colour.blue as nat);
}

proof fn lemma_entries_ascii(leds: Seq<Colour>)
    ensures
        vstd::utf8::is_ascii_chars(entries_text(leds)),
    decreases leds.len(),
{
    if leds.len() > 0 {
        lemma_colour_ascii(leds.last());
        lemma_decimal_ascii((leds.len() - 1) as nat);
        if leds.len() > 1 {
            lemma_entries_ascii(leds.drop_last());
        }
    }
}

/// Where the text of an assignment goes on behind the first colours.
proof fn lemma_entry_expected(full: Seq<Colour>, leds: Seq<Colour>)
    requires
        leds.len() < full.len(),
        occurs_at(state_text(full), 0, prefix_text(leds)),
    ensures
        occurs_at(state_text(full), prefix_text(leds).len() as int, key_text(leds.len())),
        occurs_at(
            state_text(full),
            (prefix_text(leds).len() + key_text(leds.len()).len()) as int,
            colour_text(full[leds.len() as int]),
        ),
{
    lemma_prefix_agree(full, leds);
    lemma_next_entry(full, leds.len() as int);
    lemma_occurs_concat(
        state_text(full),
        prefix_text(leds).len() as int,
        key_text(leds.len()),
        colour_text(full[leds.len() as int]),
    );
}

} // verus!
