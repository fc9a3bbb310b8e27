//! Writing colours for the service.

use crate::colour::{Colour, ColourState, LED_COUNT};
use crate::format::{
    colour_text, decimal, digit, entries_text, entry_text, lemma_decimal_digits,
    lemma_entries_step, state_text,
};
use vstd::prelude::*;

verus! {

fn append_digit(out: &mut String, d: u8)
    requires
        d < 10,
    ensures
        final(out)@ == old(out)@.push(digit(d as int)),
{
    proof {
        reveal_strlit("0");
        reveal_strlit("1");
        reveal_strlit("2");
        reveal_strlit("3");
        reveal_strlit("4");
        reveal_strlit("5");
        reveal_strlit("6");
        reveal_strlit("7");
        reveal_strlit("8");
        reveal_strlit("9");
    }
    let numeral = if d == 0 {
        "0"
    } else if d == 1 {
        "1"
    } else if d == 2 {
        "2"
    } else if d == 3 {
        "3"
    } else if d == 4 {
        "4"
    } else if d == 5 {
        "5"
    } else if d == 6 {
        "6"
    } else if d == 7 {
        "7"
    } else if d == 8 {
        "8"
    } else {
        "9"
    };
    assert(numeral@ =~= seq![digit(d as int)]);
    out.append(numeral);
    assert(out@ =~= old(out)@.push(digit(d as int)));
}

fn append_decimal(out: &mut String, value: u8)
    ensures
        final(out)@ == old(out)@ + decimal(value as nat),
{
    proof {
        lemma_decimal_digits(value as nat);
    }
    if value >= 100 {
        append_digit(out, value / 100);
        append_digit(out, value / 10 % 10);
        append_digit(out, value % 10);
    } else if value >= 10 {
        append_digit(out, value / 10);
        append_digit(out, value % 10);
    } else {
        append_digit(out, value);
    }
    assert(out@ =~= old(out)@ + decimal(value as nat));
}

fn append_colour(out: &mut String, colour: &Colour)
    ensures
        final(out)@ == old(out)@ + colour_text(*colour),
{
    proof {
        reveal_strlit("[");
        reveal_strlit(",");
        reveal_strlit("]");
    }
    out.append("[");
    append_decimal(out, colour.red);
    out.append(",");
    append_decimal(out, colour.green);
    out.append(",");
    append_decimal(out, colour.blue);
    out.append("]");
    assert(out@ =~= old(out)@ + colour_text(*colour));
}

/// Writes a colour as the service reads it: `[red,green,blue]`, the channels
/// in decimal, nothing but the two commas between them.
pub fn encode_colour(colour: &Colour) -> (text: String)
    ensures
        text@ == colour_text(*colour),
{
    let mut text = String::new();
    append_colour(&mut text, colour);
    assert(text@ =~= colour_text(*colour));
    text
}

/// Writes a colour assignment as the service reads it: one JSON object with
/// the keys `"0"` to `"9"`, in this order, each with its colour as
/// `encode_colour` writes it, and no white space.
pub fn encode_colour_state(state: &ColourState) -> (text: String)
    ensures
        text@ == state_text(state@),
{
    proof {
        reveal_strlit("{");
        reveal_strlit("}");
    }
    let leds = state.leds();
    let mut text = String::new();
    text.append("{");
    assert(text@ =~= seq!['{'] + entries_text(leds@.take(0)));
    let mut position: u8 = 0;
    while position < 10
        invariant
            position <= 10,
            leds@.len() == LED_COUNT,
            text@ == seq!['{'] + entries_text(leds@.take(position as int)),
        decreases 10 - position,
    {
        proof {
            reveal_strlit(",");
            reveal_strlit("\"");
            reveal_strlit("\":");
        }
        let ghost done = leds@.take(position as int);
        if position > 0 {
            text.append(",");
        }
        let ghost separated = text@;
        text.append("\"");
        append_digit(&mut text, position);
        text.append("\":");
        let ghost keyed = text@;
        append_colour(&mut text, &leds[position as usize]);
        proof {
            let colour = leds@[position as int];
            lemma_entries_step(done, colour);
            assert(leds@.take(position + 1) =~= done.push(colour));
            assert(decimal(position as nat) =~= seq![digit(position as int)]);
            let key = seq!['"'] + decimal(position as nat) + seq!['"', ':'];
            assert(keyed =~= separated + key);
            assert(entry_text(position as nat, colour) == key + colour_text(colour));
            assert(text@ =~= separated + entry_text(position as nat, colour));
            if position > 0 {
                assert(separated =~= seq!['{'] + entries_text(done) + seq![',']);
            }
            assert(text@ =~= seq!['{'] + entries_text(done.push(colour)));
        }
        position = position + 1;
    }
    text.append("}");
    assert(leds@.take(10) =~= leds@);
    assert(text@ =~= state_text(state@));
    text
}

} // verus!
