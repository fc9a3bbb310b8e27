//! The colour assignment as the service reads it.
//!
//! A colour is written as `[red,green,blue]`, the channels in decimal. An
//! assignment is written as one JSON object that maps the LED positions
//! `"0"` to `"9"`, in this order, to their colours. Nothing is written between
//! the tokens.

use crate::colour::Colour;
use vstd::prelude::*;

verus! {

/// The character for a decimal digit.
pub open spec fn digit(d: int) -> char {
    if d == 0 {
        '0'
    } else if d == 1 {
        '1'
    } else if d == 2 {
        '2'
    } else if d == 3 {
        '3'
    } else if d == 4 {
        '4'
    } else if d == 5 {
        '5'
    } else if d == 6 {
        '6'
    } else if d == 7 {
        '7'
    } else if d == 8 {
        '8'
    } else {
        '9'
    }
}

/// The decimal numeral of `n`: no sign, no leading zero.
pub open spec fn decimal(n: nat) -> Seq<char>
    decreases n,
{
    if n < 10 {
        seq![digit(n as int)]
    } else {
        decimal(n / 10).push(digit((n % 10) as int))
    }
}

/// A colour on the wire: `[red,green,blue]`.
pub open spec fn colour_text(colour: Colour) -> Seq<char> {
    seq!['['] + decimal(colour.red as nat) + seq![','] + decimal(colour.green as nat) + seq![',']
        + decimal(colour.blue as nat) + seq![']']
}

/// One LED on the wire: `"position":[red,green,blue]`.
pub open spec fn entry_text(position: nat, colour: Colour) -> Seq<char> {
    seq!['"'] + decimal(position) + seq!['"', ':'] + colour_text(colour)
}

/// The LEDs on the wire, position 0 first, with a comma between neighbours.
pub open spec fn entries_text(leds: Seq<Colour>) -> Seq<char>
    decreases leds.len(),
{
    if leds.len() == 0 {
        Seq::empty()
    } else if leds.len() == 1 {
        entry_text(0, leds[0])
    } else {
        entries_text(leds.drop_last()) + seq![','] + entry_text(
            (leds.len() - 1) as nat,
            leds.last(),
        )
    }
}

/// A colour assignment on the wire: `{"0":[..],"1":[..],..}`.
pub open spec fn state_text(leds: Seq<Colour>) -> Seq<char> {
    seq!['{'] + entries_text(leds) + seq!['}']
}

/// The digits of a number below 1000, written out.
pub(crate) proof fn lemma_decimal_digits(n: nat)
    requires
        n < 1000,
    ensures
        n < 10 ==> decimal(n) == seq![digit(n as int)],
        10 <= n < 100 ==> decimal(n) == seq![digit(n as int / 10), digit(n as int % 10)],
        100 <= n ==> decimal(n) == seq![
            digit(n as int / 100),
            digit(n as int / 10 % 10),
            digit(n as int % 10),
        ],
{
    reveal_with_fuel(decimal, 3);
    if 10 <= n < 100 {
        assert(decimal(n) =~= seq![digit(n as int / 10), digit(n as int % 10)]);
    } else if 100 <= n {
        assert(n / 10 / 10 == n / 100);
        assert(decimal(n) =~= seq![
            digit(n as int / 100),
            digit(n as int / 10 % 10),
            digit(n as int % 10),
        ]);
    }
}

/// What `entries_text` adds for one more LED.
pub(crate) proof fn lemma_entries_step(leds: Seq<Colour>, colour: Colour)
    ensures
        entries_text(leds.push(colour)) == if leds.len() == 0 {
            entry_text(0, colour)
        } else {
            entries_text(leds) + seq![','] + entry_text(leds.len(), colour)
        },
{
    let longer = leds.push(colour);
    assert(longer.drop_last() =~= leds);
    assert(longer.last() == colour);
    if leds.len() == 0 {
        assert(longer[0] == colour);
    }
}

} // verus!
