//! Colours and the ten-LED colour assignment.

use vstd::prelude::*;

verus! {

/// Number of addressable LEDs of the matrix.
pub const LED_COUNT: usize = 10;

/// One LED colour: red, green and blue channel, eight bits each.
#[derive(Clone, Copy, Debug, PartialEq, Eq, Structural)]
pub struct Colour {
    pub red: u8,
    pub green: u8,
    pub blue: u8,
}

impl Colour {
    /// The colour with the given channel values.
    pub fn rgb(red: u8, green: u8, blue: u8) -> (colour: Colour)
        ensures
            colour == (Colour { red, green, blue }),
    {
        Colour { red, green, blue }
    }
}

/// A colour for each of the ten LEDs, position 0 first.
#[derive(Debug)]
pub struct ColourState {
    leds: Vec<Colour>,
}

impl View for ColourState {
    type V = Seq<Colour>;

    closed spec fn view(&self) -> Seq<Colour> {
        self.leds@
    }
}

impl Clone for ColourState {
    fn clone(&self) -> (copy: ColourState)
        ensures
            copy@ == self@,
    {
        proof {
            use_type_invariant(self);
        }
        let leds = self.leds.clone();
        assert(leds@ =~= self.leds@);
        ColourState { leds }
    }
}

impl ColourState {
    #[verifier::type_invariant]
    closed spec fn well_formed(&self) -> bool {
        self.leds@.len() == LED_COUNT
    }

    /// The assignment that gives the LEDs the colours of `leds`, in order.
    /// There is one exactly when `leds` holds ten colours.
    pub fn new(leds: Vec<Colour>) -> (state: Option<ColourState>)
        ensures
            match state {
                Some(s) => leds@.len() == LED_COUNT && s@ == leds@,
                None => leds@.len() != LED_COUNT,
            },
    {
        if leds.len() == LED_COUNT {
            Some(ColourState { leds })
        } else {
            None
        }
    }

    /// The assignment that gives every LED the same colour.
    pub fn uniform(colour: Colour) -> (state: ColourState)
        ensures
            state@ == Seq::new(LED_COUNT as nat, |i: int| colour),
    {
        let mut leds: Vec<Colour> = Vec::new();
        let mut i: usize = 0;
        while i < LED_COUNT
            invariant
                i <= LED_COUNT,
                leds@ == Seq::new(i as nat, |k: int| colour),
            decreases LED_COUNT - i,
        {
            leds.push(colour);
            i = i + 1;
        }
        ColourState { leds }
    }

    /// The ten colours, position 0 first.
    pub fn leds(&self) -> (leds: &Vec<Colour>)
        ensures
            leds@ == self@,
            leds@.len() == LED_COUNT,
    {
        proof {
            use_type_invariant(self);
        }
        &self.leds
    }

    /// The colour of the LED at `position`, if there is such an LED.
    pub fn get(&self, position: usize) -> (colour: Option<Colour>)
        ensures
            self@.len() == LED_COUNT,
            position < LED_COUNT ==> colour == Some(self@[position as int]),
            position >= LED_COUNT ==> colour is None,
    {
        proof {
            use_type_invariant(self);
        }
        if position < LED_COUNT {
            Some(self.leds[position])
        } else {
            None
        }
    }
}

} // verus!
