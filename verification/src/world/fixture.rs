//! Fixtures: physical strips or panels of LEDs.

use crate::id::FixtureId;
use crate::world::{copy_positions, origin_positions, Coord};
use vstd::prelude::*;

verus! {

/// A fixture: a fixed number of LEDs, each with a position.
#[derive(Debug)]
pub struct Fixture {
    id: FixtureId,
    num_leds: u32,
    led_positions: Vec<Coord>,
}

/// What a fixture is made from.
#[derive(Debug)]
pub struct FixtureProps {
    pub num_leds: u32,
    pub led_positions: Vec<Coord>,
}

/// Why a position could not be set.
#[derive(Debug, Clone, Copy, PartialEq, Eq, Structural)]
pub enum FixtureErrorSetLEDPosition {
    LEDDoesNotExist,
}

impl Fixture {
    #[verifier::type_invariant]
    closed spec fn one_position_per_led(self) -> bool {
        self.led_positions@.len() == self.num_leds
    }

    /// The text of the fixture's identifier.
    pub closed spec fn spec_id(&self) -> Seq<char> {
        self.id@
    }

    /// The number of LEDs.
    pub closed spec fn spec_led_count(&self) -> u32 {
        self.num_leds
    }

    /// The position of each LED, in LED order.
    pub closed spec fn positions(&self) -> Seq<Coord> {
        self.led_positions@
    }

    /// The fixture has one position per LED.
    pub open spec fn consistent(&self) -> bool {
        self.positions().len() == self.spec_led_count()
    }

    /// The positions that a fixture made from `props` has: those given where
    /// there is one per LED, the origin for every LED otherwise.
    pub open spec fn positions_from(props: FixtureProps) -> Seq<Coord> {
        if props.led_positions@.len() == props.num_leds {
            props.led_positions@
        } else {
            Seq::new(props.num_leds as nat, |i: int| Coord::spec_origin())
        }
    }

    /// The fixture `id` with `props.num_leds` LEDs. Where `props` does not
    /// give one position per LED, every LED is placed at the origin.
    pub fn new(id: FixtureId, props: FixtureProps) -> (fixture: Fixture)
        ensures
            fixture.spec_id() == id@,
            fixture.spec_led_count() == props.num_leds,
            fixture.positions() == Fixture::positions_from(props),
            fixture.positions().len() == fixture.spec_led_count(),
    {
        let led_positions = if props.led_positions.len() == props.num_leds as usize {
            props.led_positions
        } else {
            origin_positions(props.num_leds as usize)
        };
        Fixture { id, num_leds: props.num_leds, led_positions }
    }

    /// The fixture's identifier.
    pub fn id(&self) -> (id: &FixtureId)
        ensures
            id@ == self.spec_id(),
    {
        &self.id
    }

    /// The number of LEDs, which is also the number of positions.
    pub fn led_count(&self) -> (count: u32)
        ensures
            count == self.spec_led_count(),
            count == self.positions().len(),
            self.consistent(),
    {
        proof {
            use_type_invariant(self);
        }
        self.num_leds
    }

    /// Moves LED `led` to `position`; fails where the fixture has no such
    /// LED.
    pub fn set_led_position(&mut self, led: u32, position: Coord) -> (result: Result<
        (),
        FixtureErrorSetLEDPosition,
    >)
        ensures
            final(self).spec_id() == old(self).spec_id(),
            final(self).spec_led_count() == old(self).spec_led_count(),
            led < old(self).spec_led_count() ==> result is Ok && final(self).positions() == old(self).positions().update(led as int, position),
            led >= old(self).spec_led_count() ==> result == Err::<(), FixtureErrorSetLEDPosition>(
                FixtureErrorSetLEDPosition::LEDDoesNotExist,
            ) && final(self).positions() == old(self).positions(),
    {
        proof {
            use_type_invariant(&*self);
        }
        if led as usize >= self.led_positions.len() {
            return Err(FixtureErrorSetLEDPosition::LEDDoesNotExist);
        }
        let mut positions = copy_positions(&self.led_positions);
        positions.set(led as usize, position);
        self.led_positions = positions;
        Ok(())
    }

    /// The position of LED `led`, if the fixture has such an LED.
    pub fn get_led_position(&self, led: u32) -> (position: Option<&Coord>)
        ensures
            position is Some <==> led < self.spec_led_count(),
            position is Some ==> *position->0 == self.positions()[led as int],
    {
        proof {
            use_type_invariant(self);
        }
        if (led as usize) < self.led_positions.len() {
            Some(&self.led_positions[led as usize])
        } else {
            None
        }
    }

    /// The position of each LED, in LED order.
    pub fn get_all_led_positions(&self) -> (positions: Vec<Coord>)
        ensures
            positions@ == self.positions(),
            positions@.len() == self.spec_led_count(),
    {
        proof {
            use_type_invariant(self);
        }
        copy_positions(&self.led_positions)
    }
}

impl Clone for Fixture {
    fn clone(&self) -> (copy: Self)
        ensures
            copy.spec_id() == self.spec_id(),
            copy.spec_led_count() == self.spec_led_count(),
            copy.positions() == self.positions(),
    {
        proof {
            use_type_invariant(self);
        }
        Fixture {
            id: self.id.clone(),
            num_leds: self.num_leds,
            led_positions: copy_positions(&self.led_positions),
        }
    }
}

} // verus!
