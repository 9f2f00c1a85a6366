//! A single LED colour and its wire form.

use vstd::prelude::*;

verus! {

/// One addressable LED: three 8-bit channels.
#[allow(clippy::upper_case_acronyms)]
#[derive(Debug, Clone, Copy, PartialEq, Eq, Structural)]
pub struct LED {
    pub r: u8,
    pub g: u8,
    pub b: u8,
}

impl LED {
    /// The three channel bytes in wire order `r, g, b`.
    pub open spec fn spec_flat(self) -> Seq<u8> {
        seq![self.r, self.g, self.b]
    }

    /// Serialises the LED as the three bytes `r, g, b`.
    pub fn flat_u8(&self) -> (out: Vec<u8>)
        ensures
            out@ == self.spec_flat(),
    {
        let mut out: Vec<u8> = Vec::new();
        out.push(self.r);
        out.push(self.g);
        out.push(self.b);
        assert(out@ =~= self.spec_flat());
        out
    }

    /// The LED with every channel off.
    pub open spec fn spec_default() -> LED {
        LED { r: 0, g: 0, b: 0 }
    }

    /// The LED whose channels are the first three of `value`, each held to
    /// `0..=255`; a channel that `value` is too short for is 0.
    pub open spec fn spec_from_u32(value: Seq<u32>) -> LED {
        LED {
            r: clamp_channel(channel_at(value, 0)),
            g: clamp_channel(channel_at(value, 1)),
            b: clamp_channel(channel_at(value, 2)),
        }
    }

    /// The LED of up to three integer channel values, each clamped to
    /// `0..=255`; missing channels are 0.
    pub fn from_u32(value: &[u32]) -> (led: LED)
        ensures
            led == LED::spec_from_u32(value@),
    {
        let r: u32 = if value.len() > 0 { value[0] } else { 0 };
        let g: u32 = if value.len() > 1 { value[1] } else { 0 };
        let b: u32 = if value.len() > 2 { value[2] } else { 0 };
        LED {
            r: if r > 255 { 255 } else { r as u8 },
            g: if g > 255 { 255 } else { g as u8 },
            b: if b > 255 { 255 } else { b as u8 },
        }
    }
}

/// Entry `i` of `value`, or 0 beyond its end.
pub open spec fn channel_at(value: Seq<u32>, i: int) -> u32 {
    if i < value.len() {
        value[i]
    } else {
        0
    }
}

/// `v` held to the range of a channel.
pub open spec fn clamp_channel(v: u32) -> u8 {
    if v > 255 {
        255
    } else {
        v as u8
    }
}

impl From<&[u32]> for LED {
    fn from(value: &[u32]) -> (led: LED) {
        LED::from_u32(value)
    }
}

impl vstd::std_specs::convert::FromSpecImpl<&[u32]> for LED {
    open spec fn obeys_from_spec() -> bool {
        true
    }

    open spec fn from_spec(value: &[u32]) -> LED {
        LED::spec_from_u32(value@)
    }
}

impl Default for LED {
    fn default() -> (led: LED)
        ensures
            led == LED::spec_default(),
    {
        LED { r: 0, g: 0, b: 0 }
    }
}

} // verus!
