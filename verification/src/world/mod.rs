//! The world: where the LEDs are.

pub mod chunk;
pub mod context;
pub mod fixture;
pub mod group;
pub mod installation;
pub mod state;

use vstd::prelude::*;

verus! {

/// A position in space. Each coordinate is a 32-bit IEEE-754 number, held by
/// its bit pattern; no unit is prescribed.
#[derive(Debug, Clone, Copy, PartialEq, Eq, Structural)]
pub struct Coord {
    pub x: u32,
    pub y: u32,
    pub z: u32,
}

impl Coord {
    /// The coordinates in the order `x, y, z`.
    pub open spec fn spec_flat(self) -> Seq<u32> {
        seq![self.x, self.y, self.z]
    }

    /// The origin: every coordinate is positive zero, whose bit pattern is 0.
    pub open spec fn spec_origin() -> Coord {
        Coord { x: 0, y: 0, z: 0 }
    }

    /// The coordinates in the order `x, y, z`.
    pub fn flat(&self) -> (out: Vec<u32>)
        ensures
            out@ == self.spec_flat(),
    {
        let mut out: Vec<u32> = Vec::new();
        out.push(self.x);
        out.push(self.y);
        out.push(self.z);
        assert(out@ =~= self.spec_flat());
        out
    }

    /// The origin `(0, 0, 0)`.
    pub fn origin() -> (o: Coord)
        ensures
            o == Coord::spec_origin(),
    {
        Coord { x: 0, y: 0, z: 0 }
    }
}

/// The coordinates of every position in turn: `x, y, z` of the first, then of
/// the second, and so on.
pub open spec fn flat_positions(positions: Seq<Coord>) -> Seq<u32> {
    Seq::new(
        3 * positions.len(),
        |i: int|
            if i % 3 == 0 {
                positions[i / 3].x
            } else if i % 3 == 1 {
                positions[i / 3].y
            } else {
                positions[i / 3].z
            },
    )
}

/// Flattens positions to their coordinates, three per position.
pub fn flatten_positions(positions: &Vec<Coord>) -> (out: Vec<u32>)
    ensures
        out@ == flat_positions(positions@),
{
    let mut out: Vec<u32> = Vec::new();
    let n = positions.len();
    let mut i: usize = 0;
    while i < n
        invariant
            n == positions@.len(),
            i <= n,
            out@ == flat_positions(positions@.subrange(0, i as int)),
        decreases n - i,
    {
        let p = positions[i];
        out.push(p.x);
        out.push(p.y);
        out.push(p.z);
        assert(out@ =~= flat_positions(positions@.subrange(0, i + 1)));
        i += 1;
    }
    assert(positions@.subrange(0, n as int) =~= positions@);
    out
}

/// Copies a list of positions.
pub fn copy_positions(positions: &Vec<Coord>) -> (out: Vec<Coord>)
    ensures
        out@ == positions@,
{
    let mut out: Vec<Coord> = Vec::new();
    let n = positions.len();
    let mut i: usize = 0;
    while i < n
        invariant
            n == positions@.len(),
            i <= n,
            out@ == positions@.subrange(0, i as int),
        decreases n - i,
    {
        out.push(positions[i]);
        assert(out@ =~= positions@.subrange(0, i + 1));
        i += 1;
    }
    assert(positions@.subrange(0, n as int) =~= positions@);
    out
}

/// `count` positions at the origin.
pub fn origin_positions(count: usize) -> (out: Vec<Coord>)
    ensures
        out@ == Seq::new(count as nat, |i: int| Coord::spec_origin()),
{
    let mut out: Vec<Coord> = Vec::new();
    let mut i: usize = 0;
    while i < count
        invariant
            i <= count,
            out@ == Seq::new(i as nat, |j: int| Coord::spec_origin()),
        decreases count - i,
    {
        out.push(Coord::origin());
        assert(out@ =~= Seq::new((i + 1) as nat, |j: int| Coord::spec_origin()));
        i += 1;
    }
    out
}

} // verus!
