//! Chunks: how a target's flat run of LEDs maps back to fixtures.
//!
//! A target's LEDs are those of its fixtures, one fixture after another. A
//! chunk names one fixture and says how many LEDs of the run are its own.

use crate::id::FixtureId;
use crate::world::fixture::Fixture;
use crate::world::Coord;
use crate::table::Table;
use vstd::prelude::*;

verus! {

/// A chunk, apart from how it is stored: the text of the fixture's
/// identifier and the fixture's number of LEDs.
pub type ChunkView = (Seq<char>, u32);

/// The chunks of a list, apart from how they are stored.
pub open spec fn chunk_views(chunks: Seq<(FixtureId, u32)>) -> Seq<ChunkView> {
    chunks.map_values(|c: (FixtureId, u32)| (c.0@, c.1))
}

/// The number of LEDs of all chunks together.
pub open spec fn chunk_total(chunks: Seq<ChunkView>) -> nat
    decreases chunks.len(),
{
    if chunks.len() == 0 {
        0
    } else {
        chunk_total(chunks.drop_last()) + chunks.last().1 as nat
    }
}

/// The positions of the LEDs of all chunks together: those of each chunk's
/// fixture in turn. A fixture that `fixtures` does not hold has none.
pub open spec fn chunk_positions(chunks: Seq<ChunkView>, fixtures: Table<Fixture>) -> Seq<Coord>
    decreases chunks.len(),
{
    if chunks.len() == 0 {
        Seq::empty()
    } else if fixtures.contains(chunks.last().0) {
        chunk_positions(chunks.drop_last(), fixtures) + fixtures.value_of(
            chunks.last().0,
        ).positions()
    } else {
        chunk_positions(chunks.drop_last(), fixtures)
    }
}

/// A count of LEDs as a `u32`: held at `u32::MAX` where it is larger.
pub open spec fn saturated(total: nat) -> u32 {
    if total > u32::MAX {
        u32::MAX
    } else {
        total as u32
    }
}

/// Every chunk is that of a fixture that `fixtures` holds, with the
/// fixture's number of LEDs.
pub open spec fn chunks_of_fixtures(chunks: Seq<ChunkView>, fixtures: Table<Fixture>) -> bool {
    forall|i: int|
        0 <= i < chunks.len() ==> fixtures.contains((#[trigger] chunks[i]).0) && chunks[i].1
            == fixtures.value_of(chunks[i].0).spec_led_count()
}

/// Every fixture has one position per LED.
pub open spec fn fixtures_consistent(fixtures: Table<Fixture>) -> bool {
    forall|k: Seq<char>| #[trigger] fixtures.contains(k) ==> fixtures.value_of(k).consistent()
}

/// The total of two runs of chunks is the sum of their totals.
pub proof fn lemma_chunk_total_add(a: Seq<ChunkView>, b: Seq<ChunkView>)
    ensures
        chunk_total(a + b) == chunk_total(a) + chunk_total(b),
    decreases b.len(),
{
    if b.len() == 0 {
        assert(a + b =~= a);
    } else {
        lemma_chunk_total_add(a, b.drop_last());
        assert((a + b).drop_last() =~= a + b.drop_last());
    }
}

/// The positions of two runs of chunks are those of the first followed by
/// those of the second.
pub proof fn lemma_chunk_positions_add(a: Seq<ChunkView>, b: Seq<ChunkView>, fixtures: Table<Fixture>)
    ensures
        chunk_positions(a + b, fixtures) == chunk_positions(a, fixtures) + chunk_positions(
            b,
            fixtures,
        ),
    decreases b.len(),
{
    if b.len() == 0 {
        assert(a + b =~= a);
        assert(chunk_positions(a, fixtures) + Seq::<Coord>::empty() =~= chunk_positions(
            a,
            fixtures,
        ));
    } else {
        lemma_chunk_positions_add(a, b.drop_last(), fixtures);
        assert((a + b).drop_last() =~= a + b.drop_last());
        assert((a + b).last() == b.last());
        if fixtures.contains(b.last().0) {
            let tail = fixtures.value_of(b.last().0).positions();
            assert((chunk_positions(a, fixtures) + chunk_positions(b.drop_last(), fixtures)) + tail
                =~= chunk_positions(a, fixtures) + (chunk_positions(b.drop_last(), fixtures)
                + tail));
        }
    }
}

/// Chunks of fixtures that have one position per LED have as many positions
/// as LEDs.
pub proof fn lemma_positions_match_total(chunks: Seq<ChunkView>, fixtures: Table<Fixture>)
    requires
        chunks_of_fixtures(chunks, fixtures),
        fixtures_consistent(fixtures),
    ensures
        chunk_positions(chunks, fixtures).len() == chunk_total(chunks),
    decreases chunks.len(),
{
    if chunks.len() > 0 {
        let front = chunks.drop_last();
        assert forall|i: int| 0 <= i < front.len() implies fixtures.contains(
            (#[trigger] front[i]).0,
        ) && front[i].1 == fixtures.value_of(front[i].0).spec_led_count() by {
            assert(front[i] == chunks[i]);
        }
        lemma_positions_match_total(front, fixtures);
        assert(fixtures.contains(chunks[chunks.len() - 1].0));
    }
}

/// Two runs of chunks of fixtures make a run of chunks of fixtures.
pub proof fn lemma_chunks_of_fixtures_add(a: Seq<ChunkView>, b: Seq<ChunkView>, fixtures: Table<Fixture>)
    requires
        chunks_of_fixtures(a, fixtures),
        chunks_of_fixtures(b, fixtures),
    ensures
        chunks_of_fixtures(a + b, fixtures),
{
    assert forall|i: int| 0 <= i < (a + b).len() implies fixtures.contains(
        (#[trigger] (a + b)[i]).0,
    ) && (a + b)[i].1 == fixtures.value_of((a + b)[i].0).spec_led_count() by {
        if i < a.len() {
            assert((a + b)[i] == a[i]);
        } else {
            assert((a + b)[i] == b[i - a.len()]);
        }
    }
}

/// The number of LEDs of all chunks together, held at `u32::MAX` where it
/// is larger.
pub fn total_of_chunks(chunks: &Vec<(FixtureId, u32)>) -> (total: u32)
    ensures
        total == saturated(chunk_total(chunk_views(chunks@))),
{
    let mut total: u64 = 0;
    let n = chunks.len();
    let mut i: usize = 0;
    assert(chunk_views(chunks@).subrange(0, 0) =~= Seq::<ChunkView>::empty());
    while i < n
        invariant
            n == chunks@.len(),
            i <= n,
            total <= u32::MAX,
            total == saturated(chunk_total(chunk_views(chunks@).subrange(0, i as int))),
        decreases n - i,
    {
        proof {
            let views = chunk_views(chunks@);
            assert(views.subrange(0, i + 1).drop_last() =~= views.subrange(0, i as int));
            assert(views.subrange(0, i + 1).last() == views[i as int]);
        }
        total = total + chunks[i].1 as u64;
        if total > 0xffff_ffff {
            total = 0xffff_ffff;
        }
        i += 1;
    }
    assert(chunk_views(chunks@).subrange(0, n as int) =~= chunk_views(chunks@));
    total as u32
}

/// The positions of the LEDs of all chunks together.
pub fn positions_of_chunks(chunks: &Vec<(FixtureId, u32)>, fixtures: &Table<Fixture>) -> (positions:
    Vec<Coord>)
    requires
        fixtures.wf(),
    ensures
        positions@ == chunk_positions(chunk_views(chunks@), *fixtures),
{
    let mut positions: Vec<Coord> = Vec::new();
    let n = chunks.len();
    let mut i: usize = 0;
    assert(chunk_views(chunks@).subrange(0, 0) =~= Seq::<ChunkView>::empty());
    while i < n
        invariant
            fixtures.wf(),
            n == chunks@.len(),
            i <= n,
            positions@ == chunk_positions(chunk_views(chunks@).subrange(0, i as int), *fixtures),
        decreases n - i,
    {
        proof {
            let views = chunk_views(chunks@);
            assert(views.subrange(0, i + 1).drop_last() =~= views.subrange(0, i as int));
            assert(views.subrange(0, i + 1).last() == views[i as int]);
        }
        match fixtures.get(chunks[i].0.key()) {
            Some(fixture) => {
                let mut own = fixture.get_all_led_positions();
                positions.append(&mut own);
            },
            None => {},
        }
        i += 1;
    }
    assert(chunk_views(chunks@).subrange(0, n as int) =~= chunk_views(chunks@));
    positions
}

/// Copies a list of chunks.
pub fn copy_chunks(chunks: &Vec<(FixtureId, u32)>) -> (copy: Vec<(FixtureId, u32)>)
    ensures
        chunk_views(copy@) == chunk_views(chunks@),
{
    let mut copy: Vec<(FixtureId, u32)> = Vec::new();
    let n = chunks.len();
    let mut i: usize = 0;
    while i < n
        invariant
            n == chunks@.len(),
            i <= n,
            chunk_views(copy@) == chunk_views(chunks@).subrange(0, i as int),
        decreases n - i,
    {
        let ghost before = chunk_views(copy@);
        copy.push((chunks[i].0.clone(), chunks[i].1));
        assert(chunk_views(copy@) =~= before.push(chunk_views(chunks@)[i as int]));
        assert(chunk_views(chunks@).subrange(0, i + 1) =~= before.push(
            chunk_views(chunks@)[i as int],
        ));
        i += 1;
    }
    assert(chunk_views(chunks@).subrange(0, n as int) =~= chunk_views(chunks@));
    copy
}

/// Appends a copy of every chunk of `tail` to `out`.
pub fn append_chunks(out: &mut Vec<(FixtureId, u32)>, tail: &Vec<(FixtureId, u32)>)
    ensures
        chunk_views(final(out)@) == chunk_views(old(out)@) + chunk_views(tail@),
{
    let n = tail.len();
    let mut i: usize = 0;
    assert(chunk_views(out@) =~= chunk_views(old(out)@) + chunk_views(tail@).subrange(0, 0));
    while i < n
        invariant
            n == tail@.len(),
            i <= n,
            chunk_views(out@) == chunk_views(old(out)@) + chunk_views(tail@).subrange(0, i as int),
        decreases n - i,
    {
        let ghost before = chunk_views(out@);
        out.push((tail[i].0.clone(), tail[i].1));
        assert(chunk_views(out@) =~= before.push(chunk_views(tail@)[i as int]));
        assert(chunk_views(out@) =~= chunk_views(old(out)@) + chunk_views(tail@).subrange(
            0,
            i + 1,
        ));
        i += 1;
    }
    assert(chunk_views(tail@).subrange(0, n as int) =~= chunk_views(tail@));
}

} // verus!
