//! Sliding rings: bounded queues that keep the newest samples.
use std::collections::VecDeque;
use vstd::prelude::*;

verus! {

/// The last `cap` items of a sequence, or all of it when it is no longer.
pub open spec fn newest<T>(s: Seq<T>, cap: nat) -> Seq<T> {
    if s.len() > cap {
        s.subrange(s.len() - cap, s.len() as int)
    } else {
        s
    }
}

/// Append `new`, then drop from the front down to `cap` items.
pub fn extend_and_trim<T: Copy>(ring: &mut VecDeque<T>, new: &Vec<T>, cap: usize)
    ensures
        final(ring)@ == newest(old(ring)@ + new@, cap as nat),
{
    let ghost before = ring@;
    let mut i: usize = 0;
    assert(new@.take(0) =~= Seq::empty());
    assert(before + new@.take(0) =~= before);
    while i < new.len()
        invariant
            i <= new.len(),
            ring@ == before + new@.take(i as int),
        decreases new.len() - i,
    {
        ring.push_back(new[i]);
        assert(before + new@.take(i + 1) =~= (before + new@.take(i as int)).push(new@[i as int]));
        i = i + 1;
    }
    let ghost all = before + new@;
    assert(new@.take(i as int) =~= new@);
    assert(all.subrange(0, all.len() as int) =~= all);
    let ghost mut dropped: int = 0;
    while ring.len() > cap
        invariant
            0 <= dropped <= all.len(),
            ring@ == all.subrange(dropped, all.len() as int),
            dropped > 0 ==> ring@.len() >= cap,
        decreases ring@.len(),
    {
        let _ = ring.pop_front();
        proof {
            assert(all.subrange(dropped, all.len() as int).subrange(1, all.len() - dropped)
                =~= all.subrange(dropped + 1, all.len() as int));
            dropped = dropped + 1;
        }
    }
    assert(ring@ =~= newest(all, cap as nat));
}

/// Make room, then append: the front is dropped before the newest items of
/// `new` are added, so that the ring never holds more than `cap` items on the
/// way.
pub fn push_within<T: Copy>(ring: &mut VecDeque<T>, new: &Vec<T>, cap: usize)
    requires
        old(ring)@.len() <= cap,
    ensures
        final(ring)@ == newest(old(ring)@ + new@, cap as nat),
        final(ring)@.len() <= cap,
{
    let ghost before = ring@;
    let skip: usize = if new.len() > cap {
        new.len() - cap
    } else {
        0
    };
    let tail: usize = new.len() - skip;
    let room: usize = cap - tail;
    let ghost mut dropped: int = 0;
    assert(before.subrange(0, before.len() as int) =~= before);
    while ring.len() > room
        invariant
            0 <= dropped <= before.len(),
            before.len() <= cap,
            ring@ == before.subrange(dropped, before.len() as int),
            dropped > 0 ==> ring@.len() >= room,
        decreases ring@.len(),
    {
        let _ = ring.pop_front();
        proof {
            assert(before.subrange(dropped, before.len() as int).subrange(
                1,
                before.len() - dropped,
            ) =~= before.subrange(dropped + 1, before.len() as int));
            dropped = dropped + 1;
        }
    }
    let ghost kept = ring@;
    let mut i: usize = skip;
    assert(kept + new@.subrange(skip as int, skip as int) =~= kept);
    while i < new.len()
        invariant
            skip <= i <= new.len(),
            ring@ == kept + new@.subrange(skip as int, i as int),
            kept.len() <= room,
            room + (new.len() - skip) == cap,
            ring@.len() <= cap,
        decreases new.len() - i,
    {
        ring.push_back(new[i]);
        assert(kept + new@.subrange(skip as int, i + 1) =~= (kept + new@.subrange(
            skip as int,
            i as int,
        )).push(new@[i as int]));
        i = i + 1;
    }
    assert(ring@ =~= newest(before + new@, cap as nat));
}

/// The last `cap` items of a list, in order.
pub fn tail_of<T: Copy>(items: &Vec<T>, cap: usize) -> (r: Vec<T>)
    ensures
        r@ == newest(items@, cap as nat),
{
    let start: usize = if items.len() > cap {
        items.len() - cap
    } else {
        0
    };
    let mut out: Vec<T> = Vec::new();
    let mut i: usize = start;
    assert(items@.subrange(start as int, start as int) =~= Seq::empty());
    while i < items.len()
        invariant
            start <= i <= items.len(),
            out@ == items@.subrange(start as int, i as int),
        decreases items.len() - i,
    {
        out.push(items[i]);
        assert(items@.subrange(start as int, i + 1) =~= items@.subrange(
            start as int,
            i as int,
        ).push(items@[i as int]));
        i = i + 1;
    }
    assert(items@.subrange(start as int, items@.len() as int) =~= newest(items@, cap as nat));
    out
}

/// The items of a ring, oldest first.
pub fn contents<T: Copy>(ring: &VecDeque<T>) -> (r: Vec<T>)
    ensures
        r@ == ring@,
{
    let mut out: Vec<T> = Vec::new();
    let mut i: usize = 0;
    while i < ring.len()
        invariant
            i <= ring@.len(),
            out@ == ring@.take(i as int),
        decreases ring@.len() - i,
    {
        out.push(ring[i]);
        assert(ring@.take(i + 1) =~= ring@.take(i as int).push(ring@[i as int]));
        i = i + 1;
    }
    assert(ring@.take(i as int) =~= ring@);
    out
}

/// A ring of capacity `cap` fed block by block.
pub open spec fn fed<T>(start: Seq<T>, blocks: Seq<Seq<T>>, cap: nat) -> Seq<T>
    decreases blocks.len(),
{
    if blocks.len() == 0 {
        start
    } else {
        newest(fed(start, blocks.drop_last(), cap) + blocks.last(), cap)
    }
}

/// The blocks, end to end.
pub open spec fn stream<T>(blocks: Seq<Seq<T>>) -> Seq<T>
    decreases blocks.len(),
{
    if blocks.len() == 0 {
        Seq::empty()
    } else {
        stream(blocks.drop_last()) + blocks.last()
    }
}

/// Pushing two blocks one after the other is pushing them joined.
pub proof fn pushing_in_pieces_is_pushing_at_once<T>(s: Seq<T>, a: Seq<T>, b: Seq<T>, cap: nat)
    ensures
        newest(newest(s + a, cap) + b, cap) == newest(s + (a + b), cap),
{
    assert(newest(newest(s + a, cap) + b, cap) =~= newest(s + (a + b), cap));
}

/// However the audio is cut into blocks, a ring holds exactly the newest
/// `cap` samples of everything it was fed, in order: nothing is dropped from
/// the wrong end, reordered or spliced.
pub proof fn a_ring_holds_the_newest_of_its_stream<T>(start: Seq<T>, blocks: Seq<Seq<T>>, cap: nat)
    requires
        start.len() <= cap,
    ensures
        fed(start, blocks, cap) == newest(start + stream(blocks), cap),
        fed(start, blocks, cap).len() <= cap,
    decreases blocks.len(),
{
    if blocks.len() == 0 {
        assert(start + stream(blocks) =~= start);
    } else {
        let before = blocks.drop_last();
        a_ring_holds_the_newest_of_its_stream(start, before, cap);
        pushing_in_pieces_is_pushing_at_once(start, stream(before), blocks.last(), cap);
    }
}

/// What is kept of a sequence is its end: as many items as there is room for,
/// or all of them, and the last one last.
pub proof fn the_newest_are_the_last<T>(s: Seq<T>, cap: nat)
    ensures
        newest(s, cap).len() == (if s.len() < cap {
            s.len()
        } else {
            cap
        }),
        newest(s, cap).is_suffix_of(s),
        forall|i: int|
            0 <= i < newest(s, cap).len() ==> (#[trigger] newest(s, cap)[i]) == s[s.len() - newest(
                s,
                cap,
            ).len() + i],
{
    let r = newest(s, cap);
    assert(s.subrange(s.len() - r.len(), s.len() as int) =~= r);
}

} // verus!
