//! The shared sub-tree walk discipline.
//!
//! Every decoder consumes events with a depth counter that starts at one:
//! each element-open raises it, each element-close lowers it, and the walk
//! stops the instant the counter reaches zero or the input ends. The
//! decoders differ in what they record along the way, never in how far
//! they read; `walk_len` is that common extent, and the lemmas here are
//! the depth-balance facts the decoders' contracts rest on.

use vstd::prelude::*;

use crate::events::XmlEvent;

verus! {

/// The number of events a depth-tracked walk consumes when it starts at
/// nesting depth `depth`.
pub open spec fn walk_len(evs: Seq<XmlEvent>, depth: int) -> nat
    decreases evs.len(),
{
    if evs.len() == 0 || depth <= 0 {
        0
    } else {
        match evs[0] {
            XmlEvent::Open(_) => walk_len(evs.drop_first(), depth + 1) + 1,
            XmlEvent::Close(_) => if depth == 1 {
                1
            } else {
                walk_len(evs.drop_first(), depth - 1) + 1
            },
            _ => walk_len(evs.drop_first(), depth) + 1,
        }
    }
}

/// How one event moves the depth counter.
pub open spec fn depth_step(ev: XmlEvent, depth: int) -> int {
    match ev {
        XmlEvent::Open(_) => depth + 1,
        XmlEvent::Close(_) => depth - 1,
        _ => depth,
    }
}

/// The nesting depth that the events of `evs` leave behind when the walk
/// enters them at `depth`.
pub open spec fn depth_after(evs: Seq<XmlEvent>, depth: int) -> int
    decreases evs.len(),
{
    if evs.len() == 0 {
        depth
    } else {
        depth_after(evs.drop_first(), depth_step(evs[0], depth))
    }
}

/// A walk never consumes more events than there are.
pub proof fn lemma_walk_len_le(evs: Seq<XmlEvent>, depth: int)
    ensures
        walk_len(evs, depth) <= evs.len(),
    decreases evs.len(),
{
    if evs.len() == 0 || depth <= 0 {
    } else {
        match evs[0] {
            XmlEvent::Open(_) => lemma_walk_len_le(evs.drop_first(), depth + 1),
            XmlEvent::Close(_) => if depth == 1 {
            } else {
                lemma_walk_len_le(evs.drop_first(), depth - 1)
            },
            _ => lemma_walk_len_le(evs.drop_first(), depth),
        }
    }
}

/// Walking one level deeper first crosses one complete sub-tree and then
/// continues at the original depth. This is why a delegating decoder that
/// lets a collaborator consume a nested sub-tree, and corrects its depth
/// counter by the one extra decrement, ends exactly where a plain walk
/// would have.
pub proof fn lemma_walk_split(evs: Seq<XmlEvent>, depth: int)
    requires
        depth >= 1,
    ensures
        walk_len(evs, 1) <= evs.len(),
        walk_len(evs, depth + 1) == walk_len(evs, 1) + walk_len(
            evs.skip(walk_len(evs, 1) as int),
            depth,
        ),
    decreases evs.len(),
{
    lemma_walk_len_le(evs, 1);
    if evs.len() == 0 {
        assert(evs.skip(0) =~= evs);
    } else {
        let rest = evs.drop_first();
        match evs[0] {
            XmlEvent::Open(_) => {
                let k1 = walk_len(rest, 1) as int;
                lemma_walk_len_le(rest, 1);
                lemma_walk_split(rest, depth + 1);
                let k2 = walk_len(rest.skip(k1), 1) as int;
                lemma_walk_len_le(rest.skip(k1), 1);
                lemma_walk_split(rest, 1);
                lemma_walk_split(rest.skip(k1), depth);
                assert(rest.skip(k1).skip(k2) =~= evs.skip(1 + k1 + k2));
                assert(walk_len(evs, 1) == 1 + k1 + k2);
            },
            XmlEvent::Close(_) => {
                assert(walk_len(evs, 1) == 1);
                assert(evs.skip(1) =~= rest);
            },
            _ => {
                let k1 = walk_len(rest, 1) as int;
                lemma_walk_len_le(rest, 1);
                lemma_walk_split(rest, depth);
                assert(rest.skip(k1) =~= evs.skip(1 + k1));
            },
        }
    }
}

/// No prefix of `evs` brings a walk entered at `depth` down to zero: every
/// close within `evs` matches an open within it.
pub open spec fn stays_open(evs: Seq<XmlEvent>, depth: int) -> bool {
    forall|i: int| 0 <= i <= evs.len() ==> depth_after(#[trigger] evs.take(i), depth) >= 1
}

/// Well-formed content of one element: however deep it nests, it opens
/// and closes its own elements in balance and touches nothing outside.
pub open spec fn balanced(evs: Seq<XmlEvent>) -> bool {
    stays_open(evs, 1) && depth_after(evs, 1) == 1
}

/// A walk passes clean over events that never bring its depth to zero,
/// and goes on in whatever follows them.
pub proof fn lemma_walk_over_open_prefix(evs: Seq<XmlEvent>, tail: Seq<XmlEvent>, depth: int)
    requires
        depth >= 1,
        stays_open(evs, depth),
    ensures
        walk_len(evs + tail, depth) == evs.len() + walk_len(tail, depth_after(evs, depth)),
    decreases evs.len(),
{
    if evs.len() == 0 {
        assert(evs + tail =~= tail);
        assert(evs.take(0) =~= evs);
    } else {
        let rest = evs.drop_first();
        let whole = evs + tail;
        let next_depth = depth_step(evs[0], depth);
        assert(whole[0] == evs[0]);
        assert(whole.drop_first() =~= rest + tail);
        assert(next_depth >= 1) by {
            assert(evs.take(1)[0] == evs[0]);
            assert(evs.take(1).drop_first() =~= Seq::<XmlEvent>::empty());
            assert(depth_after(Seq::<XmlEvent>::empty(), next_depth) == next_depth);
            assert(depth_after(evs.take(1), depth) == next_depth);
            assert(depth_after(evs.take(1), depth) >= 1);
        }
        assert(stays_open(rest, next_depth)) by {
            assert forall|i: int| 0 <= i <= rest.len() implies depth_after(
                #[trigger] rest.take(i),
                next_depth,
            ) >= 1 by {
                assert(evs.take(i + 1)[0] == evs[0]);
                assert(evs.take(i + 1).drop_first() =~= rest.take(i));
                assert(depth_after(evs.take(i + 1), depth) >= 1);
            }
        }
        assert(depth_after(rest, next_depth) == depth_after(evs, depth));
        lemma_walk_over_open_prefix(rest, tail, next_depth);
    }
}

/// Depth-balance: over well-formed nested content, a walk entered just
/// inside an element consumes exactly that content and the one close that
/// ends the element, whatever events follow.
pub proof fn lemma_walk_balanced(content: Seq<XmlEvent>, close_name: String, rest: Seq<XmlEvent>)
    requires
        balanced(content),
    ensures
        walk_len(content + seq![XmlEvent::Close(close_name)] + rest, 1) == content.len() + 1,
{
    let tail = seq![XmlEvent::Close(close_name)] + rest;
    assert(content + seq![XmlEvent::Close(close_name)] + rest =~= content + tail);
    lemma_walk_over_open_prefix(content, tail, 1);
    assert(tail[0] == XmlEvent::Close(close_name));
    assert(walk_len(tail, 1) == 1);
}

} // verus!
