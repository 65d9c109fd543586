//! Level completion: which level follows once the boxes come to rest.
use vstd::prelude::*;
use crate::behaviour::RESET_TRANSITION;
use crate::world::{State, Unit, UnitMovement};

verus! {

/// The tile a unit stands on, as unsigned map coordinates.
/// Negative coordinates wrap, as `as` casts do.
pub open spec fn tile_of(u: Unit) -> (u32, u32) {
    (#[verifier::truncate] (u.tile_x as u32), #[verifier::truncate] (u.tile_y as u32))
}

fn tile_pos(u: &Unit) -> (r: (u32, u32))
    ensures
        r == tile_of(*u),
{
    (#[verifier::truncate] (u.tile_x as u32), #[verifier::truncate] (u.tile_y as u32))
}

/// The level linked from tile `pos`: the first link on that tile.
pub open spec fn link_at(links: Seq<(u32, u32, u32)>, pos: (u32, u32)) -> Option<u32>
    decreases links.len(),
{
    if links.len() == 0 {
        None
    } else {
        match link_at(links.drop_last(), pos) {
            Some(id) => Some(id),
            None => if links.last().0 == pos.0 && links.last().1 == pos.1 {
                Some(links.last().2)
            } else {
                None
            },
        }
    }
}

/// The level linked from the tile of the first resting box that stands on a
/// link.
pub open spec fn first_link(mobs: Seq<Unit>, links: Seq<(u32, u32, u32)>) -> Option<u32>
    decreases mobs.len(),
{
    if mobs.len() == 0 {
        None
    } else {
        match first_link(mobs.drop_last(), links) {
            Some(id) => Some(id),
            None => if mobs.last().movement is Idle {
                link_at(links, tile_of(mobs.last()))
            } else {
                None
            },
        }
    }
}

/// Number of resting boxes that stand on a target tile.
pub open spec fn resting_on_targets(mobs: Seq<Unit>, targets: Seq<(u32, u32)>) -> nat
    decreases mobs.len(),
{
    if mobs.len() == 0 {
        0
    } else {
        resting_on_targets(mobs.drop_last(), targets) + if mobs.last().movement is Idle
            && targets.contains(tile_of(mobs.last())) {
            1nat
        } else {
            0nat
        }
    }
}

/// The level to switch to after a tick, if any. On the menu (level 0), a
/// resting player and a resting box on a link tile select the linked level
/// (the first such box, the first link on its tile). On a playing level, a
/// level without targets, or every target covered by a resting box while the
/// player rests, returns to the menu.
pub open spec fn next_level(
    s_player: Unit,
    mobs: Seq<Unit>,
    links: Seq<(u32, u32, u32)>,
    targets: Seq<(u32, u32)>,
    cur_level: u32,
) -> Option<u32> {
    let player_idle = s_player.movement is Idle;
    if cur_level == 0 {
        if player_idle {
            first_link(mobs, links)
        } else {
            None
        }
    } else if targets.len() == 0 {
        Some(RESET_TRANSITION)
    } else if player_idle && resting_on_targets(mobs, targets) == targets.len() {
        Some(RESET_TRANSITION)
    } else {
        None
    }
}

fn find_link(links: &Vec<(u32, u32, u32)>, pos: (u32, u32)) -> (r: Option<u32>)
    ensures
        r == link_at(links@, pos),
{
    let mut i: usize = 0;
    while i < links.len()
        invariant
            0 <= i <= links@.len(),
            link_at(links@.take(i as int), pos) is None,
        decreases links@.len() - i,
    {
        assert(links@.take(i as int + 1).drop_last() =~= links@.take(i as int));
        let (x, y, id) = links[i];
        if x == pos.0 && y == pos.1 {
            proof {
                lemma_link_prefix(links@, pos, i as int + 1);
            }
            return Some(id);
        }
        i += 1;
    }
    assert(links@.take(links@.len() as int) =~= links@);
    None
}

/// A link found in a prefix is the link of the whole sequence.
proof fn lemma_link_prefix(links: Seq<(u32, u32, u32)>, pos: (u32, u32), k: int)
    requires
        0 <= k <= links.len(),
        link_at(links.take(k), pos) is Some,
    ensures
        link_at(links, pos) == link_at(links.take(k), pos),
    decreases links.len() - k,
{
    if k < links.len() {
        assert(links.take(k + 1).drop_last() =~= links.take(k));
        lemma_link_prefix(links, pos, k + 1);
    } else {
        assert(links.take(k) =~= links);
    }
}

/// A box found in a prefix decides the first link of the whole sequence.
proof fn lemma_first_link_prefix(mobs: Seq<Unit>, links: Seq<(u32, u32, u32)>, k: int)
    requires
        0 <= k <= mobs.len(),
        first_link(mobs.take(k), links) is Some,
    ensures
        first_link(mobs, links) == first_link(mobs.take(k), links),
    decreases mobs.len() - k,
{
    if k < mobs.len() {
        assert(mobs.take(k + 1).drop_last() =~= mobs.take(k));
        lemma_first_link_prefix(mobs, links, k + 1);
    } else {
        assert(mobs.take(k) =~= mobs);
    }
}

proof fn lemma_resting_bound(mobs: Seq<Unit>, targets: Seq<(u32, u32)>)
    ensures
        resting_on_targets(mobs, targets) <= mobs.len(),
    decreases mobs.len(),
{
    if mobs.len() > 0 {
        lemma_resting_bound(mobs.drop_last(), targets);
    }
}

fn is_target(targets: &Vec<(u32, u32)>, pos: (u32, u32)) -> (r: bool)
    ensures
        r == targets@.contains(pos),
{
    let mut i: usize = 0;
    while i < targets.len()
        invariant
            0 <= i <= targets@.len(),
            forall|j: int| 0 <= j < i ==> targets@[j] != pos,
        decreases targets@.len() - i,
    {
        let (x, y) = targets[i];
        if x == pos.0 && y == pos.1 {
            assert(targets@[i as int] == pos);
            return true;
        }
        i += 1;
    }
    false
}

/// Decides the level that follows this tick: see `next_level`. `links` maps
/// a tile `(x, y)` to a level id as `(x, y, id)`; `targets` lists the tiles
/// the boxes must cover.
pub fn level_transition(
    state: &State,
    links: &Vec<(u32, u32, u32)>,
    targets: &Vec<(u32, u32)>,
    cur_level: u32,
) -> (r: Option<u32>)
    ensures
        r == next_level(state.player.unit, state.mobs@, links@, targets@, cur_level),
{
    let player_idle = matches!(state.player.unit.movement, UnitMovement::Idle);
    let mobs = &state.mobs;
    if cur_level == 0 {
        if !player_idle {
            return None;
        }
        let mut i: usize = 0;
        while i < mobs.len()
            invariant
                0 <= i <= mobs@.len(),
                first_link(mobs@.take(i as int), links@) is None,
                mobs@ == state.mobs@,
                cur_level == 0,
                state.player.unit.movement is Idle,
            decreases mobs@.len() - i,
        {
            assert(mobs@.take(i as int + 1).drop_last() =~= mobs@.take(i as int));
            let u = mobs[i];
            if matches!(u.movement, UnitMovement::Idle) {
                if let Some(id) = find_link(links, tile_pos(&u)) {
                    proof {
                        assert(mobs@.take(i as int + 1).last() == u);
                        assert(first_link(mobs@.take(i as int + 1), links@) == Some(id));
                        lemma_first_link_prefix(mobs@, links@, i as int + 1);
                    }
                    return Some(id);
                }
            }
            i += 1;
        }
        assert(mobs@.take(mobs@.len() as int) =~= mobs@);
        return None;
    }
    if targets.len() == 0 {
        return Some(RESET_TRANSITION);
    }
    let mut placed: usize = 0;
    let mut i: usize = 0;
    while i < mobs.len()
        invariant
            0 <= i <= mobs@.len(),
            placed == resting_on_targets(mobs@.take(i as int), targets@),
            mobs@ == state.mobs@,
        decreases mobs@.len() - i,
    {
        assert(mobs@.take(i as int + 1).drop_last() =~= mobs@.take(i as int));
        proof {
            lemma_resting_bound(mobs@.take(i as int), targets@);
        }
        let u = mobs[i];
        if matches!(u.movement, UnitMovement::Idle) && is_target(targets, tile_pos(&u)) {
            placed += 1;
        }
        i += 1;
    }
    assert(mobs@.take(mobs@.len() as int) =~= mobs@);
    if player_idle && placed == targets.len() {
        Some(RESET_TRANSITION)
    } else {
        None
    }
}

} // verus!
