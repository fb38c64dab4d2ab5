//! What follows from the hits that the collision test reports.
//!
//! The test itself, on the sprites' boxes, is made outside; it hands in the
//! pairs it found, by the ids of the entities, in the order in which it found
//! them.

use crate::enemy::ActiveEnemies;
use crate::player::{Player, PlayerStatte};
use std::collections::HashSet;
use vstd::prelude::*;

verus! {

/// One of the player's lasers found on an enemy.
#[derive(Clone, Copy, Debug, PartialEq, Eq, Structural)]
pub struct Hit {
    pub laser: u64,
    pub enemy: u64,
}

/// What a round of hits destroys.
#[derive(Debug, PartialEq, Eq)]
pub struct Blast {
    /// The enemies to remove, each once, in the order in which they were first hit.
    pub enemies: Vec<u64>,
    /// The lasers to remove, each once, in the order in which they first hit.
    pub lasers: Vec<u64>,
    /// How many of the enemies to remove the count of enemies alive did not
    /// hold: zero unless the count had gone wrong before.
    pub uncounted: usize,
}

/// The ids of `ids`, each once, in the order in which they first occur.
pub open spec fn firsts(ids: Seq<u64>) -> Seq<u64>
    decreases ids.len(),
{
    if ids.len() == 0 {
        Seq::empty()
    } else {
        let before = firsts(ids.drop_last());
        if before.contains(ids.last()) {
            before
        } else {
            before.push(ids.last())
        }
    }
}

/// The enemies of `hits`, in order.
pub open spec fn enemies_of(hits: Seq<Hit>) -> Seq<u64> {
    Seq::new(hits.len(), |i: int| hits[i].enemy)
}

/// The lasers of `hits`, in order.
pub open spec fn lasers_of(hits: Seq<Hit>) -> Seq<u64> {
    Seq::new(hits.len(), |i: int| hits[i].laser)
}

/// `count` less `by`, and zero where that would be under zero.
pub open spec fn counted_off(count: u32, by: nat) -> u32 {
    if by >= count {
        0
    } else {
        (count - by) as u32
    }
}

/// By how much `by` exceeds `count`, and zero where it does not.
pub open spec fn left_over(count: u32, by: nat) -> nat {
    if by >= count {
        (by - count) as nat
    } else {
        0
    }
}

/// An id occurs in a list with one more at its end where it occurs in the
/// list or is the one more.
proof fn lemma_push_contains(ids: Seq<u64>, last: u64, id: u64)
    ensures
        ids.push(last).contains(id) <==> ids.contains(id) || id == last,
{
    let longer = ids.push(last);
    if ids.contains(id) {
        let k = choose|k: int| 0 <= k < ids.len() && ids[k] == id;
        assert(longer[k] == id);
    }
    if id == last {
        assert(longer[longer.len() - 1] == id);
    }
    if longer.contains(id) {
        let k = choose|k: int| 0 <= k < longer.len() && longer[k] == id;
        if k < ids.len() {
            assert(ids[k] == id);
        }
    }
}

/// Settles the hits of the player's lasers on enemies. Every enemy that was
/// hit is destroyed once, however many lasers hit it, and counted off the
/// enemies alive; every laser that hit is spent. The count never goes under
/// zero: enemies destroyed beyond it are reported as uncounted.
pub fn player_laser_hit_enemy(hits: &Vec<Hit>, active_enemies: &mut ActiveEnemies) -> (blast: Blast)
    ensures
        blast.enemies@ == firsts(enemies_of(hits@)),
        blast.lasers@ == firsts(lasers_of(hits@)),
        final(active_enemies).0 == counted_off(old(active_enemies).0, blast.enemies@.len()),
        blast.uncounted == left_over(old(active_enemies).0, blast.enemies@.len()),
        old(active_enemies).within_cap() ==> final(active_enemies).within_cap(),
{
    let mut enemies: Vec<u64> = Vec::new();
    let mut lasers: Vec<u64> = Vec::new();
    let mut enemies_blasted: HashSet<u64> = HashSet::new();
    let mut lasers_spent: HashSet<u64> = HashSet::new();
    let mut uncounted: usize = 0;
    let n: usize = hits.len();
    let mut i: usize = 0;
    while i < n
        invariant
            i <= n,
            n == hits@.len(),
            enemies@ == firsts(enemies_of(hits@).take(i as int)),
            lasers@ == firsts(lasers_of(hits@).take(i as int)),
            forall|id: u64| enemies_blasted@.contains(id) <==> enemies@.contains(id),
            forall|id: u64| lasers_spent@.contains(id) <==> lasers@.contains(id),
            active_enemies.0 == counted_off(old(active_enemies).0, enemies@.len()),
            uncounted == left_over(old(active_enemies).0, enemies@.len()),
        decreases n - i,
    {
        let hit: Hit = hits[i];
        proof {
            let e = enemies_of(hits@);
            let l = lasers_of(hits@);
            assert(e.take(i + 1).drop_last() == e.take(i as int));
            assert(e.take(i + 1).last() == hit.enemy);
            assert(l.take(i + 1).drop_last() == l.take(i as int));
            assert(l.take(i + 1).last() == hit.laser);
        }
        let ghost enemies_before = enemies@;
        let ghost lasers_before = lasers@;
        if enemies_blasted.insert(hit.enemy) {
            enemies.push(hit.enemy);
            let destroyed: usize = enemies.len();
            if !active_enemies.enemy_destroyed() {
                assert(uncounted < destroyed);
                uncounted = uncounted + 1;
            }
            proof {
                assert forall|id: u64| enemies_blasted@.contains(id) <==> enemies@.contains(
                    id,
                ) by {
                    lemma_push_contains(enemies_before, hit.enemy, id);
                }
            }
        }
        if lasers_spent.insert(hit.laser) {
            lasers.push(hit.laser);
            proof {
                assert forall|id: u64| lasers_spent@.contains(id) <==> lasers@.contains(id) by {
                    lemma_push_contains(lasers_before, hit.laser, id);
                }
            }
        }
        i = i + 1;
    }
    proof {
        assert(enemies_of(hits@).take(n as int) == enemies_of(hits@));
        assert(lasers_of(hits@).take(n as int) == lasers_of(hits@));
    }
    Blast { enemies, lasers, uncounted }
}

/// Settles the hits of enemy lasers on the player's ship at `time`, `hits`
/// being how many lasers were found on it. A ship with one hit or more is
/// destroyed and the state records when. With no hit, or without a ship,
/// nothing happens. The result says whether the ship was destroyed.
pub fn enemy_laser_hit_player(
    player: &mut Option<Player>,
    hits: usize,
    player_state: &mut PlayerStatte,
    time: u64,
) -> (destroyed: bool)
    ensures
        destroyed == (*old(player) is Some && hits > 0),
        destroyed ==> *final(player) is None && *final(player_state) == (PlayerStatte {
            on: false,
            last_shot: time,
        }),
        !destroyed ==> *final(player) == *old(player) && *final(player_state) == *old(
            player_state,
        ),
{
    if player.is_some() && hits > 0 {
        *player = None;
        player_state.shot(time);
        true
    } else {
        false
    }
}

/// No id occurs twice among the first occurrences.
pub proof fn law_firsts_distinct(ids: Seq<u64>)
    ensures
        firsts(ids).no_duplicates(),
    decreases ids.len(),
{
    if ids.len() > 0 {
        law_firsts_distinct(ids.drop_last());
    }
}

/// The first occurrences hold exactly the ids that occur.
pub proof fn law_firsts_same_ids(ids: Seq<u64>, id: u64)
    ensures
        firsts(ids).contains(id) <==> ids.contains(id),
    decreases ids.len(),
{
    if ids.len() > 0 {
        let front = ids.drop_last();
        law_firsts_same_ids(front, id);
        if ids.contains(id) {
            let k = choose|k: int| 0 <= k < ids.len() && ids[k] == id;
            if k < front.len() {
                assert(front[k] == id);
            }
        }
        if front.contains(id) {
            let k = choose|k: int| 0 <= k < front.len() && front[k] == id;
            assert(ids[k] == id);
        }
        let before = firsts(front);
        if !before.contains(ids.last()) {
            let after = before.push(ids.last());
            assert(after[after.len() - 1] == ids.last());
            if before.contains(id) {
                let k = choose|k: int| 0 <= k < before.len() && before[k] == id;
                assert(after[k] == id);
            }
        }
        assert(ids[ids.len() - 1] == ids.last());
    }
}

} // verus!
