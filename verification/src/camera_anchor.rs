//! Which entity the gameplay camera follows.

use vstd::prelude::*;
use crate::guid::{entity_id_guid_spec, parse_entity_id_guid};
use crate::control::ov;

verus! {

/// A local copy of an entity the camera may follow.
#[derive(Debug, Clone, Copy)]
pub struct AnchorCandidate {
    pub entity_bits: u64,
    pub guid: Option<u128>,
    pub is_predicted: bool,
    pub is_interpolated: bool,
}

/// The lane score of a copy: predicted over interpolated over confirmed.
pub open spec fn anchor_score(c: AnchorCandidate) -> int {
    if c.is_predicted { 3 } else if c.is_interpolated { 2 } else { 1 }
}

/// The best copy of `guid` among the first `n` candidates: the highest score, the earliest on
/// a tie.
pub open spec fn best_anchor(c: Seq<AnchorCandidate>, guid: u128, n: int) -> Option<int>
    decreases n,
{
    if n <= 0 {
        None
    } else {
        let r = best_anchor(c, guid, n - 1);
        let x = c[n - 1];
        if x.guid == Some(guid) {
            match r {
                Some(i) => if anchor_score(x) > anchor_score(c[i]) { Some(n - 1) } else { Some(i) },
                None => Some(n - 1),
            }
        } else {
            r
        }
    }
}

/// The best copy of `guid` (see `best_anchor`).
pub fn find_best_runtime_by_guid(candidates: &Vec<AnchorCandidate>, guid: u128) -> (r: Option<u64>)
    ensures
        match best_anchor(candidates@, guid, candidates@.len() as int) {
            Some(i) => r == Some(candidates@[i].entity_bits),
            None => r is None,
        },
{
    let ghost c = candidates@;
    let mut best: Option<usize> = None;
    let mut k: usize = 0;
    while k < candidates.len()
        invariant
            c == candidates@,
            k <= c.len(),
            match best_anchor(c, guid, k as int) {
                Some(i) => best == Some(i as usize) && 0 <= i < k,
                None => best is None,
            },
        decreases candidates.len() - k,
    {
        let x = candidates[k];
        if x.guid == Some(guid) {
            let sx: u8 = if x.is_predicted { 3 } else if x.is_interpolated { 2 } else { 1 };
            best = match best {
                Some(b) => {
                    let y = candidates[b];
                    let sy: u8 = if y.is_predicted { 3 } else if y.is_interpolated { 2 } else { 1 };
                    if sx > sy { Some(k) } else { Some(b) }
                },
                None => Some(k),
            };
        }
        k = k + 1;
    }
    match best {
        Some(b) => Some(candidates[b].entity_bits),
        None => None,
    }
}

/// The entity registered under an id.
pub open spec fn registry_lookup(reg: Seq<(String, u64)>, id: Seq<char>) -> Option<u64>
    decreases reg.len(),
{
    if reg.len() == 0 {
        None
    } else if reg[0].0@ == id {
        Some(reg[0].1)
    } else {
        registry_lookup(reg.drop_first(), id)
    }
}

/// The entity registered under an id.
pub fn find_registered(reg: &Vec<(String, u64)>, id: &String) -> (r: Option<u64>)
    ensures
        r == registry_lookup(reg@, id@),
{
    let ghost s = reg@;
    let mut i: usize = 0;
    assert(s.skip(0) =~= s);
    while i < reg.len()
        invariant
            s == reg@,
            i <= s.len(),
            registry_lookup(s, id@) == registry_lookup(s.skip(i as int), id@),
        decreases reg.len() - i,
    {
        let ghost rest = s.skip(i as int);
        assert(rest[0] == s[i as int]);
        assert(rest.drop_first() =~= s.skip(i + 1));
        if reg[i].0 == *id {
            return Some(reg[i].1);
        }
        i = i + 1;
    }
    None
}

/// What the camera follows: the controlled entity when it is not the player's own (its best
/// copy), else the player's best copy, else the player's registered entity.
pub open spec fn camera_anchor_spec(
    player_id: Option<Seq<char>>,
    player_runtime_sync_guid: Option<u128>,
    controlled_id: Option<Seq<char>>,
    controlled_runtime_sync_guid: Option<u128>,
    c: Seq<AnchorCandidate>,
    reg: Seq<(String, u64)>,
) -> Option<u64> {
    match player_id {
        None => None,
        Some(p) => {
            let pg = entity_id_guid_spec(p, player_runtime_sync_guid);
            let cg = match controlled_id {
                Some(cid) => entity_id_guid_spec(cid, controlled_runtime_sync_guid),
                None => None,
            };
            let follow_controlled = match (pg, cg) {
                (Some(pgv), Some(cgv)) => if cgv != pgv {
                    match best_anchor(c, cgv, c.len() as int) {
                        Some(i) => Some(c[i].entity_bits),
                        None => None,
                    }
                } else {
                    None
                },
                _ => None,
            };
            if follow_controlled is Some {
                follow_controlled
            } else {
                let follow_player = match pg {
                    Some(pgv) => match best_anchor(c, pgv, c.len() as int) {
                        Some(i) => Some(c[i].entity_bits),
                        None => None,
                    },
                    None => None,
                };
                if follow_player is Some { follow_player } else { registry_lookup(reg, p) }
            }
        },
    }
}

/// Chooses the entity the camera follows (see `camera_anchor_spec`). The GUIDs of ids are what
/// the runtime-sync parser found in them, else the ids read as UUIDs.
pub fn resolve_camera_anchor_entity(
    player_entity_id: &Option<String>,
    player_runtime_sync_guid: Option<u128>,
    controlled_entity_id: &Option<String>,
    controlled_runtime_sync_guid: Option<u128>,
    candidates: &Vec<AnchorCandidate>,
    registry: &Vec<(String, u64)>,
) -> (r: Option<u64>)
    ensures
        r == camera_anchor_spec(
            ov(*player_entity_id),
            player_runtime_sync_guid,
            ov(*controlled_entity_id),
            controlled_runtime_sync_guid,
            candidates@,
            registry@,
        ),
{
    let player = match player_entity_id {
        Some(p) => p,
        None => return None,
    };
    let player_guid = parse_entity_id_guid(player.as_str(), player_runtime_sync_guid);
    let controlled_guid = match controlled_entity_id {
        Some(c) => parse_entity_id_guid(c.as_str(), controlled_runtime_sync_guid),
        None => None,
    };
    match (player_guid, controlled_guid) {
        (Some(pg), Some(cg)) => {
            if cg != pg {
                match find_best_runtime_by_guid(candidates, cg) {
                    Some(e) => return Some(e),
                    None => {},
                }
            }
        },
        _ => {},
    }
    match player_guid {
        Some(pg) => match find_best_runtime_by_guid(candidates, pg) {
            Some(e) => return Some(e),
            None => {},
        },
        None => {},
    }
    find_registered(registry, player)
}

/// Whether `v` holds `x`.
fn holds_entity(v: &Vec<u64>, x: u64) -> (r: bool)
    ensures
        r == v@.contains(x),
{
    let mut i: usize = 0;
    while i < v.len()
        invariant
            i <= v@.len(),
            forall|j: int| 0 <= j < i ==> v@[j] != x,
        decreases v.len() - i,
    {
        if v[i] == x {
            return true;
        }
        i = i + 1;
    }
    false
}

/// Drops the registry entries whose entity no longer exists (`live_entities` holds the bits of
/// the entities that do), keeping the others in order.
pub fn prune_runtime_entity_registry_system(registry: &mut Vec<(String, u64)>, live_entities: &Vec<u64>)
    ensures
        final(registry)@ == old(registry)@.filter(|e: (String, u64)| live_entities@.contains(e.1)),
{
    let ghost old_reg = registry@;
    let mut kept: Vec<(String, u64)> = Vec::new();
    let mut rest: Vec<(String, u64)> = Vec::new();
    core::mem::swap(&mut rest, registry);
    assert(rest@ == old_reg);
    let n = rest.len();
    let mut i: usize = 0;
    assert(old_reg.take(0).filter(|e: (String, u64)| live_entities@.contains(e.1)) =~= Seq::<(String, u64)>::empty());
    while rest.len() > 0
        invariant
            n == old_reg.len(),
            i <= n,
            rest@ == old_reg.subrange(i as int, n as int),
            kept@ == old_reg.take(i as int).filter(|e: (String, u64)| live_entities@.contains(e.1)),
        decreases rest.len(),
    {
        let e = rest.remove(0);
        assert(e == old_reg[i as int]);
        proof {
            assert(old_reg.take(i + 1).drop_last() =~= old_reg.take(i as int));
            assert(old_reg.take(i + 1).last() == e);
            reveal(Seq::filter);
        }
        if holds_entity(live_entities, e.1) {
            kept.push(e);
        }
        i = i + 1;
        assert(rest@ =~= old_reg.subrange(i as int, n as int));
    }
    assert(old_reg.take(i as int) =~= old_reg);
    *registry = kept;
}


} // verus!
