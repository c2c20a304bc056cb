//! The owned-ships panel: which ships the local player can take control of, when the panel
//! is rebuilt, and what its buttons do to the view.

use vstd::prelude::*;
use crate::assets::str_views;
use crate::control::{ov, clone_opt, opt_str_eq, LocalPlayerViewState};
use crate::render_layers::{lex_lt, str_lex_lt, lemma_lex_lt_irreflexive, lemma_lex_lt_transitive};
use crate::text::{has_prefix, starts_with};

verus! {

/// What the panel sees of a replicated entity.
#[derive(Debug)]
pub struct OwnedShipView {
    pub name: String,
    pub owner_id: Option<String>,
    pub mounted: bool,
    pub has_hardpoint: bool,
    pub has_player_tag: bool,
}

/// A ship of the local player: a named `ship:` entity owned by the player that is neither
/// mounted, a hardpoint nor a player.
pub open spec fn is_owned_ship(s: OwnedShipView, player: Seq<char>) -> bool {
    &&& !s.mounted && !s.has_hardpoint && !s.has_player_tag
    &&& has_prefix(s.name@, "ship:"@)
    &&& s.owner_id matches Some(o) && o@ == player
}

/// Each text comes strictly before the next (so none occurs twice).
pub open spec fn strictly_sorted(s: Seq<Seq<char>>) -> bool {
    forall|i: int, j: int| 0 <= i < j < s.len() ==> lex_lt(#[trigger] s[i], #[trigger] s[j])
}

/// Two different texts are ordered one way or the other.
pub proof fn lemma_lex_lt_total(a: Seq<char>, b: Seq<char>)
    requires
        a != b,
    ensures
        lex_lt(a, b) || lex_lt(b, a),
    decreases a.len(),
{
    if a.len() > 0 && b.len() > 0 && a[0] != b[0] {
        assert(a[0] < b[0] || b[0] < a[0]);
    } else if a.len() > 0 && b.len() > 0 && a[0] == b[0] {
        if a.drop_first() == b.drop_first() {
            assert(a =~= seq![a[0]] + a.drop_first());
            assert(b =~= seq![b[0]] + b.drop_first());
        }
        lemma_lex_lt_total(a.drop_first(), b.drop_first());
    } else if a.len() == 0 && b.len() == 0 {
        assert(a =~= b);
    }
}

/// Inserts `x` in its place in a strictly sorted list, unless it is there already.
fn insert_sorted(r: &mut Vec<String>, x: String)
    requires
        strictly_sorted(str_views(old(r)@)),
    ensures
        strictly_sorted(str_views(final(r)@)),
        forall|y: Seq<char>| str_views(final(r)@).contains(y) <==> (str_views(old(r)@).contains(y) || y == x@),
{
    let ghost v0 = str_views(r@);
    let mut p: usize = 0;
    while p < r.len() && str_lex_lt(&r[p], &x)
        invariant
            v0 == str_views(r@),
            p <= r@.len(),
            forall|k: int| 0 <= k < p ==> lex_lt(#[trigger] v0[k], x@),
        decreases r.len() - p,
    {
        p = p + 1;
    }
    if p < r.len() && r[p] == x {
        assert(v0[p as int] == x@);
        return;
    }
    proof {
        if p < v0.len() {
            assert(!lex_lt(v0[p as int], x@));
            assert(v0[p as int] != x@);
            lemma_lex_lt_total(v0[p as int], x@);
        }
    }
    r.insert(p, x);
    let ghost v1 = str_views(r@);
    assert(v1 =~= v0.insert(p as int, x@));
    assert forall|i: int, j: int| 0 <= i < j < v1.len() implies lex_lt(#[trigger] v1[i], #[trigger] v1[j]) by {
        if j < p {
            assert(v1[i] == v0[i] && v1[j] == v0[j]);
        } else if j == p {
            assert(v1[i] == v0[i]);
        } else if i == p {
            assert(v1[j] == v0[j - 1]);
            if j - 1 > p {
                assert(lex_lt(v0[p as int], v0[j - 1]));
                lemma_lex_lt_transitive(x@, v0[p as int], v0[j - 1]);
            }
        } else if i < p {
            assert(v1[i] == v0[i] && v1[j] == v0[j - 1]);
        } else {
            assert(v1[i] == v0[i - 1] && v1[j] == v0[j - 1]);
        }
    }
    assert forall|y: Seq<char>| v1.contains(y) <==> (v0.contains(y) || y == x@) by {
        if v1.contains(y) {
            let k = choose|k: int| 0 <= k < v1.len() && v1[k] == y;
            if k < p {
                assert(v0[k] == y);
            } else if k > p {
                assert(v0[k - 1] == y);
            }
        }
        if v0.contains(y) {
            let k = choose|k: int| 0 <= k < v0.len() && v0[k] == y;
            if k < p {
                assert(v1[k] == y);
            } else {
                assert(v1[k + 1] == y);
            }
        }
        if y == x@ {
            assert(v1[p as int] == y);
        }
    }
}

/// The ids of the local player's ships, each once, in order.
pub fn owned_ship_ids(ships: &Vec<OwnedShipView>, local_player_entity_id: &String) -> (r: Vec<String>)
    ensures
        strictly_sorted(str_views(r@)),
        forall|x: Seq<char>| str_views(r@).contains(x) <==> exists|i: int|
            0 <= i < ships@.len() && is_owned_ship(#[trigger] ships@[i], local_player_entity_id@) && ships@[i].name@ == x,
{
    let mut r: Vec<String> = Vec::new();
    let mut i: usize = 0;
    proof {
        reveal_strlit("ship:");
    }
    while i < ships.len()
        invariant
            i <= ships@.len(),
            strictly_sorted(str_views(r@)),
            forall|x: Seq<char>| str_views(r@).contains(x) <==> exists|j: int|
                0 <= j < i && is_owned_ship(#[trigger] ships@[j], local_player_entity_id@) && ships@[j].name@ == x,
        decreases ships.len() - i,
    {
        let s = &ships[i];
        proof {
            reveal_strlit("ship:");
        }
        let owned = !s.mounted && !s.has_hardpoint && !s.has_player_tag && starts_with(s.name.as_str(), "ship:")
            && match &s.owner_id {
            Some(o) => *o == *local_player_entity_id,
            None => false,
        };
        let ghost r0 = str_views(r@);
        if owned {
            insert_sorted(&mut r, s.name.clone());
        }
        assert forall|x: Seq<char>| str_views(r@).contains(x) <==> exists|j: int|
            0 <= j < i + 1 && is_owned_ship(#[trigger] ships@[j], local_player_entity_id@) && ships@[j].name@ == x by {
            if exists|j: int| 0 <= j < i + 1 && is_owned_ship(#[trigger] ships@[j], local_player_entity_id@) && ships@[j].name@ == x {
                let j = choose|j: int| 0 <= j < i + 1 && is_owned_ship(#[trigger] ships@[j], local_player_entity_id@) && ships@[j].name@ == x;
                if j < i {
                    assert(r0.contains(x));
                }
            }
            if str_views(r@).contains(x) && !r0.contains(x) {
                assert(is_owned_ship(ships@[i as int], local_player_entity_id@) && ships@[i as int].name@ == x);
            }
        }
        i = i + 1;
    }
    r
}

/// What the panel last showed.
#[derive(Debug)]
pub struct OwnedShipsPanelState {
    pub last_ship_ids: Vec<String>,
    pub last_selected_id: Option<String>,
    pub last_detached_mode: bool,
}

/// The panel to draw.
#[derive(Debug)]
pub struct OwnedShipsPanel {
    /// The ships to list, in order.
    pub ship_ids: Vec<String>,
    /// The entry shown as selected.
    pub selected_id: Option<String>,
    /// The free-roam entry is selected: the player's own entity, not detached.
    pub free_roam_selected: bool,
}

/// The entry the panel shows as selected: the desired control target, else the controlled one.
pub open spec fn panel_selected_id(view: LocalPlayerViewState) -> Option<Seq<char>> {
    if view.desired_controlled_entity_id is Some {
        ov(view.desired_controlled_entity_id)
    } else {
        ov(view.controlled_entity_id)
    }
}

/// Whether two lists of strings hold the same texts in the same order.
fn same_strings(a: &Vec<String>, b: &Vec<String>) -> (r: bool)
    ensures
        r == (str_views(a@) == str_views(b@)),
{
    if a.len() != b.len() {
        proof {
            if str_views(a@) == str_views(b@) {
                assert(str_views(a@).len() == a@.len());
            }
        }
        return false;
    }
    let mut i: usize = 0;
    while i < a.len()
        invariant
            a@.len() == b@.len(),
            i <= a@.len(),
            forall|k: int| 0 <= k < i ==> str_views(a@)[k] == str_views(b@)[k],
        decreases a.len() - i,
    {
        if a[i] != b[i] {
            assert(str_views(a@)[i as int] != str_views(b@)[i as int]);
            return false;
        }
        i = i + 1;
    }
    assert(str_views(a@) =~= str_views(b@));
    true
}

/// Decides whether the owned-ships panel is rebuilt this frame, and with what. Without a
/// local player nothing happens; while the ships, the selection and the detached mode are
/// unchanged and a panel exists, it stays. Otherwise the new state is recorded and the panel
/// to draw is returned.
pub fn update_owned_ships_panel_system(
    panel_state: &mut OwnedShipsPanelState,
    ships: &Vec<OwnedShipView>,
    local_player_entity_id: &Option<String>,
    view: &LocalPlayerViewState,
    panel_exists: bool,
) -> (r: Option<OwnedShipsPanel>)
    ensures
        match local_player_entity_id {
            None => r is None && *final(panel_state) == *old(panel_state),
            Some(player) => {
                if panel_exists && ov(old(panel_state).last_selected_id) == panel_selected_id(*view)
                    && old(panel_state).last_detached_mode == view.detached_free_camera
                    && (forall|x: Seq<char>| str_views(old(panel_state).last_ship_ids@).contains(x) <==> exists|i: int|
                    0 <= i < ships@.len() && is_owned_ship(#[trigger] ships@[i], player@) && ships@[i].name@ == x)
                    && strictly_sorted(str_views(old(panel_state).last_ship_ids@)) {
                    r is None && *final(panel_state) == *old(panel_state)
                } else {
                    &&& r matches Some(panel)
                    &&& strictly_sorted(str_views(panel.ship_ids@))
                    &&& forall|x: Seq<char>| str_views(panel.ship_ids@).contains(x) <==> exists|i: int|
                        0 <= i < ships@.len() && is_owned_ship(#[trigger] ships@[i], player@) && ships@[i].name@ == x
                    &&& ov(panel.selected_id) == panel_selected_id(*view)
                    &&& panel.free_roam_selected == (panel_selected_id(*view) == Some(player@) && !view.detached_free_camera)
                    &&& str_views(final(panel_state).last_ship_ids@) == str_views(panel.ship_ids@)
                    &&& ov(final(panel_state).last_selected_id) == panel_selected_id(*view)
                    &&& final(panel_state).last_detached_mode == view.detached_free_camera
                }
            },
        },
{
    let player = match local_player_entity_id {
        Some(p) => p,
        None => return None,
    };
    let ship_ids = owned_ship_ids(ships, player);
    let selected_id = match &view.desired_controlled_entity_id {
        Some(d) => Some(d.clone()),
        None => clone_opt(&view.controlled_entity_id),
    };
    let unchanged = same_strings(&panel_state.last_ship_ids, &ship_ids) && opt_str_eq(&panel_state.last_selected_id, &selected_id)
        && panel_state.last_detached_mode == view.detached_free_camera && panel_exists;
    proof {
        lemma_sorted_same_set_same_seq(str_views(old(panel_state).last_ship_ids@), str_views(ship_ids@));
    }
    if unchanged {
        return None;
    }
    panel_state.last_ship_ids = clone_strings(&ship_ids);
    panel_state.last_selected_id = clone_opt(&selected_id);
    panel_state.last_detached_mode = view.detached_free_camera;
    let free_roam_selected = match &selected_id {
        Some(s) => *s == *player,
        None => false,
    } && !view.detached_free_camera;
    Some(OwnedShipsPanel { ship_ids, selected_id, free_roam_selected })
}

/// A copy of a list of strings.
fn clone_strings(v: &Vec<String>) -> (r: Vec<String>)
    ensures
        str_views(r@) == str_views(v@),
{
    let mut r: Vec<String> = Vec::new();
    let mut i: usize = 0;
    while i < v.len()
        invariant
            i <= v@.len(),
            r@.len() == i,
            str_views(r@) == str_views(v@).take(i as int),
        decreases v.len() - i,
    {
        let ghost before = r@;
        let c = v[i].clone();
        r.push(c);
        assert(r@ == before.push(c));
        assert forall|k: int| 0 <= k < i + 1 implies #[trigger] str_views(r@)[k] == str_views(v@).take(i + 1)[k] by {
            if k < i {
                assert(r@[k] == before[k]);
                assert(str_views(before)[k] == str_views(v@).take(i as int)[k]);
            }
        }
        assert(str_views(r@) =~= str_views(v@).take(i + 1));
        i = i + 1;
    }
    assert(str_views(v@).take(i as int) =~= str_views(v@));
    r
}

/// Two strictly sorted lists with the same members are the same list.
proof fn lemma_sorted_same_set_same_seq(a: Seq<Seq<char>>, b: Seq<Seq<char>>)
    ensures
        strictly_sorted(a) && strictly_sorted(b) && (forall|x: Seq<char>| a.contains(x) <==> b.contains(x)) ==> a == b,
    decreases a.len(),
{
    if strictly_sorted(a) && strictly_sorted(b) && (forall|x: Seq<char>| a.contains(x) <==> b.contains(x)) {
        if a.len() == 0 {
            if b.len() > 0 {
                assert(b.contains(b[0]));
            }
            assert(a =~= b);
        } else {
            assert(a.contains(a[0]));
            assert(b.len() > 0);
            assert(b.contains(b[0]));
            // The least members agree.
            let ka = choose|k: int| 0 <= k < b.len() && b[k] == a[0];
            let kb = choose|k: int| 0 <= k < a.len() && a[k] == b[0];
            if ka > 0 {
                assert(lex_lt(b[0], b[ka]));
                if kb > 0 {
                    assert(lex_lt(a[0], a[kb]));
                    lemma_lex_lt_transitive(a[0], b[0], a[0]);
                    lemma_lex_lt_irreflexive(a[0]);
                } else {
                    lemma_lex_lt_irreflexive(a[0]);
                }
            }
            assert(a[0] == b[0]);
            let ra = a.drop_first();
            let rb = b.drop_first();
            assert forall|i: int, j: int| 0 <= i < j < ra.len() implies lex_lt(#[trigger] ra[i], #[trigger] ra[j]) by {
                assert(ra[i] == a[i + 1] && ra[j] == a[j + 1]);
            }
            assert forall|i: int, j: int| 0 <= i < j < rb.len() implies lex_lt(#[trigger] rb[i], #[trigger] rb[j]) by {
                assert(rb[i] == b[i + 1] && rb[j] == b[j + 1]);
            }
            assert forall|x: Seq<char>| ra.contains(x) <==> rb.contains(x) by {
                if ra.contains(x) {
                    let k = choose|k: int| 0 <= k < ra.len() && ra[k] == x;
                    assert(a[k + 1] == x);
                    assert(lex_lt(a[0], a[k + 1]));
                    assert(b.contains(x));
                    let m = choose|m: int| 0 <= m < b.len() && b[m] == x;
                    if m == 0 {
                        lemma_lex_lt_irreflexive(x);
                    }
                    assert(rb[m - 1] == x);
                }
                if rb.contains(x) {
                    let k = choose|k: int| 0 <= k < rb.len() && rb[k] == x;
                    assert(b[k + 1] == x);
                    assert(lex_lt(b[0], b[k + 1]));
                    assert(a.contains(x));
                    let m = choose|m: int| 0 <= m < a.len() && a[m] == x;
                    if m == 0 {
                        lemma_lex_lt_irreflexive(x);
                    }
                    assert(ra[m - 1] == x);
                }
            }
            lemma_sorted_same_set_same_seq(ra, rb);
            assert(a =~= seq![a[0]] + ra);
            assert(b =~= seq![b[0]] + rb);
        }
    }
}

/// What a button of the panel does.
#[derive(Debug)]
pub enum OwnedShipsPanelAction {
    /// Fly as the player's own entity.
    FreeRoam,
    /// Take control of this ship.
    ControlEntity(String),
}

/// A pressed panel button: free roam asks to control the player's own entity and clears the
/// selection and focus; a ship asks to control it, selects and focuses it. Either way the
/// camera re-attaches and the panel is redrawn.
pub fn handle_owned_ships_panel_buttons(
    action: &OwnedShipsPanelAction,
    view: &mut LocalPlayerViewState,
    focused_entity_id: &mut Option<String>,
    panel_state: &mut OwnedShipsPanelState,
    local_player_entity_id: &Option<String>,
)
    ensures
        !final(view).detached_free_camera,
        final(panel_state).last_selected_id is None,
        final(panel_state).last_ship_ids == old(panel_state).last_ship_ids,
        final(panel_state).last_detached_mode == old(panel_state).last_detached_mode,
        ov(final(view).controlled_entity_id) == ov(old(view).controlled_entity_id),
        match action {
            OwnedShipsPanelAction::FreeRoam => {
                &&& ov(final(view).desired_controlled_entity_id) == ov(*local_player_entity_id)
                &&& final(view).selected_entity_id is None
                &&& *final(focused_entity_id) is None
            },
            OwnedShipsPanelAction::ControlEntity(id) => {
                &&& ov(final(view).desired_controlled_entity_id) == Some(id@)
                &&& ov(final(view).selected_entity_id) == Some(id@)
                &&& ov(*final(focused_entity_id)) == Some(id@)
            },
        },
{
    match action {
        OwnedShipsPanelAction::FreeRoam => {
            view.desired_controlled_entity_id = clone_opt(local_player_entity_id);
            view.detached_free_camera = false;
            view.selected_entity_id = None;
            *focused_entity_id = None;
        },
        OwnedShipsPanelAction::ControlEntity(id) => {
            view.desired_controlled_entity_id = Some(id.clone());
            view.detached_free_camera = false;
            view.selected_entity_id = Some(id.clone());
            *focused_entity_id = Some(id.clone());
        },
    }
    panel_state.last_selected_id = None;
}

/// Whether a panel button shows as selected at rest: free roam when the player's own entity
/// is desired and the camera is attached; a ship when it is desired.
pub fn owned_ships_panel_button_selected(
    action: &OwnedShipsPanelAction,
    view: &LocalPlayerViewState,
    local_player_entity_id: &Option<String>,
) -> (r: bool)
    ensures
        r == match action {
            OwnedShipsPanelAction::FreeRoam => ov(view.desired_controlled_entity_id) == ov(*local_player_entity_id)
                && !view.detached_free_camera,
            OwnedShipsPanelAction::ControlEntity(id) => ov(view.desired_controlled_entity_id) == Some(id@),
        },
{
    match action {
        OwnedShipsPanelAction::FreeRoam => opt_str_eq(&view.desired_controlled_entity_id, local_player_entity_id)
            && !view.detached_free_camera,
        OwnedShipsPanelAction::ControlEntity(id) => match &view.desired_controlled_entity_id {
            Some(d) => *d == *id,
            None => false,
        },
    }
}

} // verus!
