//! The engine's laws, proved over the model transitions.
//!
//! Together with the constructor's contract these show that every state a
//! play session can reach is well formed: a fresh board is well formed, and
//! each of pick, drag and drop preserves well-formedness.  Injectivity of
//! the tile/slot assignment, the freeing of a slot at pick-up time, and the
//! one-shot nature of the success signal are stated here as well.

use vstd::prelude::*;
use crate::model::PuzzleModel;
use crate::model::coord_limit;
use crate::model::dist_sq;
use crate::model::drop_target;
use crate::model::lemma_best_slot_properties;
use crate::model::lemma_topmost_hit_properties;
use crate::model::offset_limit;
use crate::model::pick_target;
use crate::model::pos_limit;
use crate::model::radius_limit;
use crate::model::signal_emitted;
use crate::model::signal_fired_after;
use crate::model::spec_drop;
use crate::model::spec_move;
use crate::model::spec_pick;

verus! {

/// No two tiles share a slot: the tile/slot assignment of a well-formed
/// state is injective.
pub proof fn lemma_assignment_injective(m: PuzzleModel, t1: int, t2: int, s: int)
    requires
        m.wf(),
        m.tile_in_range(t1),
        m.tile_in_range(t2),
        m.tiles[t1].current_slot == Some(s),
        m.tiles[t2].current_slot == Some(s),
    ensures
        t1 == t2,
{
    assert(m.slots[s].occupant == Some(t1));
    assert(m.slots[s].occupant == Some(t2));
}

/// A squared distance below one of the accepted radii bounds both of its
/// components.
pub proof fn lemma_dist_component_bound(x1: int, y1: int, x2: int, y2: int, r: int)
    requires
        dist_sq(x1, y1, x2, y2) < r,
        r <= radius_limit(),
    ensures
        -offset_limit() <= x1 - x2 <= offset_limit(),
        -offset_limit() <= y1 - y2 <= offset_limit(),
{
    let dx = x1 - x2;
    let dy = y1 - y2;
    assert(dx * dx >= 0 && dy * dy >= 0) by (nonlinear_arith);
    assert(dx * dx < r && dy * dy < r);
    assert(-offset_limit() <= dx <= offset_limit()) by (nonlinear_arith)
        requires dx * dx <= 2_199_023_255_552, offset_limit() == 2_097_152,
    ;
    assert(-offset_limit() <= dy <= offset_limit()) by (nonlinear_arith)
        requires dy * dy <= 2_199_023_255_552, offset_limit() == 2_097_152,
    ;
}

/// Picking preserves well-formedness.
pub proof fn lemma_pick_preserves_wf(m: PuzzleModel, px: int, py: int)
    requires
        m.wf(),
        -coord_limit() <= px <= coord_limit(),
        -coord_limit() <= py <= coord_limit(),
    ensures
        spec_pick(m, px, py).wf(),
{
    let m1 = spec_pick(m, px, py);
    match pick_target(m, px, py) {
        None => {
            assert(m1 == m);
        },
        Some(t) => {
            lemma_topmost_hit_properties(m.tiles, px, py, m.pick_radius_sq, m.tiles.len() as int);
            assert(m.tile_in_range(t));
            assert(dist_sq(m.tiles[t].x, m.tiles[t].y, px, py) < m.pick_radius_sq);
            lemma_dist_component_bound(m.tiles[t].x, m.tiles[t].y, px, py, m.pick_radius_sq);
            let freed = m.tiles[t].current_slot;
            if freed is Some {
                assert(m.slot_in_range(freed->0) && m.slots[freed->0].occupant == Some(t));
            }
            assert(m1.tiles.len() == m1.slots.len());
            assert forall|u: int| #[trigger] m1.tile_in_range(u) implies
                match m1.tiles[u].current_slot {
                    Some(s) => m1.slot_in_range(s) && m1.slots[s].occupant == Some(u),
                    None => true,
                } by {
                assert(m.tile_in_range(u));
                if u != t {
                    assert(m1.tiles[u] == m.tiles[u]);
                    match m.tiles[u].current_slot {
                        Some(s) => {
                            assert(m.slots[s].occupant == Some(u));
                            if freed is Some && s == freed->0 {
                                assert(m.slots[s].occupant == Some(t));
                                assert(u == t);
                            }
                            assert(m1.slots[s].occupant == Some(u));
                        },
                        None => {},
                    }
                }
            }
            assert forall|s: int| #[trigger] m1.slot_in_range(s) implies
                match m1.slots[s].occupant {
                    Some(u) => m1.tile_in_range(u) && m1.tiles[u].current_slot == Some(s),
                    None => true,
                } by {
                assert(m.slot_in_range(s));
                if !(freed is Some && s == freed->0) {
                    assert(m1.slots[s] == m.slots[s]);
                    match m.slots[s].occupant {
                        Some(u) => {
                            assert(m.tile_in_range(u) && m.tiles[u].current_slot == Some(s));
                            if u == t {
                                assert(freed == Some(s));
                            }
                            assert(u != t);
                            assert(m1.tiles[u] == m.tiles[u]);
                        },
                        None => {},
                    }
                }
            }
            assert(m1.bounds_ok()) by {
                assert forall|u: int| #[trigger] m1.tile_in_range(u) implies
                    -pos_limit() <= m1.tiles[u].x <= pos_limit()
                    && -pos_limit() <= m1.tiles[u].y <= pos_limit() by {
                    assert(m.tile_in_range(u));
                    if u != t {
                        assert(m1.tiles[u] == m.tiles[u]);
                    }
                }
                assert forall|s: int| #[trigger] m1.slot_in_range(s) implies
                    -coord_limit() <= m1.slots[s].x <= coord_limit()
                    && -coord_limit() <= m1.slots[s].y <= coord_limit() by {
                    assert(m.slot_in_range(s));
                    if freed is Some && s == freed->0 {
                        assert(m1.slots[s].x == m.slots[s].x && m1.slots[s].y == m.slots[s].y);
                    } else {
                        assert(m1.slots[s] == m.slots[s]);
                    }
                }
            }
            assert(m1.drag_ok());
            assert(m1.hints_ok()) by {
                assert(m.dragging is None);
                assert forall|s: int| #[trigger] m1.slot_in_range(s) && m1.slots[s].hint_active
                    implies m1.slots[s].occupant is None by {
                    assert(m.slot_in_range(s));
                    assert(!m.slots[s].hint_active);
                    if freed is Some && s == freed->0 {
                        assert(m1.slots[s].hint_active == m.slots[s].hint_active);
                    } else {
                        assert(m1.slots[s] == m.slots[s]);
                    }
                }
            }
        },
    }
}

/// Dragging preserves well-formedness.
pub proof fn lemma_move_preserves_wf(m: PuzzleModel, px: int, py: int)
    requires
        m.wf(),
        -coord_limit() <= px <= coord_limit(),
        -coord_limit() <= py <= coord_limit(),
    ensures
        spec_move(m, px, py).wf(),
{
    let m1 = spec_move(m, px, py);
    match m.dragging {
        None => {
            assert(m1 == m);
        },
        Some(d) => {
            let t = d.tile;
            assert(m.tile_in_range(t));
            assert forall|u: int| #[trigger] m1.tile_in_range(u) implies
                match m1.tiles[u].current_slot {
                    Some(s) => m1.slot_in_range(s) && m1.slots[s].occupant == Some(u),
                    None => true,
                } by {
                assert(m.tile_in_range(u));
                assert(m1.tiles[u].current_slot == m.tiles[u].current_slot);
                match m.tiles[u].current_slot {
                    Some(s) => {
                        assert(m.slots[s].occupant == Some(u));
                        assert(m1.slots[s].occupant == m.slots[s].occupant);
                    },
                    None => {},
                }
            }
            assert forall|s: int| #[trigger] m1.slot_in_range(s) implies
                match m1.slots[s].occupant {
                    Some(u) => m1.tile_in_range(u) && m1.tiles[u].current_slot == Some(s),
                    None => true,
                } by {
                assert(m.slot_in_range(s));
                assert(m1.slots[s].occupant == m.slots[s].occupant);
                match m.slots[s].occupant {
                    Some(u) => {
                        assert(m.tile_in_range(u) && m.tiles[u].current_slot == Some(s));
                        assert(m1.tiles[u].current_slot == m.tiles[u].current_slot);
                    },
                    None => {},
                }
            }
            assert(m1.bounds_ok()) by {
                assert forall|u: int| #[trigger] m1.tile_in_range(u) implies
                    -pos_limit() <= m1.tiles[u].x <= pos_limit()
                    && -pos_limit() <= m1.tiles[u].y <= pos_limit() by {
                    assert(m.tile_in_range(u));
                    if u != t {
                        assert(m1.tiles[u] == m.tiles[u]);
                    }
                }
                assert forall|s: int| #[trigger] m1.slot_in_range(s) implies
                    -coord_limit() <= m1.slots[s].x <= coord_limit()
                    && -coord_limit() <= m1.slots[s].y <= coord_limit() by {
                    assert(m.slot_in_range(s));
                    assert(m1.slots[s].x == m.slots[s].x && m1.slots[s].y == m.slots[s].y);
                }
            }
            assert(m1.drag_ok());
            assert(m1.hints_ok()) by {
                assert forall|s: int| #[trigger] m1.slot_in_range(s) && m1.slots[s].hint_active
                    implies m1.slots[s].occupant is None by {
                    assert(m.slot_in_range(s));
                }
            }
        },
    }
}

/// Dropping preserves well-formedness.
pub proof fn lemma_drop_preserves_wf(m: PuzzleModel)
    requires
        m.wf(),
    ensures
        spec_drop(m).wf(),
{
    let m1 = spec_drop(m);
    match m.dragging {
        None => {
            assert(m1 == m);
        },
        Some(d) => {
            let t = d.tile;
            assert(m.tile_in_range(t));
            lemma_best_slot_properties(
                m.slots,
                m.tiles[t].x,
                m.tiles[t].y,
                m.snap_radius_sq,
                m.slots.len() as int,
            );
            match drop_target(m) {
                None => {
                    assert forall|u: int| #[trigger] m1.tile_in_range(u) implies
                        match m1.tiles[u].current_slot {
                            Some(s) => m1.slot_in_range(s) && m1.slots[s].occupant == Some(u),
                            None => true,
                        } by {
                        assert(m.tile_in_range(u));
                        assert(m1.tiles[u] == m.tiles[u]);
                        match m.tiles[u].current_slot {
                            Some(s) => {
                                assert(m.slots[s].occupant == Some(u));
                                assert(m1.slots[s].occupant == m.slots[s].occupant);
                            },
                            None => {},
                        }
                    }
                    assert forall|s: int| #[trigger] m1.slot_in_range(s) implies
                        match m1.slots[s].occupant {
                            Some(u) => m1.tile_in_range(u) && m1.tiles[u].current_slot == Some(s),
                            None => true,
                        } by {
                        assert(m.slot_in_range(s));
                        assert(m1.slots[s].occupant == m.slots[s].occupant);
                    }
                    assert(m1.bounds_ok()) by {
                        assert forall|u: int| #[trigger] m1.tile_in_range(u) implies
                            -pos_limit() <= m1.tiles[u].x <= pos_limit()
                            && -pos_limit() <= m1.tiles[u].y <= pos_limit() by {
                            assert(m.tile_in_range(u));
                        }
                        assert forall|s: int| #[trigger] m1.slot_in_range(s) implies
                            -coord_limit() <= m1.slots[s].x <= coord_limit()
                            && -coord_limit() <= m1.slots[s].y <= coord_limit() by {
                            assert(m.slot_in_range(s));
                            assert(m1.slots[s].x == m.slots[s].x
                                && m1.slots[s].y == m.slots[s].y);
                        }
                    }
                },
                Some(sb) => {
                    assert(m.slot_in_range(sb));
                    assert(m.slots[sb].occupant is None);
                    assert forall|u: int| #[trigger] m1.tile_in_range(u) implies
                        match m1.tiles[u].current_slot {
                            Some(s) => m1.slot_in_range(s) && m1.slots[s].occupant == Some(u),
                            None => true,
                        } by {
                        assert(m.tile_in_range(u));
                        if u == t {
                            assert(m1.tiles[u].current_slot == Some(sb));
                            assert(m1.slots[sb].occupant == Some(t));
                        } else {
                            assert(m1.tiles[u] == m.tiles[u]);
                            match m.tiles[u].current_slot {
                                Some(s) => {
                                    assert(m.slots[s].occupant == Some(u));
                                    if s == sb {
                                        assert(m.slots[sb].occupant == Some(u));
                                        assert(false);
                                    }
                                    assert(m1.slots[s].occupant == m.slots[s].occupant);
                                },
                                None => {},
                            }
                        }
                    }
                    assert forall|s: int| #[trigger] m1.slot_in_range(s) implies
                        match m1.slots[s].occupant {
                            Some(u) => m1.tile_in_range(u) && m1.tiles[u].current_slot == Some(s),
                            None => true,
                        } by {
                        assert(m.slot_in_range(s));
                        if s == sb {
                            assert(m1.slots[s].occupant == Some(t));
                            assert(m1.tiles[t].current_slot == Some(sb));
                        } else {
                            assert(m1.slots[s].occupant == m.slots[s].occupant);
                            match m.slots[s].occupant {
                                Some(u) => {
                                    assert(m.tile_in_range(u)
                                        && m.tiles[u].current_slot == Some(s));
                                    if u == t {
                                        assert(m.tiles[t].current_slot is None);
                                        assert(false);
                                    }
                                    assert(m1.tiles[u] == m.tiles[u]);
                                },
                                None => {},
                            }
                        }
                    }
                    assert(m1.bounds_ok()) by {
                        assert forall|u: int| #[trigger] m1.tile_in_range(u) implies
                            -pos_limit() <= m1.tiles[u].x <= pos_limit()
                            && -pos_limit() <= m1.tiles[u].y <= pos_limit() by {
                            assert(m.tile_in_range(u));
                            if u == t {
                                assert(m.slot_in_range(sb));
                                assert(m1.tiles[u].x == m.slots[sb].x
                                    && m1.tiles[u].y == m.slots[sb].y);
                            } else {
                                assert(m1.tiles[u] == m.tiles[u]);
                            }
                        }
                        assert forall|s: int| #[trigger] m1.slot_in_range(s) implies
                            -coord_limit() <= m1.slots[s].x <= coord_limit()
                            && -coord_limit() <= m1.slots[s].y <= coord_limit() by {
                            assert(m.slot_in_range(s));
                            assert(m1.slots[s].x == m.slots[s].x
                                && m1.slots[s].y == m.slots[s].y);
                        }
                    }
                },
            }
            assert(m1.drag_ok());
            assert(m1.hints_ok()) by {
                assert forall|s: int| #[trigger] m1.slot_in_range(s) implies
                    !m1.slots[s].hint_active by {
                    assert(m.slot_in_range(s));
                }
            }
        },
    }
}

/// Picking a tile that occupies a slot frees that slot at once, and a
/// following drag and missed drop leave it free.
pub proof fn lemma_free_before_pick(
    m: PuzzleModel,
    px: int,
    py: int,
    qx: int,
    qy: int,
    t: int,
    s: int,
)
    requires
        m.wf(),
        -coord_limit() <= px <= coord_limit(),
        -coord_limit() <= py <= coord_limit(),
        pick_target(m, px, py) == Some(t),
        m.tiles[t].current_slot == Some(s),
    ensures
        spec_pick(m, px, py).tiles[t].current_slot is None,
        spec_pick(m, px, py).slots[s].occupant is None,
        spec_move(spec_pick(m, px, py), qx, qy).slots[s].occupant is None,
        drop_target(spec_move(spec_pick(m, px, py), qx, qy)) is None
            ==> spec_drop(spec_move(spec_pick(m, px, py), qx, qy)).slots[s].occupant is None,
{
    lemma_topmost_hit_properties(m.tiles, px, py, m.pick_radius_sq, m.tiles.len() as int);
    assert(m.tile_in_range(t));
    assert(m.slot_in_range(s) && m.slots[s].occupant == Some(t));
    let m1 = spec_pick(m, px, py);
    assert(m1.slots[s].occupant is None);
    let m2 = spec_move(m1, qx, qy);
    assert(m2.slots[s].occupant is None);
    let m3 = spec_drop(m2);
    if drop_target(m2) is None {
        assert(m3.slots[s].occupant == m2.slots[s].occupant);
    }
}

/// The success signal fires at most once: after it has been emitted, no
/// later completion check emits it again.
pub proof fn lemma_success_signal_once(fired: bool, complete_now: bool, complete_later: bool)
    requires
        signal_emitted(fired, complete_now),
    ensures
        !signal_emitted(signal_fired_after(fired, complete_now), complete_later),
{
}

} // verus!
