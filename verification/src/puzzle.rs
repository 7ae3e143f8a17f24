//! The stateful matching engine: pick, drag, drop, and the completion
//! query.  Every operation's contract equates the new state's view with the
//! corresponding spec transition of the model.

use vstd::prelude::*;
use crate::layout::BoardConfig;
use crate::layout::COORD_LIMIT;
use crate::layout::MAX_RADIUS_SQ;
use crate::layout::pick_radius_sq;
use crate::layout::slot_positions;
use crate::layout::snap_radius_sq;
use crate::layout::spec_pick_radius_sq;
use crate::layout::spec_slot_x;
use crate::layout::spec_slot_y;
use crate::layout::spec_snap_radius_sq;
use crate::model::DragModel;
use crate::model::PuzzleModel;
use crate::model::SlotModel;
use crate::model::TileModel;
use crate::model::coord_limit;
use crate::model::dist_sq;
use crate::model::pos_limit;
use crate::model::spec_pick;
use crate::model::pick_target;
use crate::model::topmost_hit;
use crate::model::spec_move;
use crate::model::spec_drop;
use crate::model::drop_target;
use crate::model::best_slot_upto;
use crate::model::lemma_topmost_hit_properties;
use crate::model::lemma_best_slot_properties;
use crate::model::signal_emitted;
use crate::model::signal_fired_after;
use crate::laws::lemma_pick_preserves_wf;
use crate::laws::lemma_move_preserves_wf;
use crate::laws::lemma_drop_preserves_wf;

verus! {

/// One draggable piece, as stored.
#[derive(Clone, Copy, Debug)]
struct Tile {
    correct_index: usize,
    x: i64,
    y: i64,
    current_slot: Option<usize>,
}

/// One target position, as stored.
#[derive(Clone, Copy, Debug)]
struct Slot {
    x: i64,
    y: i64,
    occupant: Option<usize>,
    hint_active: bool,
}

/// The live drag, if any: the held tile and the pointer-to-tile offset.
#[derive(Clone, Copy, Debug)]
struct DragSession {
    tile: usize,
    dx: i64,
    dy: i64,
}

/// What one pointer click did.  A click that lifts nothing, or a drop
/// that lands near no free slot, is a normal outcome of play, not an
/// error.
#[derive(Clone, Copy, Debug, PartialEq, Eq, Structural)]
pub enum ClickOutcome {
    /// The click lifted this tile and a drag is now live.
    Picked(usize),
    /// The click hit no tile; the board stays idle.
    NoPieceUnderPointer,
    /// The drop snapped the held tile into this slot.
    Placed(usize),
    /// The drop landed near no free slot; the tile floats where it was.
    NoSlotInRange,
}

/// An optional index, widened for the model.
pub open spec fn opt_index(o: Option<usize>) -> Option<int> {
    match o {
        Some(v) => Some(v as int),
        None => None,
    }
}

spec fn tile_model(t: Tile) -> TileModel {
    TileModel {
        correct_index: t.correct_index as int,
        x: t.x as int,
        y: t.y as int,
        current_slot: opt_index(t.current_slot),
    }
}

spec fn slot_model(s: Slot) -> SlotModel {
    SlotModel {
        x: s.x as int,
        y: s.y as int,
        occupant: opt_index(s.occupant),
        hint_active: s.hint_active,
    }
}

spec fn tiles_model(ts: Seq<Tile>) -> Seq<TileModel> {
    Seq::new(ts.len(), |i: int| tile_model(ts[i]))
}

spec fn slots_model(ss: Seq<Slot>) -> Seq<SlotModel> {
    Seq::new(ss.len(), |i: int| slot_model(ss[i]))
}

spec fn drag_model(d: Option<DragSession>) -> Option<DragModel> {
    match d {
        Some(d) => Some(DragModel { tile: d.tile as int, dx: d.dx as int, dy: d.dy as int }),
        None => None,
    }
}

/// The engine state: the tiles, the slots, and the drag session.
pub struct PuzzleState {
    tiles: Vec<Tile>,
    slots: Vec<Slot>,
    dragging: Option<DragSession>,
    pick_radius_sq: i64,
    snap_radius_sq: i64,
}

impl View for PuzzleState {
    type V = PuzzleModel;

    closed spec fn view(&self) -> PuzzleModel {
        PuzzleModel {
            tiles: tiles_model(self.tiles@),
            slots: slots_model(self.slots@),
            dragging: drag_model(self.dragging),
            pick_radius_sq: self.pick_radius_sq as int,
            snap_radius_sq: self.snap_radius_sq as int,
        }
    }
}

/// Scans for the topmost tile whose pick circle contains the pointer:
/// tiles created later are drawn above earlier ones, so the scan runs from
/// the highest index down.
fn find_topmost(tiles: &Vec<Tile>, px: i64, py: i64, radius_sq: i64) -> (found: Option<usize>)
    requires
        forall|i: int| 0 <= i < tiles@.len()
            ==> -pos_limit() <= (#[trigger] tiles@[i]).x <= pos_limit()
                && -pos_limit() <= tiles@[i].y <= pos_limit(),
        -COORD_LIMIT <= px <= COORD_LIMIT,
        -COORD_LIMIT <= py <= COORD_LIMIT,
    ensures
        opt_index(found) == topmost_hit(
            tiles_model(tiles@), px as int, py as int, radius_sq as int, tiles@.len() as int,
        ),
{
    let ghost tm = tiles_model(tiles@);
    let n = tiles.len();
    let mut i: usize = n;
    while i > 0
        invariant
            i <= n,
            n == tiles@.len(),
            tm == tiles_model(tiles@),
            forall|k: int| 0 <= k < tiles@.len()
                ==> -pos_limit() <= (#[trigger] tiles@[k]).x <= pos_limit()
                    && -pos_limit() <= tiles@[k].y <= pos_limit(),
            -COORD_LIMIT <= px <= COORD_LIMIT,
            -COORD_LIMIT <= py <= COORD_LIMIT,
            topmost_hit(tm, px as int, py as int, radius_sq as int, n as int)
                == topmost_hit(tm, px as int, py as int, radius_sq as int, i as int),
        decreases i,
    {
        let idx = i - 1;
        let tile = tiles[idx];
        let d = dist_sq_i128(tile.x, tile.y, px, py);
        if d < radius_sq as i128 {
            return Some(idx);
        }
        i = idx;
    }
    None
}

/// Scans for the free slot within snap range nearest to `(x, y)`; on equal
/// distance the lowest index wins, so the choice is deterministic.
fn find_best_slot(slots: &Vec<Slot>, x: i64, y: i64, snap_radius_sq: i64) -> (found: Option<
    usize,
>)
    requires
        forall|i: int| 0 <= i < slots@.len()
            ==> -COORD_LIMIT <= (#[trigger] slots@[i]).x <= COORD_LIMIT
                && -COORD_LIMIT <= slots@[i].y <= COORD_LIMIT,
        -pos_limit() <= x <= pos_limit(),
        -pos_limit() <= y <= pos_limit(),
    ensures
        opt_index(found) == best_slot_upto(
            slots_model(slots@), x as int, y as int, snap_radius_sq as int,
            slots@.len() as int,
        ),
{
    let ghost sm = slots_model(slots@);
    let n = slots.len();
    let mut best: Option<usize> = None;
    let mut best_d: i128 = 0;
    let mut i: usize = 0;
    while i < n
        invariant
            i <= n,
            n == slots@.len(),
            sm == slots_model(slots@),
            forall|k: int| 0 <= k < slots@.len()
                ==> -COORD_LIMIT <= (#[trigger] slots@[k]).x <= COORD_LIMIT
                    && -COORD_LIMIT <= slots@[k].y <= COORD_LIMIT,
            -pos_limit() <= x <= pos_limit(),
            -pos_limit() <= y <= pos_limit(),
            opt_index(best) == best_slot_upto(
                sm, x as int, y as int, snap_radius_sq as int, i as int,
            ),
            match best {
                Some(b) => b < n && best_d == dist_sq(
                    x as int, y as int, sm[b as int].x, sm[b as int].y,
                ),
                None => true,
            },
        decreases n - i,
    {
        let slot = slots[i];
        let d = dist_sq_i128(x, y, slot.x, slot.y);
        if slot.occupant.is_none() && d < snap_radius_sq as i128 {
            match best {
                None => {
                    best = Some(i);
                    best_d = d;
                },
                Some(_) => {
                    if d < best_d {
                        best = Some(i);
                        best_d = d;
                    }
                },
            }
        }
        i = i + 1;
    }
    best
}

/// Turns every hint off; everything else about every slot stays.
fn clear_hints(slots: &mut Vec<Slot>)
    ensures
        final(slots)@.len() == old(slots)@.len(),
        forall|j: int| 0 <= j < old(slots)@.len() ==> slot_model(#[trigger] final(slots)@[j])
            == (SlotModel { hint_active: false, ..slot_model(old(slots)@[j]) }),
{
    let n = slots.len();
    let mut i: usize = 0;
    while i < n
        invariant
            i <= n,
            n == slots@.len(),
            old(slots)@.len() == n,
            forall|j: int| i <= j < n ==> #[trigger] slots@[j] == old(slots)@[j],
            forall|j: int| 0 <= j < i ==> slot_model(#[trigger] slots@[j])
                == (SlotModel { hint_active: false, ..slot_model(old(slots)@[j]) }),
        decreases n - i,
    {
        let mut slot = slots[i];
        slot.hint_active = false;
        slots[i] = slot;
        i = i + 1;
    }
}

/// Squared distance, computed wide enough that it cannot overflow.
fn dist_sq_i128(x1: i64, y1: i64, x2: i64, y2: i64) -> (d: i128)
    requires
        -pos_limit() <= x1 <= pos_limit(),
        -pos_limit() <= y1 <= pos_limit(),
        -pos_limit() <= x2 <= pos_limit(),
        -pos_limit() <= y2 <= pos_limit(),
    ensures
        d == dist_sq(x1 as int, y1 as int, x2 as int, y2 as int),
        d >= 0,
{
    let dx = x1 - x2;
    let dy = y1 - y2;
    let dxl = dx as i128;
    let dyl = dy as i128;
    proof {
        assert(0 <= dxl * dxl <= 16_000_000_000_000_000_000) by (nonlinear_arith)
            requires -4_000_000_000 <= dxl <= 4_000_000_000,
        ;
        assert(0 <= dyl * dyl <= 16_000_000_000_000_000_000) by (nonlinear_arith)
            requires -4_000_000_000 <= dyl <= 4_000_000_000,
        ;
    }
    dxl * dxl + dyl * dyl
}

impl PuzzleState {
    /// Builds a fresh board: slot `i` at `slot_centers[i]`, tile `i`
    /// scattered to `scatter[i]` with home slot `i`, nothing placed, no
    /// drag, no hints.
    pub fn new(
        slot_centers: &Vec<(i64, i64)>,
        scatter: &Vec<(i64, i64)>,
        pick_radius_sq: i64,
        snap_radius_sq: i64,
    ) -> (p: PuzzleState)
        requires
            slot_centers@.len() == scatter@.len(),
            forall|i: int| 0 <= i < slot_centers@.len()
                ==> -COORD_LIMIT <= (#[trigger] slot_centers@[i]).0 <= COORD_LIMIT
                    && -COORD_LIMIT <= slot_centers@[i].1 <= COORD_LIMIT,
            forall|i: int| 0 <= i < scatter@.len()
                ==> -COORD_LIMIT <= (#[trigger] scatter@[i]).0 <= COORD_LIMIT
                    && -COORD_LIMIT <= scatter@[i].1 <= COORD_LIMIT,
            0 <= pick_radius_sq <= MAX_RADIUS_SQ,
            0 <= snap_radius_sq <= MAX_RADIUS_SQ,
        ensures
            p@.wf(),
            p@.tiles.len() == scatter@.len(),
            p@.slots.len() == slot_centers@.len(),
            p@.dragging is None,
            p@.pick_radius_sq == pick_radius_sq,
            p@.snap_radius_sq == snap_radius_sq,
            forall|i: int| 0 <= i < scatter@.len() ==> #[trigger] p@.tiles[i]
                == (TileModel {
                    correct_index: i,
                    x: scatter@[i].0 as int,
                    y: scatter@[i].1 as int,
                    current_slot: None,
                }),
            forall|i: int| 0 <= i < slot_centers@.len() ==> #[trigger] p@.slots[i]
                == (SlotModel {
                    x: slot_centers@[i].0 as int,
                    y: slot_centers@[i].1 as int,
                    occupant: None,
                    hint_active: false,
                }),
    {
        let n = scatter.len();
        let mut tiles: Vec<Tile> = Vec::new();
        let mut i: usize = 0;
        while i < n
            invariant
                i <= n,
                n == scatter@.len(),
                tiles@.len() == i,
                forall|k: int| 0 <= k < scatter@.len()
                    ==> -COORD_LIMIT <= (#[trigger] scatter@[k]).0 <= COORD_LIMIT
                        && -COORD_LIMIT <= scatter@[k].1 <= COORD_LIMIT,
                forall|k: int| 0 <= k < i ==> #[trigger] tiles@[k] == (Tile {
                    correct_index: k as usize,
                    x: scatter@[k].0,
                    y: scatter@[k].1,
                    current_slot: None,
                }),
            decreases n - i,
        {
            let (x, y) = scatter[i];
            tiles.push(Tile { correct_index: i, x, y, current_slot: None });
            i = i + 1;
        }
        let m = slot_centers.len();
        let mut slots: Vec<Slot> = Vec::new();
        let mut j: usize = 0;
        while j < m
            invariant
                j <= m,
                m == slot_centers@.len(),
                slots@.len() == j,
                forall|k: int| 0 <= k < slot_centers@.len()
                    ==> -COORD_LIMIT <= (#[trigger] slot_centers@[k]).0 <= COORD_LIMIT
                        && -COORD_LIMIT <= slot_centers@[k].1 <= COORD_LIMIT,
                forall|k: int| 0 <= k < j ==> #[trigger] slots@[k] == (Slot {
                    x: slot_centers@[k].0,
                    y: slot_centers@[k].1,
                    occupant: None,
                    hint_active: false,
                }),
            decreases m - j,
        {
            let (x, y) = slot_centers[j];
            slots.push(Slot { x, y, occupant: None, hint_active: false });
            j = j + 1;
        }
        let p = PuzzleState { tiles, slots, dragging: None, pick_radius_sq, snap_radius_sq };
        proof {
            assert forall|t: int| #[trigger] p@.tile_in_range(t) implies
                match p@.tiles[t].current_slot {
                    Some(s) => p@.slot_in_range(s) && p@.slots[s].occupant == Some(t),
                    None => true,
                } by {
                assert(p@.tiles[t].current_slot is None);
            }
        }
        p
    }

    /// Builds the board of a play session: one slot per grid cell at its
    /// layout position, one tile per cell scattered to `scatter[i]`, and
    /// the pick and snap radii derived from the cell side.  Generating the
    /// slots and the tiles' targets from one layout keeps the two from
    /// ever drifting apart.
    pub fn from_config(cfg: &BoardConfig, scatter: &Vec<(i64, i64)>) -> (p: PuzzleState)
        requires
            cfg.wf(),
            scatter@.len() == cfg.spec_piece_count(),
            forall|i: int| 0 <= i < scatter@.len()
                ==> -COORD_LIMIT <= (#[trigger] scatter@[i]).0 <= COORD_LIMIT
                    && -COORD_LIMIT <= scatter@[i].1 <= COORD_LIMIT,
        ensures
            p@.wf(),
            p@.tiles.len() == cfg.spec_piece_count(),
            p@.slots.len() == cfg.spec_piece_count(),
            p@.dragging is None,
            p@.pick_radius_sq == spec_pick_radius_sq(cfg.cell_side as int),
            p@.snap_radius_sq == spec_snap_radius_sq(cfg.cell_side as int),
            forall|i: int| 0 <= i < scatter@.len() ==> #[trigger] p@.tiles[i]
                == (TileModel {
                    correct_index: i,
                    x: scatter@[i].0 as int,
                    y: scatter@[i].1 as int,
                    current_slot: None,
                }),
            forall|i: int| 0 <= i < cfg.spec_piece_count() ==> #[trigger] p@.slots[i]
                == (SlotModel {
                    x: spec_slot_x(*cfg, i),
                    y: spec_slot_y(*cfg, i),
                    occupant: None,
                    hint_active: false,
                }),
    {
        let centers = slot_positions(cfg);
        let pick_r = pick_radius_sq(cfg.cell_side);
        let snap_r = snap_radius_sq(cfg.cell_side);
        PuzzleState::new(&centers, scatter, pick_r, snap_r)
    }

    /// How many tiles the board holds.
    pub fn tile_count(&self) -> (n: usize)
        ensures
            n == self@.tiles.len(),
    {
        self.tiles.len()
    }

    /// How many slots the board holds.
    pub fn slot_count(&self) -> (n: usize)
        ensures
            n == self@.slots.len(),
    {
        self.slots.len()
    }

    /// A pointer click in idle state: lift the topmost tile whose pick
    /// circle contains the pointer.  The drag offset is recorded so the
    /// tile does not jump to the pointer, and the slot the tile occupied,
    /// if any, is freed at once.  A click that hits no tile, or arrives
    /// while a drag is already live, changes nothing.
    pub fn pick(&mut self, px: i64, py: i64) -> (picked: Option<usize>)
        requires
            old(self)@.wf(),
            -COORD_LIMIT <= px <= COORD_LIMIT,
            -COORD_LIMIT <= py <= COORD_LIMIT,
        ensures
            final(self)@ == spec_pick(old(self)@, px as int, py as int),
            final(self)@.wf(),
            opt_index(picked) == pick_target(old(self)@, px as int, py as int),
    {
        let ghost m0 = self@;
        proof {
            lemma_pick_preserves_wf(m0, px as int, py as int);
        }
        if self.dragging.is_some() {
            return None;
        }
        proof {
            assert forall|i: int| 0 <= i < self.tiles@.len() implies
                -pos_limit() <= (#[trigger] self.tiles@[i]).x <= pos_limit()
                && -pos_limit() <= self.tiles@[i].y <= pos_limit() by {
                assert(m0.tile_in_range(i));
                assert(m0.tiles[i] == tile_model(self.tiles@[i]));
            }
        }
        let found = find_topmost(&self.tiles, px, py, self.pick_radius_sq);
        match found {
            None => None,
            Some(t) => {
                proof {
                    lemma_topmost_hit_properties(
                        m0.tiles, px as int, py as int, m0.pick_radius_sq,
                        m0.tiles.len() as int,
                    );
                    assert(m0.tile_in_range(t as int));
                }
                let tile = self.tiles[t];
                if let Some(s) = tile.current_slot {
                    proof {
                        assert(m0.tiles[t as int].current_slot == Some(s as int));
                        assert(m0.slot_in_range(s as int));
                    }
                    let mut slot = self.slots[s];
                    slot.occupant = None;
                    self.slots[s] = slot;
                }
                let mut new_tile = tile;
                new_tile.current_slot = None;
                self.tiles[t] = new_tile;
                self.dragging = Some(
                    DragSession { tile: t, dx: tile.x - px, dy: tile.y - py },
                );
                proof {
                    let target = spec_pick(m0, px as int, py as int);
                    assert(self@.tiles =~= target.tiles);
                    assert(self@.slots =~= target.slots);
                    assert(self@ =~= target);
                }
                Some(t)
            },
        }
    }

    /// One frame of a live drag: the held tile follows the pointer shifted
    /// by the drag offset, and every free slot's hint is recomputed to say
    /// whether the tile is now within snap range of it.  Without a live
    /// drag this is a no-op; the frame driver treats "no pointer" as no
    /// event, never as a drop.
    pub fn drag_to(&mut self, px: i64, py: i64)
        requires
            old(self)@.wf(),
            -COORD_LIMIT <= px <= COORD_LIMIT,
            -COORD_LIMIT <= py <= COORD_LIMIT,
        ensures
            final(self)@ == spec_move(old(self)@, px as int, py as int),
            final(self)@.wf(),
    {
        let ghost m0 = self@;
        proof {
            lemma_move_preserves_wf(m0, px as int, py as int);
        }
        let d = match self.dragging {
            None => {
                return;
            },
            Some(d) => d,
        };
        proof {
            assert(m0.dragging == Some(
                DragModel { tile: d.tile as int, dx: d.dx as int, dy: d.dy as int },
            ));
            assert(m0.tile_in_range(d.tile as int));
        }
        let t = d.tile;
        let nx = px + d.dx;
        let ny = py + d.dy;
        let mut new_tile = self.tiles[t];
        new_tile.x = nx;
        new_tile.y = ny;
        self.tiles[t] = new_tile;
        let ghost target = spec_move(m0, px as int, py as int);
        proof {
            assert(self@.tiles =~= target.tiles);
            assert forall|j: int| 0 <= j < m0.slots.len() implies
                -coord_limit() <= (#[trigger] m0.slots[j]).x <= coord_limit()
                && -coord_limit() <= m0.slots[j].y <= coord_limit() by {
                assert(m0.slot_in_range(j));
            }
        }
        let snap = self.snap_radius_sq;
        let n_slots = self.slots.len();
        let mut s: usize = 0;
        while s < n_slots
            invariant
                s <= n_slots,
                n_slots == self.slots@.len(),
                self.slots@.len() == m0.slots.len(),
                snap as int == m0.snap_radius_sq,
                -pos_limit() <= nx <= pos_limit(),
                -pos_limit() <= ny <= pos_limit(),
                target == spec_move(m0, px as int, py as int),
                m0.dragging is Some,
                nx as int == px + m0.dragging->0.dx,
                ny as int == py + m0.dragging->0.dy,
                forall|j: int| 0 <= j < m0.slots.len()
                    ==> -coord_limit() <= (#[trigger] m0.slots[j]).x <= coord_limit()
                        && -coord_limit() <= m0.slots[j].y <= coord_limit(),
                forall|j: int| s <= j < m0.slots.len()
                    ==> slot_model(#[trigger] self.slots@[j]) == m0.slots[j],
                forall|j: int| 0 <= j < s
                    ==> slot_model(#[trigger] self.slots@[j]) == target.slots[j],
                tiles_model(self.tiles@) == target.tiles,
                drag_model(self.dragging) == m0.dragging,
                self.pick_radius_sq as int == m0.pick_radius_sq,
                self.snap_radius_sq as int == m0.snap_radius_sq,
            decreases n_slots - s,
        {
            let slot = self.slots[s];
            proof {
                assert(slot_model(slot) == m0.slots[s as int]);
            }
            let dsq = dist_sq_i128(nx, ny, slot.x, slot.y);
            let mut new_slot = slot;
            new_slot.hint_active = slot.occupant.is_none() && dsq < snap as i128;
            self.slots[s] = new_slot;
            proof {
                assert(slot_model(new_slot) == target.slots[s as int]);
            }
            s = s + 1;
        }
        proof {
            assert(self@.slots =~= target.slots);
            assert(self@ =~= target);
        }
    }

    /// Ends the drag.  If a free slot lies within snap range of the held
    /// tile, the tile snaps exactly onto the nearest such slot's center and
    /// the assignment is recorded; otherwise the tile stays where it was
    /// left, unplaced.  Either way the drag ends and every hint goes out.
    /// Returns the slot the tile was placed into, if any.  Without a live
    /// drag this is a no-op.
    pub fn release(&mut self) -> (placed: Option<usize>)
        requires
            old(self)@.wf(),
        ensures
            final(self)@ == spec_drop(old(self)@),
            final(self)@.wf(),
            opt_index(placed) == drop_target(old(self)@),
    {
        let ghost m0 = self@;
        proof {
            lemma_drop_preserves_wf(m0);
        }
        let d = match self.dragging {
            None => {
                return None;
            },
            Some(d) => d,
        };
        let t = d.tile;
        proof {
            assert(m0.dragging == Some(
                DragModel { tile: d.tile as int, dx: d.dx as int, dy: d.dy as int },
            ));
            assert(m0.tile_in_range(t as int));
            assert(m0.tiles[t as int] == tile_model(self.tiles@[t as int]));
            assert forall|j: int| 0 <= j < self.slots@.len() implies
                -COORD_LIMIT <= (#[trigger] self.slots@[j]).x <= COORD_LIMIT
                && -COORD_LIMIT <= self.slots@[j].y <= COORD_LIMIT by {
                assert(m0.slot_in_range(j));
                assert(m0.slots[j] == slot_model(self.slots@[j]));
            }
        }
        let tile = self.tiles[t];
        let found = find_best_slot(&self.slots, tile.x, tile.y, self.snap_radius_sq);
        let ghost target = spec_drop(m0);
        match found {
            None => {
                clear_hints(&mut self.slots);
                self.dragging = None;
                proof {
                    assert(self@.tiles =~= target.tiles);
                    assert(self@.slots =~= target.slots);
                    assert(self@ =~= target);
                }
                None
            },
            Some(s) => {
                proof {
                    lemma_best_slot_properties(
                        m0.slots, tile.x as int, tile.y as int, m0.snap_radius_sq,
                        m0.slots.len() as int,
                    );
                    assert(m0.slot_in_range(s as int));
                }
                let slot = self.slots[s];
                let mut new_tile = tile;
                new_tile.x = slot.x;
                new_tile.y = slot.y;
                new_tile.current_slot = Some(s);
                self.tiles[t] = new_tile;
                let mut new_slot = slot;
                new_slot.occupant = Some(t);
                self.slots[s] = new_slot;
                clear_hints(&mut self.slots);
                self.dragging = None;
                proof {
                    assert(self@.tiles =~= target.tiles);
                    assert(self@.slots =~= target.slots);
                    assert(self@ =~= target);
                }
                Some(s)
            },
        }
    }

    /// One pointer click, as the single-pointer input model sees it: a
    /// click in idle state attempts a pick, and a click during a live
    /// drag drops the held tile.
    pub fn click(&mut self, px: i64, py: i64) -> (outcome: ClickOutcome)
        requires
            old(self)@.wf(),
            -COORD_LIMIT <= px <= COORD_LIMIT,
            -COORD_LIMIT <= py <= COORD_LIMIT,
        ensures
            final(self)@.wf(),
            old(self)@.dragging is None ==> final(self)@
                == spec_pick(old(self)@, px as int, py as int)
                && (match outcome {
                    ClickOutcome::Picked(t) => pick_target(old(self)@, px as int, py as int)
                        == Some(t as int),
                    ClickOutcome::NoPieceUnderPointer => pick_target(
                        old(self)@, px as int, py as int,
                    ) is None,
                    _ => false,
                }),
            old(self)@.dragging is Some ==> final(self)@ == spec_drop(old(self)@)
                && (match outcome {
                    ClickOutcome::Placed(s) => drop_target(old(self)@) == Some(s as int),
                    ClickOutcome::NoSlotInRange => drop_target(old(self)@) is None,
                    _ => false,
                }),
    {
        if self.dragging.is_none() {
            match self.pick(px, py) {
                Some(t) => ClickOutcome::Picked(t),
                None => ClickOutcome::NoPieceUnderPointer,
            }
        } else {
            match self.release() {
                Some(s) => ClickOutcome::Placed(s),
                None => ClickOutcome::NoSlotInRange,
            }
        }
    }

    /// The win condition: true exactly when every tile occupies its home
    /// slot.
    pub fn is_complete(&self) -> (complete: bool)
        ensures
            complete == self@.complete(),
    {
        let n = self.tiles.len();
        let mut t: usize = 0;
        while t < n
            invariant
                t <= n,
                n == self.tiles@.len(),
                forall|k: int| 0 <= k < t ==> #[trigger] self@.tiles[k].current_slot
                    == Some(self@.tiles[k].correct_index),
            decreases n - t,
        {
            let tile = self.tiles[t];
            let placed_right = match tile.current_slot {
                Some(s) => s == tile.correct_index,
                None => false,
            };
            if !placed_right {
                proof {
                    assert(self@.tile_in_range(t as int));
                    assert(self@.tiles[t as int].current_slot
                        != Some(self@.tiles[t as int].correct_index));
                }
                return false;
            }
            t = t + 1;
        }
        proof {
            assert forall|k: int| #[trigger] self@.tile_in_range(k) implies
                self@.tiles[k].current_slot == Some(self@.tiles[k].correct_index) by {
                assert(0 <= k < n);
            }
        }
        true
    }

    /// The tile currently held by the drag, if any.
    pub fn dragged_tile(&self) -> (t: Option<usize>)
        ensures
            opt_index(t) == match self@.dragging {
                Some(d) => Some(d.tile),
                None => None,
            },
    {
        match self.dragging {
            Some(d) => Some(d.tile),
            None => None,
        }
    }

    /// Where tile `t` currently sits.
    pub fn tile_position(&self, t: usize) -> (pos: (i64, i64))
        requires
            t < self@.tiles.len(),
        ensures
            pos.0 == self@.tiles[t as int].x,
            pos.1 == self@.tiles[t as int].y,
    {
        let tile = self.tiles[t];
        (tile.x, tile.y)
    }

    /// The home slot tile `t` was created for.
    pub fn tile_correct_index(&self, t: usize) -> (index: usize)
        requires
            t < self@.tiles.len(),
        ensures
            index == self@.tiles[t as int].correct_index,
    {
        self.tiles[t].correct_index
    }

    /// The slot tile `t` currently occupies, if any.
    pub fn tile_slot(&self, t: usize) -> (slot: Option<usize>)
        requires
            t < self@.tiles.len(),
        ensures
            opt_index(slot) == self@.tiles[t as int].current_slot,
    {
        self.tiles[t].current_slot
    }

    /// The center of slot `s`.
    pub fn slot_center(&self, s: usize) -> (pos: (i64, i64))
        requires
            s < self@.slots.len(),
        ensures
            pos.0 == self@.slots[s as int].x,
            pos.1 == self@.slots[s as int].y,
    {
        let slot = self.slots[s];
        (slot.x, slot.y)
    }

    /// The tile occupying slot `s`, if any.
    pub fn slot_occupant(&self, s: usize) -> (occupant: Option<usize>)
        requires
            s < self@.slots.len(),
        ensures
            opt_index(occupant) == self@.slots[s as int].occupant,
    {
        self.slots[s].occupant
    }

    /// Whether slot `s` currently shows the proximity hint.
    pub fn slot_hint_active(&self, s: usize) -> (hint: bool)
        requires
            s < self@.slots.len(),
        ensures
            hint == self@.slots[s as int].hint_active,
    {
        self.slots[s].hint_active
    }
}

/// Watches for the first transition to a complete board and emits a
/// one-shot success signal: once emitted, later checks stay quiet, so the
/// surrounding screen logic hears about the win exactly once.
pub struct CompletionDetector {
    fired: bool,
}

impl CompletionDetector {
    /// Whether the signal has been emitted already.
    pub closed spec fn has_fired(&self) -> bool {
        self.fired
    }

    /// A fresh detector that has not fired yet.
    pub fn new() -> (detector: CompletionDetector)
        ensures
            !detector.has_fired(),
    {
        CompletionDetector { fired: false }
    }

    /// Checks the board once, after a drop or a frame: emits the success
    /// signal exactly when the board is complete and the signal has not
    /// been emitted before.
    pub fn poll(&mut self, state: &PuzzleState) -> (emit: bool)
        ensures
            emit == signal_emitted(old(self).has_fired(), state@.complete()),
            final(self).has_fired() == signal_fired_after(
                old(self).has_fired(), state@.complete(),
            ),
    {
        let complete = state.is_complete();
        let emit = complete && !self.fired;
        if complete {
            self.fired = true;
        }
        emit
    }
}

} // verus!
