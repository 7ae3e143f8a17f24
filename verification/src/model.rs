//! Mathematical model of the matching engine.
//!
//! The executable state in `puzzle` refines this model: every operation's
//! contract says that the new state's view equals the corresponding spec
//! transition applied to the old view.  The laws in `laws` are proved over
//! these transitions alone.

use vstd::prelude::*;

verus! {

/// One draggable piece: its immutable home slot, its current position, and
/// the slot it occupies, if any.
#[verifier::ext_equal]
pub struct TileModel {
    pub correct_index: int,
    pub x: int,
    pub y: int,
    pub current_slot: Option<int>,
}

/// One target position: its immutable center, its occupant, if any, and the
/// transient proximity hint shown while a drag passes by.
#[verifier::ext_equal]
pub struct SlotModel {
    pub x: int,
    pub y: int,
    pub occupant: Option<int>,
    pub hint_active: bool,
}

/// The drag session: which tile is held and the pointer-to-tile offset
/// captured at pick-up time.
#[verifier::ext_equal]
pub struct DragModel {
    pub tile: int,
    pub dx: int,
    pub dy: int,
}

/// The whole engine state.
#[verifier::ext_equal]
pub struct PuzzleModel {
    pub tiles: Seq<TileModel>,
    pub slots: Seq<SlotModel>,
    pub dragging: Option<DragModel>,
    pub pick_radius_sq: int,
    pub snap_radius_sq: int,
}

/// Squared Euclidean distance between two points.
pub open spec fn dist_sq(x1: int, y1: int, x2: int, y2: int) -> int {
    (x1 - x2) * (x1 - x2) + (y1 - y2) * (y1 - y2)
}

/// Bound on slot centers, scattered tiles and pointer coordinates.
pub open spec fn coord_limit() -> int {
    crate::layout::COORD_LIMIT as int
}

/// Bound on tile positions; a dragged tile can stray a little past the
/// pointer bound by its drag offset.
pub open spec fn pos_limit() -> int {
    2_000_000_000
}

/// Bound on drag offsets; follows from the pick radius bound, since the
/// picked tile's distance to the pointer is below that radius.
pub open spec fn offset_limit() -> int {
    2_097_152
}

/// Bound on the squared radii.
pub open spec fn radius_limit() -> int {
    crate::layout::MAX_RADIUS_SQ as int
}

impl PuzzleModel {
    pub open spec fn tile_in_range(self, t: int) -> bool {
        0 <= t < self.tiles.len()
    }

    pub open spec fn slot_in_range(self, s: int) -> bool {
        0 <= s < self.slots.len()
    }

    /// The assignment between tiles and slots is a partial injective
    /// mapping recorded on both sides: a tile that occupies a slot is that
    /// slot's occupant, and a slot's occupant occupies that slot.
    pub open spec fn assignment_consistent(self) -> bool {
        &&& forall|t: int| #[trigger] self.tile_in_range(t)
            ==> match self.tiles[t].current_slot {
                Some(s) => self.slot_in_range(s) && self.slots[s].occupant == Some(t),
                None => true,
            }
        &&& forall|s: int| #[trigger] self.slot_in_range(s)
            ==> match self.slots[s].occupant {
                Some(t) => self.tile_in_range(t) && self.tiles[t].current_slot == Some(s),
                None => true,
            }
    }

    /// Bounds that keep every coordinate computation exact on machine
    /// integers.
    pub open spec fn bounds_ok(self) -> bool {
        &&& forall|t: int| #[trigger] self.tile_in_range(t)
            ==> -pos_limit() <= self.tiles[t].x <= pos_limit()
                && -pos_limit() <= self.tiles[t].y <= pos_limit()
        &&& forall|s: int| #[trigger] self.slot_in_range(s)
            ==> -coord_limit() <= self.slots[s].x <= coord_limit()
                && -coord_limit() <= self.slots[s].y <= coord_limit()
        &&& 0 <= self.pick_radius_sq <= radius_limit()
        &&& 0 <= self.snap_radius_sq <= radius_limit()
    }

    /// The drag session, when present, holds a real tile, that tile
    /// occupies no slot (it was freed at pick-up), and its offset is small.
    pub open spec fn drag_ok(self) -> bool {
        match self.dragging {
            Some(d) => {
                &&& self.tile_in_range(d.tile)
                &&& self.tiles[d.tile].current_slot is None
                &&& -offset_limit() <= d.dx <= offset_limit()
                &&& -offset_limit() <= d.dy <= offset_limit()
            },
            None => true,
        }
    }

    /// Hints light up only on free slots, and only while a drag is live.
    pub open spec fn hints_ok(self) -> bool {
        &&& forall|s: int| #[trigger] self.slot_in_range(s) && self.slots[s].hint_active
            ==> self.slots[s].occupant is None
        &&& self.dragging is None
            ==> forall|s: int| #[trigger] self.slot_in_range(s) ==> !self.slots[s].hint_active
    }

    /// Well-formedness: one slot per tile, tiles and slots agree, bounds
    /// hold, and the drag session is sound.
    pub open spec fn wf(self) -> bool {
        &&& self.tiles.len() == self.slots.len()
        &&& self.assignment_consistent()
        &&& self.bounds_ok()
        &&& self.drag_ok()
        &&& self.hints_ok()
    }

    /// The win condition: every tile occupies exactly its home slot.
    pub open spec fn complete(self) -> bool {
        forall|t: int| #[trigger] self.tile_in_range(t)
            ==> self.tiles[t].current_slot == Some(self.tiles[t].correct_index)
    }
}

/// The topmost tile whose pick circle contains the pointer, among the first
/// `n` tiles.  Tiles created later are drawn above earlier ones, so the
/// highest index wins.
pub open spec fn topmost_hit(
    tiles: Seq<TileModel>,
    px: int,
    py: int,
    radius_sq: int,
    n: int,
) -> Option<int>
    decreases n,
{
    if n <= 0 {
        None
    } else if dist_sq(tiles[n - 1].x, tiles[n - 1].y, px, py) < radius_sq {
        Some(n - 1)
    } else {
        topmost_hit(tiles, px, py, radius_sq, n - 1)
    }
}

/// The tile a pick at `(px, py)` would lift, if any.
pub open spec fn pick_target(m: PuzzleModel, px: int, py: int) -> Option<int> {
    if m.dragging is Some {
        None
    } else {
        topmost_hit(m.tiles, px, py, m.pick_radius_sq, m.tiles.len() as int)
    }
}

/// Picking at `(px, py)`: lift the topmost tile under the pointer, record
/// the drag offset, and free the slot the tile occupied, if any.  A pick
/// that hits nothing, or arrives while a drag is live, changes nothing.
pub open spec fn spec_pick(m: PuzzleModel, px: int, py: int) -> PuzzleModel {
    match pick_target(m, px, py) {
        None => m,
        Some(t) => {
            let tile = m.tiles[t];
            let freed_slots = match tile.current_slot {
                Some(s) => m.slots.update(
                    s,
                    SlotModel { occupant: None, ..m.slots[s] },
                ),
                None => m.slots,
            };
            PuzzleModel {
                tiles: m.tiles.update(t, TileModel { current_slot: None, ..tile }),
                slots: freed_slots,
                dragging: Some(DragModel { tile: t, dx: tile.x - px, dy: tile.y - py }),
                ..m
            }
        },
    }
}

/// Dragging to `(px, py)`: the held tile follows the pointer shifted by the
/// drag offset, and every free slot's hint reflects whether the tile is now
/// within snap range of it.  Without a live drag this is a no-op.
pub open spec fn spec_move(m: PuzzleModel, px: int, py: int) -> PuzzleModel {
    match m.dragging {
        None => m,
        Some(d) => {
            let nx = px + d.dx;
            let ny = py + d.dy;
            PuzzleModel {
                tiles: m.tiles.update(d.tile, TileModel { x: nx, y: ny, ..m.tiles[d.tile] }),
                slots: Seq::new(
                    m.slots.len(),
                    |s: int| SlotModel {
                        hint_active: m.slots[s].occupant is None
                            && dist_sq(nx, ny, m.slots[s].x, m.slots[s].y) < m.snap_radius_sq,
                        ..m.slots[s]
                    },
                ),
                ..m
            }
        },
    }
}

/// The free slot within snap range that is nearest to `(x, y)`, among the
/// first `n` slots; on equal distance the lowest index wins.
pub open spec fn best_slot_upto(
    slots: Seq<SlotModel>,
    x: int,
    y: int,
    snap_radius_sq: int,
    n: int,
) -> Option<int>
    decreases n,
{
    if n <= 0 {
        None
    } else {
        let prev = best_slot_upto(slots, x, y, snap_radius_sq, n - 1);
        let cand = n - 1;
        let cand_d = dist_sq(x, y, slots[cand].x, slots[cand].y);
        if !(slots[cand].occupant is None && cand_d < snap_radius_sq) {
            prev
        } else {
            match prev {
                None => Some(cand),
                Some(b) => if cand_d < dist_sq(x, y, slots[b].x, slots[b].y) {
                    Some(cand)
                } else {
                    prev
                },
            }
        }
    }
}

/// The slot a drop would place the held tile into, if any.
pub open spec fn drop_target(m: PuzzleModel) -> Option<int> {
    match m.dragging {
        None => None,
        Some(d) => best_slot_upto(
            m.slots,
            m.tiles[d.tile].x,
            m.tiles[d.tile].y,
            m.snap_radius_sq,
            m.slots.len() as int,
        ),
    }
}

/// Dropping: if a free slot is within snap range of the held tile, the tile
/// snaps to the nearest such slot's center and the assignment is recorded;
/// otherwise the tile stays where it was left.  Either way the drag ends
/// and all hints go out.  Without a live drag this is a no-op.
pub open spec fn spec_drop(m: PuzzleModel) -> PuzzleModel {
    match m.dragging {
        None => m,
        Some(d) => {
            let cleared = Seq::new(
                m.slots.len(),
                |s: int| SlotModel { hint_active: false, ..m.slots[s] },
            );
            match drop_target(m) {
                None => PuzzleModel { slots: cleared, dragging: None, ..m },
                Some(s) => PuzzleModel {
                    tiles: m.tiles.update(
                        d.tile,
                        TileModel {
                            x: m.slots[s].x,
                            y: m.slots[s].y,
                            current_slot: Some(s),
                            ..m.tiles[d.tile]
                        },
                    ),
                    slots: cleared.update(
                        s,
                        SlotModel { occupant: Some(d.tile), hint_active: false, ..m.slots[s] },
                    ),
                    dragging: None,
                    ..m
                },
            }
        },
    }
}

/// Whether a completion check with detector state `fired` emits the
/// one-shot success signal when the board's completion is `complete`.
pub open spec fn signal_emitted(fired: bool, complete: bool) -> bool {
    complete && !fired
}

/// The detector state after a completion check.
pub open spec fn signal_fired_after(fired: bool, complete: bool) -> bool {
    fired || complete
}

/// What a successful or failed topmost scan means: a hit is a real tile
/// whose pick circle contains the pointer and above which no other tile
/// does; a miss means no tile's circle contains the pointer.
pub proof fn lemma_topmost_hit_properties(
    tiles: Seq<TileModel>,
    px: int,
    py: int,
    radius_sq: int,
    n: int,
)
    requires
        0 <= n <= tiles.len(),
    ensures
        match topmost_hit(tiles, px, py, radius_sq, n) {
            Some(t) => 0 <= t < n && dist_sq(tiles[t].x, tiles[t].y, px, py) < radius_sq
                && forall|u: int| t < u < n
                    ==> dist_sq(#[trigger] tiles[u].x, tiles[u].y, px, py) >= radius_sq,
            None => forall|u: int| 0 <= u < n
                ==> dist_sq(#[trigger] tiles[u].x, tiles[u].y, px, py) >= radius_sq,
        },
    decreases n,
{
    if n > 0 {
        if dist_sq(tiles[n - 1].x, tiles[n - 1].y, px, py) < radius_sq {
        } else {
            lemma_topmost_hit_properties(tiles, px, py, radius_sq, n - 1);
        }
    }
}

/// What a best-slot scan means: a find is a free slot within snap range
/// that no other free slot in range beats, and on equal distance the lower
/// index wins; a miss means no free slot is within snap range.
pub proof fn lemma_best_slot_properties(
    slots: Seq<SlotModel>,
    x: int,
    y: int,
    snap_radius_sq: int,
    n: int,
)
    requires
        0 <= n <= slots.len(),
    ensures
        match best_slot_upto(slots, x, y, snap_radius_sq, n) {
            Some(b) => {
                &&& 0 <= b < n
                &&& slots[b].occupant is None
                &&& dist_sq(x, y, slots[b].x, slots[b].y) < snap_radius_sq
                &&& forall|j: int| 0 <= j < n && (#[trigger] slots[j].occupant) is None
                    && dist_sq(x, y, slots[j].x, slots[j].y) < snap_radius_sq
                    ==> dist_sq(x, y, slots[b].x, slots[b].y) <= dist_sq(x, y, slots[j].x, slots[j].y)
                &&& forall|j: int| 0 <= j < n && (#[trigger] slots[j].occupant) is None
                    && dist_sq(x, y, slots[j].x, slots[j].y)
                        == dist_sq(x, y, slots[b].x, slots[b].y)
                    && dist_sq(x, y, slots[j].x, slots[j].y) < snap_radius_sq
                    ==> b <= j
            },
            None => forall|j: int| 0 <= j < n && (#[trigger] slots[j].occupant) is None
                ==> dist_sq(x, y, slots[j].x, slots[j].y) >= snap_radius_sq,
        },
    decreases n,
{
    if n > 0 {
        lemma_best_slot_properties(slots, x, y, snap_radius_sq, n - 1);
    }
}

} // verus!
