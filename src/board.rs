use crate::player::{Player, PlayerId};
use vstd::prelude::*;

verus! {

/// Cells along each side of the board.
pub const SIDE: usize = 8;

/// Cells on the board.
pub const CELLS: usize = 64;

/// Whether cell `c` holds the player `id`.
pub open spec fn holds_player(c: Option<Player>, id: PlayerId) -> bool {
    c matches Some(p) && p.id == id
}

/// Whether some cell of `b` holds the player `id`.
pub open spec fn is_present(b: Seq<Option<Player>>, id: PlayerId) -> bool {
    exists|i: int| 0 <= i < b.len() && holds_player(b[i], id)
}

/// Cell `i` is the first cell of `b`, in scan order, that holds `id`.
pub open spec fn located_at(b: Seq<Option<Player>>, id: PlayerId, i: int) -> bool {
    &&& 0 <= i < b.len()
    &&& holds_player(b[i], id)
    &&& forall|j: int| 0 <= j < i ==> !holds_player(#[trigger] b[j], id)
}

/// The first cell of `b` that holds `id` (meaningful when `is_present(b, id)`).
pub open spec fn position_of(b: Seq<Option<Player>>, id: PlayerId) -> int {
    choose|i: int| located_at(b, id, i)
}

/// Whether some cell of `b` is empty.
pub open spec fn has_empty(b: Seq<Option<Player>>) -> bool {
    exists|i: int| 0 <= i < b.len() && b[i] is None
}

/// Cell `i` is the first empty cell of `b` in scan order.
pub open spec fn first_empty_at(b: Seq<Option<Player>>, i: int) -> bool {
    &&& 0 <= i < b.len()
    &&& b[i] is None
    &&& forall|j: int| 0 <= j < i ==> (#[trigger] b[j]) is Some
}

/// The first empty cell of `b` (meaningful when `has_empty(b)`).
pub open spec fn first_empty(b: Seq<Option<Player>>) -> int {
    choose|i: int| first_empty_at(b, i)
}

/// No player id occupies two cells.
pub open spec fn ids_unique(b: Seq<Option<Player>>) -> bool {
    forall|i: int, j: int|
        0 <= i < b.len() && 0 <= j < b.len() && i != j && (#[trigger] b[i]) is Some && (#[trigger] b[j]) is Some
            ==> b[i]->0.id != b[j]->0.id
}

/// The number of occupied cells.
pub open spec fn occupancy(b: Seq<Option<Player>>) -> nat
    decreases b.len(),
{
    if b.len() == 0 {
        0
    } else {
        occupancy(b.drop_last()) + if b.last() is Some { 1nat } else { 0nat }
    }
}

/// The cell index of the coordinates `(x, y)`: rows top to bottom, cells left to right.
pub open spec fn index_of(x: int, y: int) -> int {
    y * SIDE + x
}

/// The coordinates `(x, y)` of cell index `i`.
pub open spec fn coords_of(i: int) -> (int, int) {
    (i % SIDE as int, i / SIDE as int)
}

/// The empty board.
pub open spec fn empty_board() -> Seq<Option<Player>> {
    Seq::new(CELLS as nat, |i: int| None)
}

/// Where a first empty cell exists, the first one does.
pub proof fn lemma_first_empty_exists(b: Seq<Option<Player>>, k: int)
    requires
        0 <= k < b.len(),
        b[k] is None,
    ensures
        first_empty_at(b, first_empty(b)),
    decreases k,
{
    if forall|j: int| 0 <= j < k ==> (#[trigger] b[j]) is Some {
        assert(first_empty_at(b, k));
    } else {
        let j = choose|j: int| 0 <= j < k && !((#[trigger] b[j]) is Some);
        lemma_first_empty_exists(b, j);
    }
}

/// The first empty cell is unique.
pub proof fn lemma_first_empty_unique(b: Seq<Option<Player>>, i: int)
    requires
        first_empty_at(b, i),
    ensures
        first_empty(b) == i,
{
    let k = first_empty(b);
    assert(first_empty_at(b, k));
    if k < i {
        assert(b[k] is Some);
    } else if i < k {
        assert(b[i] is Some);
    }
}

/// On a board without repeated ids, the cell that holds `id` is its position.
pub proof fn lemma_position_unique(b: Seq<Option<Player>>, id: PlayerId, i: int)
    requires
        ids_unique(b),
        0 <= i < b.len(),
        holds_player(b[i], id),
    ensures
        located_at(b, id, i),
        position_of(b, id) == i,
{
    assert forall|j: int| 0 <= j < i implies !holds_player(#[trigger] b[j], id) by {
        if holds_player(b[j], id) {
            assert(b[j] is Some && b[i] is Some);
        }
    }
    assert(located_at(b, id, i));
    lemma_located_is_position(b, id, i);
}

/// The first cell that holds `id` is its position.
pub proof fn lemma_located_is_position(b: Seq<Option<Player>>, id: PlayerId, i: int)
    requires
        located_at(b, id, i),
    ensures
        position_of(b, id) == i,
{
    let k = position_of(b, id);
    assert(located_at(b, id, k));
    if k < i {
        assert(holds_player(b[k], id));
    } else if i < k {
        assert(holds_player(b[i], id));
    }
}

/// Occupancy never exceeds the number of cells.
pub proof fn lemma_occupancy_bound(b: Seq<Option<Player>>)
    ensures
        occupancy(b) <= b.len(),
    decreases b.len(),
{
    if b.len() > 0 {
        lemma_occupancy_bound(b.drop_last());
    }
}

/// How writing one cell changes the occupancy.
pub proof fn lemma_occupancy_update(b: Seq<Option<Player>>, i: int, c: Option<Player>)
    requires
        0 <= i < b.len(),
    ensures
        occupancy(b.update(i, c)) + (if b[i] is Some { 1int } else { 0int }) == occupancy(b) + (
        if c is Some { 1int } else { 0int }),
    decreases b.len(),
{
    let u = b.update(i, c);
    if i == b.len() - 1 {
        assert(u.drop_last() =~= b.drop_last());
    } else {
        assert(u.drop_last() =~= b.drop_last().update(i, c));
        lemma_occupancy_update(b.drop_last(), i, c);
    }
}

/// The empty board has no occupant.
pub proof fn lemma_occupancy_empty(n: nat)
    ensures
        occupancy(Seq::new(n, |i: int| None::<Player>)) == 0,
    decreases n,
{
    if n > 0 {
        assert(Seq::new(n, |i: int| None::<Player>).drop_last() =~= Seq::new(
            (n - 1) as nat,
            |i: int| None::<Player>,
        ));
        lemma_occupancy_empty((n - 1) as nat);
    }
}

/// A fixed 8x8 grid of cells, each empty or holding one player, stored in scan
/// order: rows from top to bottom, and within a row from left to right.
pub struct Board {
    cells: Vec<Option<Player>>,
}

impl View for Board {
    type V = Seq<Option<Player>>;

    closed spec fn view(&self) -> Seq<Option<Player>> {
        self.cells@
    }
}

impl Board {
    /// The board has its full number of cells.
    pub open spec fn wf(&self) -> bool {
        self@.len() == CELLS
    }

    /// An empty board.
    pub fn new() -> (b: Board)
        ensures
            b.wf(),
            b@ == empty_board(),
    {
        let mut cells: Vec<Option<Player>> = Vec::new();
        let mut i: usize = 0;
        while i < CELLS
            invariant
                i <= CELLS,
                cells@ == Seq::new(i as nat, |k: int| None::<Player>),
            decreases CELLS - i,
        {
            cells.push(None);
            i = i + 1;
        }
        Board { cells }
    }

    /// A copy of this board.
    pub fn copied(&self) -> (b: Board)
        requires
            self.wf(),
        ensures
            b.wf(),
            b@ == self@,
    {
        let mut cells: Vec<Option<Player>> = Vec::new();
        let mut i: usize = 0;
        while i < CELLS
            invariant
                self.wf(),
                i <= CELLS,
                cells@ == self@.subrange(0, i as int),
            decreases CELLS - i,
        {
            let c = match &self.cells[i] {
                Some(p) => Some(p.copied()),
                None => None,
            };
            cells.push(c);
            i = i + 1;
        }
        Board { cells }
    }

    /// The cell index of the first cell holding `id`, if any.
    pub fn locate_index(&self, id: PlayerId) -> (r: Option<usize>)
        requires
            self.wf(),
        ensures
            r matches Some(i) ==> located_at(self@, id, i as int),
            r is None ==> !is_present(self@, id),
    {
        let mut i: usize = 0;
        while i < CELLS
            invariant
                self.wf(),
                i <= CELLS,
                forall|j: int| 0 <= j < i ==> !holds_player(#[trigger] self@[j], id),
            decreases CELLS - i,
        {
            match &self.cells[i] {
                Some(p) => {
                    if p.id == id {
                        return Some(i);
                    }
                },
                None => {},
            }
            i = i + 1;
        }
        None
    }

    /// The coordinates `(x, y)` of the first cell holding `id`, if any.
    pub fn locate(&self, id: PlayerId) -> (r: Option<(usize, usize)>)
        requires
            self.wf(),
        ensures
            r == (if is_present(self@, id) {
                Some(
                    (
                        coords_of(position_of(self@, id)).0 as usize,
                        coords_of(position_of(self@, id)).1 as usize,
                    ),
                )
            } else {
                None
            }),
    {
        match self.locate_index(id) {
            Some(i) => {
                proof {
                    lemma_located_is_position(self@, id, i as int);
                }
                Some((i % SIDE, i / SIDE))
            },
            None => None,
        }
    }

    /// The cell index of the first empty cell, if any.
    pub fn first_empty_index(&self) -> (r: Option<usize>)
        requires
            self.wf(),
        ensures
            r matches Some(i) ==> i == first_empty(self@) && first_empty_at(self@, i as int),
            r is None <==> !has_empty(self@),
    {
        let mut i: usize = 0;
        while i < CELLS
            invariant
                self.wf(),
                i <= CELLS,
                forall|j: int| 0 <= j < i ==> (#[trigger] self@[j]) is Some,
            decreases CELLS - i,
        {
            if self.cells[i].is_none() {
                proof {
                    lemma_first_empty_unique(self@, i as int);
                }
                return Some(i);
            }
            i = i + 1;
        }
        None
    }

    /// The coordinates `(x, y)` of the first empty cell, if any.
    pub fn first_empty(&self) -> (r: Option<(usize, usize)>)
        requires
            self.wf(),
        ensures
            r == (if has_empty(self@) {
                Some(
                    (
                        coords_of(first_empty(self@)).0 as usize,
                        coords_of(first_empty(self@)).1 as usize,
                    ),
                )
            } else {
                None
            }),
    {
        match self.first_empty_index() {
            Some(i) => Some((i % SIDE, i / SIDE)),
            None => None,
        }
    }

    /// The number of occupied cells.
    pub fn occupancy(&self) -> (r: usize)
        requires
            self.wf(),
        ensures
            r == occupancy(self@),
    {
        let mut count: usize = 0;
        let mut i: usize = 0;
        while i < CELLS
            invariant
                self.wf(),
                i <= CELLS,
                count == occupancy(self@.subrange(0, i as int)),
            decreases CELLS - i,
        {
            proof {
                assert(self@.subrange(0, i + 1).drop_last() =~= self@.subrange(0, i as int));
                lemma_occupancy_bound(self@.subrange(0, i as int));
            }
            if self.cells[i].is_some() {
                count = count + 1;
            }
            i = i + 1;
        }
        assert(self@.subrange(0, CELLS as int) =~= self@);
        count
    }

    /// The cell at index `i`.
    pub fn cell_at(&self, i: usize) -> (r: &Option<Player>)
        requires
            self.wf(),
            i < CELLS,
        ensures
            *r == self@[i as int],
    {
        &self.cells[i]
    }

    /// The cell at coordinates `(x, y)`.
    pub fn cell(&self, x: usize, y: usize) -> (r: &Option<Player>)
        requires
            self.wf(),
            x < SIDE,
            y < SIDE,
        ensures
            *r == self@[index_of(x as int, y as int)],
    {
        &self.cells[y * SIDE + x]
    }

    /// Writes `c` into cell `i` and hands back what was there.
    pub fn replace_at(&mut self, i: usize, c: Option<Player>) -> (prev: Option<Player>)
        requires
            old(self).wf(),
            i < CELLS,
        ensures
            final(self).wf(),
            final(self)@ == old(self)@.update(i as int, c),
            prev == old(self)@[i as int],
    {
        let mut c = c;
        std::mem::swap(&mut self.cells[i], &mut c);
        c
    }

    /// Puts `p` into the cell at `(x, y)`, whatever it held before.
    pub fn place(&mut self, p: Player, x: usize, y: usize)
        requires
            old(self).wf(),
            x < SIDE,
            y < SIDE,
        ensures
            final(self).wf(),
            final(self)@ == old(self)@.update(index_of(x as int, y as int), Some(p)),
    {
        let _ = self.replace_at(y * SIDE + x, Some(p));
    }

    /// Empties the cell at `(x, y)` and hands back its occupant.
    pub fn clear(&mut self, x: usize, y: usize) -> (prev: Option<Player>)
        requires
            old(self).wf(),
            x < SIDE,
            y < SIDE,
        ensures
            final(self).wf(),
            final(self)@ == old(self)@.update(index_of(x as int, y as int), None),
            prev == old(self)@[index_of(x as int, y as int)],
    {
        self.replace_at(y * SIDE + x, None)
    }
}

} // verus!
