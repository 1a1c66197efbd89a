use crate::board::{
    coords_of, empty_board, first_empty, has_empty, holds_player, ids_unique, is_present,
    lemma_position_unique, occupancy, position_of, Board, CELLS, SIDE,
};
use crate::player::{is_color_text, random_color, Player, PlayerId};
use vstd::prelude::*;

verus! {

/// The number of players at which a game started with `Game::new` begins.
pub const MINIMUM_PLAYER_COUNT: usize = 2;

/// A direction in which a player asks to move by one cell.
#[derive(Clone, Copy, Debug, PartialEq, Eq, Structural)]
pub enum MoveDirection {
    Up,
    Down,
    Left,
    Right,
}

/// The phase of the game.
#[derive(Clone, Copy, Debug, PartialEq, Eq, Structural)]
pub enum GameState {
    NotStarted,
    InProgress,
    Winner(PlayerId),
}

/// What a game is, seen from outside: its board in scan order, its phase, and
/// the number of players at which it starts.
pub struct GameView {
    pub board: Seq<Option<Player>>,
    pub state: GameState,
    pub min_players: nat,
}

impl GameView {
    /// The board has all its cells and no player occupies two of them.
    pub open spec fn wf(self) -> bool {
        self.board.len() == CELLS && ids_unique(self.board)
    }
}

/// A game that has not begun, on an empty board, that begins at `min_players`
/// players.
pub open spec fn fresh_game(min_players: nat) -> GameView {
    GameView { board: empty_board(), state: GameState::NotStarted, min_players }
}

/// A move from cell `i` in direction `d` stays on the board.
pub open spec fn can_step(i: int, d: MoveDirection) -> bool {
    match d {
        MoveDirection::Up => coords_of(i).1 != 0,
        MoveDirection::Down => coords_of(i).1 != SIDE - 1,
        MoveDirection::Left => coords_of(i).0 != 0,
        MoveDirection::Right => coords_of(i).0 != SIDE - 1,
    }
}

/// The cell one step from cell `i` in direction `d`.
pub open spec fn step(i: int, d: MoveDirection) -> int {
    match d {
        MoveDirection::Up => i - SIDE,
        MoveDirection::Down => i + SIDE,
        MoveDirection::Left => i - 1,
        MoveDirection::Right => i + 1,
    }
}

/// Whether player `id` may move in direction `d`: the game is in progress, the
/// player is on the board, and the move does not cross its edge.
pub open spec fn move_allowed(g: GameView, id: PlayerId, d: MoveDirection) -> bool {
    &&& g.state == GameState::InProgress
    &&& is_present(g.board, id)
    &&& can_step(position_of(g.board, id), d)
}

/// The player `p` after one more collision: its score goes up by one, and stays
/// at the largest `usize` once there.
pub open spec fn scored(p: Player) -> Player {
    Player {
        color: p.color,
        id: p.id,
        score: if p.score < usize::MAX { (p.score + 1) as usize } else { p.score },
    }
}

/// The board after the occupant of `src` moves into `dst`. An occupant of `dst`
/// is knocked to the first empty cell of the board as it stands once `src` is
/// vacated, and the mover scores.
pub open spec fn relocated(b: Seq<Option<Player>>, src: int, dst: int) -> Seq<Option<Player>> {
    let mover = b[src]->0;
    let vacated = b.update(src, None);
    match b[dst] {
        None => vacated.update(dst, Some(mover)),
        Some(other) => vacated.update(dst, Some(scored(mover))).update(
            first_empty(vacated),
            Some(other),
        ),
    }
}

/// The game after player `id` asks to move in direction `d`.
pub open spec fn after_move(g: GameView, id: PlayerId, d: MoveDirection) -> GameView {
    if move_allowed(g, id, d) {
        let src = position_of(g.board, id);
        GameView {
            board: relocated(g.board, src, step(src, d)),
            state: g.state,
            min_players: g.min_players,
        }
    } else {
        g
    }
}

/// The phase once the board holds `count` players.
pub open spec fn advanced(state: GameState, count: nat, min_players: nat) -> GameState {
    if state == GameState::NotStarted && count >= min_players {
        GameState::InProgress
    } else {
        state
    }
}

/// The game after `p` asks to join: a player already on the board, or a full
/// board, leaves it as it was; otherwise `p` takes the first empty cell.
pub open spec fn after_join(g: GameView, p: Player) -> GameView {
    if is_present(g.board, p.id) || !has_empty(g.board) {
        g
    } else {
        let b = g.board.update(first_empty(g.board), Some(p));
        GameView {
            board: b,
            state: advanced(g.state, occupancy(b), g.min_players),
            min_players: g.min_players,
        }
    }
}

/// The game after player `id` leaves the board.
pub open spec fn after_leave(g: GameView, id: PlayerId) -> GameView {
    if is_present(g.board, id) {
        GameView {
            board: g.board.update(position_of(g.board, id), None),
            state: g.state,
            min_players: g.min_players,
        }
    } else {
        g
    }
}

/// Writing `c` into cell `i` keeps ids unique when no other cell holds its id.
pub proof fn lemma_unique_update(b: Seq<Option<Player>>, i: int, c: Option<Player>)
    requires
        ids_unique(b),
        0 <= i < b.len(),
        c matches Some(p) ==> forall|j: int| 0 <= j < b.len() && j != i ==> !holds_player(#[trigger] b[j], p.id),
    ensures
        ids_unique(b.update(i, c)),
{
    let u = b.update(i, c);
    assert forall|j: int, k: int|
        0 <= j < u.len() && 0 <= k < u.len() && j != k && (#[trigger] u[j]) is Some && (#[trigger] u[k]) is Some
            implies u[j]->0.id != u[k]->0.id by {
        if j == i {
            assert(!holds_player(b[k], c->0.id));
        } else if k == i {
            assert(!holds_player(b[j], c->0.id));
        } else {
            assert(b[j] is Some && b[k] is Some);
        }
    }
}

/// The authoritative state of one game: a board and a phase.
pub struct Game {
    state: GameState,
    // (0, 0) is the top left corner; x grows to the right and y downwards.
    board: Board,
    min_players: usize,
}

impl View for Game {
    type V = GameView;

    closed spec fn view(&self) -> GameView {
        GameView { board: self.board@, state: self.state, min_players: self.min_players as nat }
    }
}

impl Game {
    /// The board has all its cells and no player occupies two of them.
    pub open spec fn wf(&self) -> bool {
        self@.wf()
    }

    /// An empty game that begins once `MINIMUM_PLAYER_COUNT` players have joined.
    pub fn new() -> (g: Game)
        ensures
            g.wf(),
            g@ == fresh_game(MINIMUM_PLAYER_COUNT as nat),
    {
        Game::with_min_players(MINIMUM_PLAYER_COUNT)
    }

    /// An empty game that begins once `min_players` players have joined.
    pub fn with_min_players(min_players: usize) -> (g: Game)
        ensures
            g.wf(),
            g@ == fresh_game(min_players as nat),
    {
        let board = Board::new();
        Game { state: GameState::NotStarted, board, min_players }
    }

    /// A copy of the game as it stands.
    pub fn snapshot(&self) -> (g: Game)
        requires
            self.wf(),
        ensures
            g.wf(),
            g@ == self@,
    {
        Game { state: self.state, board: self.board.copied(), min_players: self.min_players }
    }

    /// The phase of the game.
    pub fn state(&self) -> (r: GameState)
        ensures
            r == self@.state,
    {
        self.state
    }

    /// The number of players at which the game begins.
    pub fn min_players(&self) -> (r: usize)
        ensures
            r == self@.min_players,
    {
        self.min_players
    }

    /// The board.
    pub fn board(&self) -> (r: &Board)
        ensures
            r@ == self@.board,
            self.wf() ==> r.wf(),
    {
        &self.board
    }

    /// Whether player `id` may move in direction `d` now.
    pub fn move_is_valid(&self, id: PlayerId, d: &MoveDirection) -> (r: bool)
        requires
            self.wf(),
        ensures
            r == move_allowed(self@, id, *d),
    {
        // Players can only move during a game in progress.
        if self.state != GameState::InProgress {
            return false;
        }
        match self.board.locate_index(id) {
            None => false,
            Some(i) => {
                proof {
                    lemma_position_unique(self@.board, id, i as int);
                }
                let x = i % SIDE;
                let y = i / SIDE;
                match d {
                    MoveDirection::Down => y != SIDE - 1,
                    MoveDirection::Up => y != 0,
                    MoveDirection::Left => x != 0,
                    MoveDirection::Right => x != SIDE - 1,
                }
            },
        }
    }

    /// Moves the occupant of `src` into `dst`. An occupant of `dst` is knocked
    /// to the first empty cell, and the mover scores.
    fn relocate(&mut self, src: usize, dst: usize)
        requires
            old(self).wf(),
            src < CELLS,
            dst < CELLS,
            src != dst,
            old(self)@.board[src as int] is Some,
        ensures
            final(self).wf(),
            final(self)@ == (GameView {
                board: relocated(old(self)@.board, src as int, dst as int),
                state: old(self)@.state,
                min_players: old(self)@.min_players,
            }),
    {
        let ghost b = self@.board;
        let ghost vacated = b.update(src as int, None);
        let taken = self.board.replace_at(src, None);
        let mut mover = match taken {
            Some(p) => p,
            None => {
                return ;
            },
        };
        let ghost m = mover;
        proof {
            lemma_unique_update(b, src as int, None);
            assert forall|j: int| 0 <= j < CELLS && j != src implies !holds_player(
                #[trigger] b[j],
                m.id,
            ) by {
                assert(b[j] is Some ==> b[src as int] is Some);
            }
        }
        if self.board.cell_at(dst).is_some() {
            let respawn = match self.board.first_empty_index() {
                Some(k) => k,
                None => {
                    proof {
                        assert(vacated[src as int] is None);
                    }
                    return ;
                },
            };
            if mover.score < usize::MAX {
                mover.score = mover.score + 1;
            }
            let ghost other = vacated[dst as int]->0;
            let knocked = self.board.replace_at(dst, Some(mover));
            let ghost w = vacated.update(dst as int, Some(scored(m)));
            proof {
                assert(mover == scored(m));
                lemma_unique_update(vacated, dst as int, Some(scored(m)));
                assert(b[dst as int] is Some && b[src as int] is Some);
                assert forall|j: int| 0 <= j < CELLS && j != respawn implies !holds_player(
                    #[trigger] w[j],
                    other.id,
                ) by {
                    if j != dst && w[j] is Some {
                        assert(b[j] is Some && b[dst as int] is Some);
                    }
                }
                lemma_unique_update(w, respawn as int, Some(other));
            }
            let _ = self.board.replace_at(respawn, knocked);
        } else {
            proof {
                lemma_unique_update(vacated, dst as int, Some(m));
            }
            let _ = self.board.replace_at(dst, Some(mover));
        }
    }

    /// Moves player `id` one cell in `direction` where that is allowed, and
    /// reports whether it moved.
    pub fn player_move(&mut self, id: PlayerId, direction: MoveDirection) -> (r: bool)
        requires
            old(self).wf(),
        ensures
            final(self).wf(),
            r == move_allowed(old(self)@, id, direction),
            final(self)@ == after_move(old(self)@, id, direction),
    {
        if !self.move_is_valid(id, &direction) {
            return false;
        }
        let src = match self.board.locate_index(id) {
            Some(i) => i,
            None => {
                return false;
            },
        };
        proof {
            lemma_position_unique(self@.board, id, src as int);
        }
        let dst = match direction {
            MoveDirection::Down => src + SIDE,
            MoveDirection::Up => src - SIDE,
            MoveDirection::Left => src - 1,
            MoveDirection::Right => src + 1,
        };
        self.relocate(src, dst);
        true
    }

    /// Adds a player `id` with a random color to the first empty cell, unless
    /// it is on the board already or the board is full, and returns `id`.
    pub fn add_player(&mut self, id: PlayerId) -> (r: PlayerId)
        requires
            old(self).wf(),
        ensures
            final(self).wf(),
            r == id,
            exists|c: String|
                is_color_text(c@) && final(self)@ == after_join(
                    old(self)@,
                    Player { color: c, id, score: 0 },
                ),
    {
        let color = random_color();
        self.add_player_with_color(id, color)
    }

    /// Adds a player `id` with the given color to the first empty cell, unless
    /// it is on the board already or the board is full, and returns `id`. The
    /// game begins once enough players have joined.
    pub fn add_player_with_color(&mut self, id: PlayerId, color: String) -> (r: PlayerId)
        requires
            old(self).wf(),
        ensures
            final(self).wf(),
            r == id,
            final(self)@ == after_join(old(self)@, Player { color, id, score: 0 }),
    {
        // A player already on the board keeps its cell.
        if self.board.locate_index(id).is_some() {
            return id;
        }
        let ghost b = self@.board;
        match self.board.first_empty_index() {
            Some(k) => {
                let p = Player::with_color(id, color);
                proof {
                    lemma_unique_update(b, k as int, Some(p));
                }
                let _ = self.board.replace_at(k, Some(p));
                if self.state == GameState::NotStarted && self.board.occupancy()
                    >= self.min_players {
                    self.state = GameState::InProgress;
                }
            },
            None => {},
        }
        id
    }

    /// Takes player `id` off the board, and reports whether it was there.
    pub fn remove_player(&mut self, id: PlayerId) -> (r: bool)
        requires
            old(self).wf(),
        ensures
            final(self).wf(),
            r == is_present(old(self)@.board, id),
            final(self)@ == after_leave(old(self)@, id),
    {
        match self.board.locate_index(id) {
            None => false,
            Some(i) => {
                proof {
                    lemma_position_unique(self@.board, id, i as int);
                    lemma_unique_update(self@.board, i as int, None);
                }
                let _ = self.board.replace_at(i, None);
                true
            },
        }
    }

    /// The number of players on the board.
    pub fn player_count(&self) -> (r: usize)
        requires
            self.wf(),
        ensures
            r == occupancy(self@.board),
    {
        self.board.occupancy()
    }

    /// The coordinates `(x, y)` of player `id`, if it is on the board.
    pub fn locate(&self, id: PlayerId) -> (r: Option<(usize, usize)>)
        requires
            self.wf(),
        ensures
            r == (if is_present(self@.board, id) {
                Some(
                    (
                        coords_of(position_of(self@.board, id)).0 as usize,
                        coords_of(position_of(self@.board, id)).1 as usize,
                    ),
                )
            } else {
                None
            }),
    {
        self.board.locate(id)
    }

    /// Player `id`, if it is on the board.
    pub fn player(&self, id: PlayerId) -> (r: Option<&Player>)
        requires
            self.wf(),
        ensures
            r == (if is_present(self@.board, id) {
                Some(&self@.board[position_of(self@.board, id)]->0)
            } else {
                None
            }),
    {
        match self.board.locate_index(id) {
            None => None,
            Some(i) => {
                proof {
                    lemma_position_unique(self@.board, id, i as int);
                }
                self.board.cell_at(i).as_ref()
            },
        }
    }

    /// The cell at coordinates `(x, y)`.
    pub fn cell(&self, x: usize, y: usize) -> (r: &Option<Player>)
        requires
            self.wf(),
            x < SIDE,
            y < SIDE,
        ensures
            *r == self@.board[y * SIDE + x],
    {
        self.board.cell(x, y)
    }
}

} // verus!
