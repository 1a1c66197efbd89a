use crate::board::{
    coords_of, empty_board, first_empty, first_empty_at, has_empty, holds_player, is_present,
    lemma_first_empty_exists, lemma_first_empty_unique, lemma_occupancy_empty, lemma_position_unique,
    lemma_occupancy_update, occupancy, position_of, CELLS, SIDE,
};
use crate::engine::{
    after_join, after_leave, after_move, fresh_game, move_allowed, relocated, step,
    GameState, GameView, MoveDirection,
};
use crate::player::{Player, PlayerId};
use vstd::prelude::*;

verus! {

/// The game after each player of `ps` asks to join, in order.
pub open spec fn after_joins(g: GameView, ps: Seq<Player>) -> GameView
    decreases ps.len(),
{
    if ps.len() == 0 {
        g
    } else {
        after_join(after_joins(g, ps.drop_last()), ps.last())
    }
}

/// No two players of `ps` share an id.
pub open spec fn distinct_ids(ps: Seq<Player>) -> bool {
    forall|i: int, j: int| 0 <= i < ps.len() && 0 <= j < ps.len() && i != j ==> (#[trigger] ps[i]).id != (#[trigger] ps[j]).id
}

/// The board whose first `ps.len()` cells hold `ps`, in order, and whose other
/// cells are empty.
pub open spec fn filled_with(ps: Seq<Player>) -> Seq<Option<Player>> {
    Seq::new(CELLS as nat, |i: int| if i < ps.len() { Some(ps[i]) } else { None })
}

/// A player on a board in progress may move in every direction but those that
/// leave the board: not left from the left column, not right from the right
/// column, not up from the top row, not down from the bottom row. An allowed
/// move takes the player one cell on; a refused one changes nothing.
pub proof fn lemma_edges_block_moves(g: GameView, id: PlayerId, d: MoveDirection)
    requires
        g.wf(),
        g.state == GameState::InProgress,
        is_present(g.board, id),
    ensures
        ({
            let (x, y) = coords_of(position_of(g.board, id));
            move_allowed(g, id, d) <==> !(x == 0 && d == MoveDirection::Left) && !(x == SIDE - 1 && d
                == MoveDirection::Right) && !(y == 0 && d == MoveDirection::Up) && !(y == SIDE - 1 && d
                == MoveDirection::Down)
        }),
        move_allowed(g, id, d) ==> holds_player(
            after_move(g, id, d).board[step(position_of(g.board, id), d)],
            id,
        ),
        !move_allowed(g, id, d) ==> after_move(g, id, d) == g,
{
    let b = g.board;
    let i = choose|i: int| 0 <= i < b.len() && holds_player(b[i], id);
    lemma_position_unique(b, id, i);
    if move_allowed(g, id, d) {
        let dst = step(i, d);
        assert(0 <= dst < CELLS && dst != i);
        let vacated = b.update(i, None);
        if b[dst] is Some {
            lemma_first_empty_exists(vacated, i);
            assert(first_empty(vacated) != dst);
        }
        assert(relocated(b, i, dst)[dst] matches Some(p) && p.id == id);
    }
}

/// No move is allowed, and none changes anything, in a game that is not in
/// progress.
pub proof fn lemma_no_moves_unless_in_progress(g: GameView, id: PlayerId, d: MoveDirection)
    requires
        g.state != GameState::InProgress,
    ensures
        !move_allowed(g, id, d),
        after_move(g, id, d) == g,
{
}

/// Asking to join a second time with the same id changes nothing, whatever
/// color the second request carries.
pub proof fn lemma_join_idempotent(g: GameView, p: Player, q: Player)
    requires
        p.id == q.id,
    ensures
        after_join(after_join(g, p), q) == after_join(g, p),
{
    if !is_present(g.board, p.id) && has_empty(g.board) {
        let k = first_empty(g.board);
        let j = choose|j: int| 0 <= j < g.board.len() && g.board[j] is None;
        lemma_first_empty_exists(g.board, j);
        assert(holds_player(after_join(g, p).board[k], q.id));
    }
}

/// Players with distinct ids who join an empty game take the first cells in
/// scan order, in the order in which they join, one cell each.
pub proof fn lemma_fill_order(min_players: nat, ps: Seq<Player>)
    requires
        distinct_ids(ps),
        ps.len() <= CELLS,
    ensures
        after_joins(fresh_game(min_players), ps).board == filled_with(ps),
        occupancy(after_joins(fresh_game(min_players), ps).board) == ps.len(),
        after_joins(fresh_game(min_players), ps).min_players == min_players,
    decreases ps.len(),
{
    let g0 = fresh_game(min_players);
    if ps.len() == 0 {
        assert(empty_board() =~= filled_with(ps));
        lemma_occupancy_empty(CELLS as nat);
    } else {
        let init = ps.drop_last();
        let n = init.len() as int;
        let p = ps.last();
        assert(distinct_ids(init));
        lemma_fill_order(min_players, init);
        let g = after_joins(g0, init);
        let b = g.board;
        assert(!is_present(b, p.id)) by {
            if is_present(b, p.id) {
                let j = choose|j: int| 0 <= j < b.len() && holds_player(b[j], p.id);
                assert(ps[j].id == p.id);
                assert(ps[n].id == p.id);
            }
        }
        assert(first_empty_at(b, n));
        lemma_first_empty_unique(b, n);
        lemma_occupancy_update(b, n, Some(p));
        assert(b.update(n, Some(p)) =~= filled_with(ps));
    }
}

/// With a threshold of at least one player, a game that distinct players join
/// has not begun while fewer than the threshold are on the board, and is in
/// progress from the join that brings their number to the threshold on.
pub proof fn lemma_begins_at_threshold(min_players: nat, ps: Seq<Player>)
    requires
        min_players >= 1,
        distinct_ids(ps),
        ps.len() <= CELLS,
    ensures
        after_joins(fresh_game(min_players), ps).state == if ps.len() < min_players {
            GameState::NotStarted
        } else {
            GameState::InProgress
        },
    decreases ps.len(),
{
    if ps.len() > 0 {
        let init = ps.drop_last();
        assert(distinct_ids(init));
        lemma_begins_at_threshold(min_players, init);
        lemma_fill_order(min_players, init);
        lemma_fill_order(min_players, ps);
        let b = after_joins(fresh_game(min_players), init).board;
        let n = init.len() as int;
        assert(!is_present(b, ps.last().id)) by {
            if is_present(b, ps.last().id) {
                let j = choose|j: int| 0 <= j < b.len() && holds_player(b[j], ps.last().id);
                assert(ps[j].id == ps[n].id);
            }
        }
        assert(b[n] is None);
    }
}

/// Once a game has begun it never returns to not having begun: joining,
/// leaving and moving all keep its phase.
pub proof fn lemma_phase_never_reverts(g: GameView, p: Player, id: PlayerId, d: MoveDirection)
    requires
        g.state != GameState::NotStarted,
    ensures
        after_join(g, p).state == g.state,
        after_leave(g, id).state == g.state,
        after_move(g, id, d).state == g.state,
{
}

} // verus!
