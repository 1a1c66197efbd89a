use crate::engine::{after_join, after_move, fresh_game, Game, GameView, MoveDirection};
use crate::player::{is_color_text, Player, PlayerId};
use crate::session::SessionRegistry;
use vstd::prelude::*;

verus! {

/// The 128-bit value of the UUID that a text spells, if it spells one.
pub uninterp spec fn uuid_value(s: Seq<char>) -> Option<u128>;

/// Relies on uuid's `Uuid::parse_str`, which reads a UUID in any of its text
/// forms (simple, hyphenated, urn, braced), and `Uuid::as_u128`, which gives its
/// 128 bits.
#[verifier::external_body]
fn parse_uuid(s: &str) -> (r: Option<u128>)
    ensures
        r == uuid_value(s@),
{
    match uuid::Uuid::parse_str(s) {
        Ok(u) => Some(u.as_u128()),
        Err(_) => None,
    }
}

/// The identity that a connection presents, if its text is a UUID.
pub fn parse_identity(s: &str) -> (r: Option<PlayerId>)
    ensures
        r == (match uuid_value(s@) {
            Some(v) => Some(PlayerId(v)),
            None => None,
        }),
{
    match parse_uuid(s) {
        Some(v) => Some(PlayerId(v)),
        None => None,
    }
}

/// What a server is, seen from outside: its game and its sessions.
pub struct ServerView<C> {
    pub game: GameView,
    pub sessions: Map<PlayerId, C>,
}

/// A snapshot of the game to push, and the sessions to push it to.
pub struct Outbound {
    pub snapshot: Game,
    pub recipients: Vec<PlayerId>,
}

impl Outbound {
    /// This pushes `g` to exactly the sessions `sessions`, each once.
    pub open spec fn delivers<C>(&self, g: GameView, sessions: Map<PlayerId, C>) -> bool {
        &&& self.snapshot.wf()
        &&& self.snapshot@ == g
        &&& self.recipients@.no_duplicates()
        &&& self.recipients@.to_set() == sessions.dom()
    }
}

/// With sessions `s1` and `s2` registered, the answer to a move carries one
/// snapshot, the game after the move, to both of them, whether or not the
/// move was allowed.
pub proof fn lemma_move_reaches_every_session<C>(
    g: GameView,
    sessions: Map<PlayerId, C>,
    s1: PlayerId,
    c1: C,
    s2: PlayerId,
    c2: C,
    id: PlayerId,
    d: MoveDirection,
    out: Outbound,
)
    requires
        out.delivers(after_move(g, id, d), sessions.insert(s1, c1).insert(s2, c2)),
    ensures
        out.recipients@.contains(s1),
        out.recipients@.contains(s2),
        out.snapshot@ == after_move(g, id, d),
{
    let r = out.recipients@;
    assert(r.to_set().contains(s1));
    assert(r.to_set().contains(s2));
}

/// One game shared by every connection, and the sessions that watch it. Each
/// change of the game is answered by a snapshot for every session.
pub struct GameServer<C> {
    game: Game,
    sessions: SessionRegistry<C>,
}

impl<C> View for GameServer<C> {
    type V = ServerView<C>;

    closed spec fn view(&self) -> ServerView<C> {
        ServerView { game: self.game@, sessions: self.sessions@ }
    }
}

impl<C> GameServer<C> {
    /// The game and the registry are each well formed.
    pub closed spec fn wf(&self) -> bool {
        self.game.wf() && self.sessions.wf()
    }

    /// A server with an empty game that begins at `min_players` players, and
    /// no sessions.
    pub fn new(min_players: usize) -> (s: GameServer<C>)
        ensures
            s.wf(),
            s@.game == fresh_game(min_players as nat),
            s@.sessions == Map::<PlayerId, C>::empty(),
    {
        GameServer { game: Game::with_min_players(min_players), sessions: SessionRegistry::new() }
    }

    /// The game.
    pub fn game(&self) -> (r: &Game)
        requires
            self.wf(),
        ensures
            r.wf(),
            r@ == self@.game,
    {
        &self.game
    }

    /// The sessions.
    pub fn sessions(&self) -> (r: &SessionRegistry<C>)
        requires
            self.wf(),
        ensures
            r.wf(),
            r@ == self@.sessions,
    {
        &self.sessions
    }

    /// The current game, for every session.
    fn broadcast(&self) -> (out: Outbound)
        requires
            self.wf(),
        ensures
            out.delivers(self@.game, self@.sessions),
    {
        Outbound { snapshot: self.game.snapshot(), recipients: self.sessions.ids() }
    }

    /// A connection that presents `identity` opens: where the text is a UUID,
    /// its player joins the game, its conduit is registered, and every session
    /// gets the new game; the player's id comes back with that snapshot. Other
    /// connections are turned away.
    pub fn connect(&mut self, identity: &str, conduit: C) -> (out: Option<(PlayerId, Outbound)>)
        requires
            old(self).wf(),
        ensures
            final(self).wf(),
            uuid_value(identity@) is None ==> out is None && final(self)@ == old(self)@,
            uuid_value(identity@) matches Some(v) ==> {
                &&& out matches Some((id, o)) && id == PlayerId(v) && o.delivers(
                    final(self)@.game,
                    final(self)@.sessions,
                )
                &&& final(self)@.sessions == old(self)@.sessions.insert(PlayerId(v), conduit)
                &&& exists|c: String|
                    is_color_text(c@) && final(self)@.game == after_join(
                        old(self)@.game,
                        Player { color: c, id: PlayerId(v), score: 0 },
                    )
            },
    {
        match parse_identity(identity) {
            Some(id) => Some((id, self.join(id, conduit))),
            None => None,
        }
    }

    /// Player `id` joins the game with a random color, `conduit` becomes its
    /// session, and every session gets the new game.
    pub fn join(&mut self, id: PlayerId, conduit: C) -> (out: Outbound)
        requires
            old(self).wf(),
        ensures
            final(self).wf(),
            final(self)@.sessions == old(self)@.sessions.insert(id, conduit),
            exists|c: String|
                is_color_text(c@) && final(self)@.game == after_join(
                    old(self)@.game,
                    Player { color: c, id, score: 0 },
                ),
            out.delivers(final(self)@.game, final(self)@.sessions),
    {
        self.game.add_player(id);
        self.sessions.register(id, conduit);
        self.broadcast()
    }

    /// Player `id` asks to move in `direction`. Whether or not it moves, every
    /// session gets the game as it then stands.
    pub fn handle_move(&mut self, id: PlayerId, direction: MoveDirection) -> (out: Outbound)
        requires
            old(self).wf(),
        ensures
            final(self).wf(),
            final(self)@ == (ServerView {
                game: after_move(old(self)@.game, id, direction),
                sessions: old(self)@.sessions,
            }),
            out.delivers(final(self)@.game, final(self)@.sessions),
    {
        self.game.player_move(id, direction);
        self.broadcast()
    }

    /// The connection of `id` ends: its session is dropped. Reports whether it
    /// had one.
    pub fn disconnect(&mut self, id: PlayerId) -> (r: bool)
        requires
            old(self).wf(),
        ensures
            final(self).wf(),
            r == old(self)@.sessions.contains_key(id),
            final(self)@ == (ServerView {
                game: old(self)@.game,
                sessions: old(self)@.sessions.remove(id),
            }),
    {
        self.sessions.unregister(id)
    }
}

} // verus!
