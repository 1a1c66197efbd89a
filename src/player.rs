use rand::Rng;
use vstd::prelude::*;

verus! {

/// The identity of a player: the 128 bits of its UUID.
#[derive(Clone, Copy, Debug, PartialEq, Eq, Hash, Structural)]
pub struct PlayerId(pub u128);

/// A player on the board: a display color, an identity and a score.
#[derive(Clone, Debug, PartialEq, Eq)]
pub struct Player {
    pub color: String,
    pub id: PlayerId,
    pub score: usize,
}

/// The largest color code plus one: colors are drawn from `0 .. COLOR_LIMIT`.
pub const COLOR_LIMIT: u32 = 0xFFFFFF;

/// The character of a decimal digit.
pub open spec fn digit_char(d: nat) -> char {
    seq!['0', '1', '2', '3', '4', '5', '6', '7', '8', '9'][d as int]
}

/// The decimal representation of `n`, most significant digit first.
pub open spec fn decimal_digits(n: nat) -> Seq<char>
    decreases n,
{
    if n < 10 {
        seq![digit_char(n)]
    } else {
        decimal_digits(n / 10).push(digit_char(n % 10))
    }
}

/// A color written as the decimal text of a code below `COLOR_LIMIT`.
pub open spec fn is_color_text(s: Seq<char>) -> bool {
    exists|c: nat| c < COLOR_LIMIT && s == decimal_digits(c)
}

/// Relies on rand's `thread_rng` and `Rng::gen_range`: a value drawn from the
/// half-open range `0 .. COLOR_LIMIT`, which is not empty. (`thread_rng` panics
/// only where the operating system's random source cannot seed it.)
#[verifier::external_body]
fn random_color_code() -> (r: u32)
    ensures
        r < COLOR_LIMIT,
{
    rand::thread_rng().gen_range(0..COLOR_LIMIT)
}

/// Relies on `ToString` for `u32` (its `Display`): the decimal digits of the
/// number, without sign or padding.
#[verifier::external_body]
fn decimal_text(n: u32) -> (r: String)
    ensures
        r@ == decimal_digits(n as nat),
{
    n.to_string()
}

/// A display color drawn at random.
pub fn random_color() -> (c: String)
    ensures
        is_color_text(c@),
{
    let code = random_color_code();
    decimal_text(code)
}

impl Player {
    /// A fresh player with a random color and a score of zero.
    pub fn new(id: PlayerId) -> (p: Player)
        ensures
            p.id == id,
            p.score == 0,
            is_color_text(p.color@),
    {
        Player::with_color(id, random_color())
    }

    /// A fresh player with the given color and a score of zero.
    pub fn with_color(id: PlayerId, color: String) -> (p: Player)
        ensures
            p == (Player { color, id, score: 0 }),
    {
        Player { color, id, score: 0 }
    }

    /// A copy of this player.
    pub fn copied(&self) -> (p: Player)
        ensures
            p == *self,
    {
        Player { color: self.color.clone(), id: self.id, score: self.score }
    }

    /// The player's identity.
    pub fn id(&self) -> (r: PlayerId)
        ensures
            r == self.id,
    {
        self.id
    }

    /// The number of collisions the player has won.
    pub fn score(&self) -> (r: usize)
        ensures
            r == self.score,
    {
        self.score
    }

    /// The player's display color.
    pub fn color(&self) -> (r: &str)
        ensures
            r@ == self.color@,
    {
        self.color.as_str()
    }
}

} // verus!
