//! One game's transient state: players, ply count, time control and the two windows of
//! clock readings, and the reconstruction of how long the game lasted.
use arrayvec::ArrayVec;
use vstd::prelude::*;
use vstd::string::StringSliceAdditionalSpecFns;
use vstd::utf8::encode_utf8;

use crate::clock::{comment_to_duration, clock_seconds, parse_u64, parse_u64_spec, Tc};

verus! {

/// Declares `arrayvec::ArrayVec`, the fixed-capacity vector of the clock windows, as an
/// opaque type.
#[verifier::external_type_specification]
#[verifier::external_body]
#[verifier::reject_recursive_types(T)]
pub struct ExArrayVec<T, const CAP: usize>(ArrayVec<T, CAP>);

/// The clock readings, in seconds, that a window holds, oldest first.
pub uninterp spec fn window_of(v: ArrayVec<u64, 2>) -> Seq<u64>;

/// Relies on `ArrayVec::new`: the vector starts empty.
#[verifier::external_body]
fn window_new() -> (r: ArrayVec<u64, 2>)
    ensures
        window_of(r) == Seq::<u64>::empty(),
{
    ArrayVec::new()
}

/// Relies on `ArrayVec::len`: the number of elements held.
#[verifier::external_body]
fn window_len(v: &ArrayVec<u64, 2>) -> (r: usize)
    ensures
        r == window_of(*v).len(),
{
    v.len()
}

/// Relies on `ArrayVec::push`: appends at the end; it panics only when the vector is full.
#[verifier::external_body]
fn window_push(v: &mut ArrayVec<u64, 2>, x: u64)
    requires
        window_of(*old(v)).len() < 2,
    ensures
        window_of(*final(v)) == window_of(*old(v)).push(x),
{
    v.push(x)
}

/// Relies on `ArrayVec::remove`: takes out the element at the index and shifts the later
/// ones down; it panics only when the index is out of bounds.
#[verifier::external_body]
fn window_remove_first(v: &mut ArrayVec<u64, 2>) -> (r: u64)
    requires
        window_of(*old(v)).len() > 0,
    ensures
        r == window_of(*old(v))[0],
        window_of(*final(v)) == window_of(*old(v)).drop_first(),
{
    v.remove(0)
}

/// Relies on `ArrayVec::as_slice`: the elements held, in order.
#[verifier::external_body]
fn window_slice(v: &ArrayVec<u64, 2>) -> (r: &[u64])
    ensures
        r@ == window_of(*v),
{
    v.as_slice()
}

/// The first two readings of a sequence (all of them where there are fewer).
pub open spec fn first_two(s: Seq<u64>) -> Seq<u64> {
    if s.len() <= 2 {
        s
    } else {
        s.subrange(0, 2)
    }
}

/// The last two readings of a sequence (all of them where there are fewer).
pub open spec fn last_two(s: Seq<u64>) -> Seq<u64> {
    if s.len() <= 2 {
        s
    } else {
        s.subrange(s.len() - 2, s.len() as int)
    }
}

/// Sum of the readings.
pub open spec fn total(s: Seq<u64>) -> nat
    decreases s.len(),
{
    if s.len() == 0 {
        0
    } else {
        (total(s.drop_last()) + s.last()) as nat
    }
}

/// The time available over the game: the first readings plus one increment per ply.
pub open spec fn credit(first: Seq<u64>, plies: u64, increment: u64) -> nat {
    (total(first) + plies * increment) as nat
}

/// Time spent in the game: the credit minus the last readings, absent where the last
/// readings exceed the credit.
pub open spec fn duration_of(first: Seq<u64>, last: Seq<u64>, plies: u64, increment: u64) -> Option<nat> {
    if total(last) > credit(first, plies, increment) {
        None
    } else {
        Some((credit(first, plies, increment) - total(last)) as nat)
    }
}

/// A rating, summed over games.
#[derive(Clone, Copy, Debug, PartialEq, Eq, Structural)]
pub struct Rating(pub u64);

impl Rating {
    pub fn add_assign(&mut self, rhs: Rating)
        requires
            old(self).0 + rhs.0 <= u64::MAX,
        ensures
            final(self).0 == old(self).0 + rhs.0,
    {
        self.0 = self.0 + rhs.0;
    }
}

pub struct Player {
    pub username: String,
    pub rating: Rating,
}

impl Player {
    pub fn new() -> (r: Player)
        ensures
            r.username@ == Seq::<char>::empty(),
            r.rating.0 == 0,
    {
        Player { username: String::new(), rating: Rating(0) }
    }

    pub fn to_tuple(self) -> (r: (String, Rating))
        ensures
            r.0@ == self.username@,
            r.1 == self.rating,
    {
        (self.username, self.rating)
    }
}

/// The bytes of the header key `White`.
pub open spec fn white_key() -> Seq<u8> {
    seq![87u8, 104u8, 105u8, 116u8, 101u8]
}

/// The bytes of the header key `WhiteElo`.
pub open spec fn white_elo_key() -> Seq<u8> {
    seq![87u8, 104u8, 105u8, 116u8, 101u8, 69u8, 108u8, 111u8]
}

/// Whether `key` equals `lit`, byte for byte.
pub fn bytes_equal(key: &[u8], lit: &[u8]) -> (r: bool)
    ensures
        r == (key@ == lit@),
{
    if key.len() != lit.len() {
        return false;
    }
    let mut i: usize = 0;
    while i < key.len()
        invariant
            key@.len() == lit@.len(),
            i <= key@.len(),
            forall|j: int| 0 <= j < i ==> key@[j] == lit@[j],
        decreases key@.len() - i,
    {
        if key[i] != lit[i] {
            return false;
        }
        i = i + 1;
    }
    assert(key@ == lit@);
    true
}

pub struct Players {
    pub white: Player,
    pub black: Player,
}

impl Players {
    pub fn new() -> (r: Players)
        ensures
            r.white.username@ == Seq::<char>::empty(),
            r.black.username@ == Seq::<char>::empty(),
            r.white.rating.0 == 0,
            r.black.rating.0 == 0,
    {
        Players { white: Player::new(), black: Player::new() }
    }

    /// Records a player's name: white's under the key `White`, black's under any other.
    pub fn add_name(&mut self, key: &[u8], value: String)
        ensures
            key@ == white_key() ==> final(self).white.username@ == value@ && final(self).black
                == old(self).black,
            key@ != white_key() ==> final(self).black.username@ == value@ && final(self).white
                == old(self).white,
            final(self).white.rating == old(self).white.rating,
            final(self).black.rating == old(self).black.rating,
    {
        if bytes_equal(key, &[87u8, 104u8, 105u8, 116u8, 101u8]) {
            self.white.username = value;
        } else {
            self.black.username = value;
        }
    }

    pub fn into_iter(self) -> (r: [(String, Rating); 2])
        ensures
            r[0].0@ == self.white.username@,
            r[0].1 == self.white.rating,
            r[1].0@ == self.black.username@,
            r[1].1 == self.black.rating,
    {
        [self.white.to_tuple(), self.black.to_tuple()]
    }

    /// Records a rating: white's under the key `WhiteElo`, black's under any other. A value
    /// that is not a number leaves the ratings as they were.
    pub fn add_rating(&mut self, key: &[u8], value: String)
        ensures
            final(self).white.username == old(self).white.username,
            final(self).black.username == old(self).black.username,
            ({
                match parse_u64_spec(encode_utf8(value@)) {
                    None => *final(self) == *old(self),
                    Some(n) => if key@ == white_elo_key() {
                        final(self).white.rating == Rating(n) && final(self).black == old(self).black
                    } else {
                        final(self).black.rating == Rating(n) && final(self).white == old(self).white
                    },
                }
            }),
    {
        let text = value.as_str();
        let bytes = text.as_bytes();
        assert(bytes@ == encode_utf8(value@));
        if let Some(n) = parse_u64(bytes, 0, bytes.len()) {
            assert(bytes@.subrange(0, bytes@.len() as int) == bytes@);
            let lit: &[u8] = &[87u8, 104u8, 105u8, 116u8, 101u8, 69u8, 108u8, 111u8];
            assert(lit@ == white_elo_key());
            if bytes_equal(key, lit) {
                self.white.rating = Rating(n);
            } else {
                self.black.rating = Rating(n);
            }
        }
    }
}


/// One game as it is read. `first_two_clocks` keeps the first two readings and never changes
/// after that; `last_two_clocks` is a window that keeps the two latest readings.
pub struct Game {
    pub players: Players,
    pub plies: u64,
    /// The game's link, for diagnostics.
    pub link: String,
    pub first_two_clocks: ArrayVec<u64, 2>,
    pub last_two_clocks: ArrayVec<u64, 2>,
    pub tc: Tc,
    /// Set once a comment without a readable clock, a header that could not be decoded, or a
    /// time control other than `-` that does not parse was met: such a game is left out.
    pub unreadable: bool,
}

impl Game {
    pub open spec fn first(&self) -> Seq<u64> {
        window_of(self.first_two_clocks)
    }

    pub open spec fn last(&self) -> Seq<u64> {
        window_of(self.last_two_clocks)
    }

    pub open spec fn wf(&self) -> bool {
        self.first().len() <= 2 && self.last().len() <= 2
    }

    pub fn new() -> (r: Game)
        ensures
            r.wf(),
            r.first() == Seq::<u64>::empty(),
            r.last() == Seq::<u64>::empty(),
            r.plies == 0,
            r.tc == Tc::none_spec(),
            !r.unreadable,
            r.players.white.username@ == Seq::<char>::empty(),
            r.players.black.username@ == Seq::<char>::empty(),
            r.players.white.rating.0 == 0,
            r.players.black.rating.0 == 0,
    {
        Game {
            players: Players::new(),
            plies: 0,
            link: String::new(),
            first_two_clocks: window_new(),
            last_two_clocks: window_new(),
            tc: Tc::none(),
            unreadable: false,
        }
    }

    /// Takes in a move comment. Its clock reading joins the first readings while there are
    /// fewer than two, and always joins the window of the latest two, pushing the oldest out
    /// when the window is full. A comment without a readable clock marks the game unreadable.
    pub fn acc_comment(&mut self, comment: &str)
        requires
            old(self).wf(),
        ensures
            final(self).wf(),
            final(self).players == old(self).players,
            final(self).plies == old(self).plies,
            final(self).tc == old(self).tc,
            final(self).link == old(self).link,
            match clock_seconds(comment.spec_bytes()) {
                None => final(self).unreadable && final(self).first() == old(self).first()
                    && final(self).last() == old(self).last(),
                Some(c) => final(self).unreadable == old(self).unreadable && final(self).first()
                    == first_two(old(self).first().push(c)) && final(self).last() == last_two(
                    old(self).last().push(c),
                ),
            },
    {
        match comment_to_duration(comment) {
            None => {
                self.unreadable = true;
            },
            Some(c) => {
                if window_len(&self.first_two_clocks) < 2 {
                    window_push(&mut self.first_two_clocks, c);
                }
                if window_len(&self.last_two_clocks) == 2 {
                    window_remove_first(&mut self.last_two_clocks);
                }
                window_push(&mut self.last_two_clocks, c);
                assert(self.first() == first_two(old(self).first().push(c)));
                assert(self.last() == last_two(old(self).last().push(c)));
            },
        }
    }

    /// Whether the time available over the game (see `credit`) fits in a `u64`.
    pub fn credit_fits(&self) -> (r: bool)
        requires
            self.wf(),
        ensures
            r == (credit(self.first(), self.plies, self.tc.increment) <= u64::MAX),
    {
        let first = sum_window(window_slice(&self.first_two_clocks));
        proof {
            assert(self.plies * self.tc.increment <= u64::MAX * u64::MAX) by (nonlinear_arith);
        }
        first + self.plies as u128 * self.tc.increment as u128 <= u64::MAX as u128
    }

    /// The game's players, and the time spent in it (see `duration_of`).
    pub fn game_duration(self) -> (r: (Players, Option<u64>))
        requires
            self.wf(),
            credit(self.first(), self.plies, self.tc.increment) <= u64::MAX,
        ensures
            r.0 == self.players,
            r.1 == match duration_of(self.first(), self.last(), self.plies, self.tc.increment) {
                Some(d) => Some(d as u64),
                None => None,
            },
    {
        let first = sum_window(window_slice(&self.first_two_clocks));
        let last = sum_window(window_slice(&self.last_two_clocks));
        let available: u128 = first + self.plies as u128 * self.tc.increment as u128;
        let d = if last > available {
            None
        } else {
            Some((available - last) as u64)
        };
        (self.players, d)
    }
}

/// Sum of at most two readings.
fn sum_window(s: &[u64]) -> (r: u128)
    requires
        s@.len() <= 2,
    ensures
        r == total(s@),
        r <= 2 * u64::MAX,
{
    let mut acc: u128 = 0;
    let mut i: usize = 0;
    while i < s.len()
        invariant
            s@.len() <= 2,
            i <= s@.len(),
            acc == total(s@.subrange(0, i as int)),
            acc <= i * u64::MAX,
        decreases s@.len() - i,
    {
        assert(s@.subrange(0, i + 1).drop_last() == s@.subrange(0, i as int));
        acc = acc + s[i] as u128;
        i = i + 1;
    }
    assert(s@.subrange(0, i as int) == s@);
    acc
}

/// Feeding readings one at a time keeps, in the first window, the first two readings of all
/// those seen, and in the sliding window, the last two: taking in reading `c` after the
/// readings `s` gives the windows of `s` followed by `c`. Once the first window holds two
/// readings it no longer changes.
pub proof fn law_windows_follow_readings(s: Seq<u64>, c: u64)
    ensures
        first_two(first_two(s).push(c)) == first_two(s.push(c)),
        last_two(last_two(s).push(c)) == last_two(s.push(c)),
        s.len() >= 2 ==> first_two(s.push(c)) == first_two(s),
{
    assert(first_two(first_two(s).push(c)) =~= first_two(s.push(c)));
    assert(last_two(last_two(s).push(c)) =~= last_two(s.push(c)));
    if s.len() >= 2 {
        assert(first_two(s.push(c)) =~= first_two(s));
    }
}

} // verus!
