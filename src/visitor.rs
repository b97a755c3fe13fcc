//! The driving state machine: it takes the events of a stream of games one by one, keeps the
//! state of the game being read, and folds each finished game that qualifies into the
//! per-player table.
use rustc_hash::{FxHashMap, FxHasher};
use std::hash::BuildHasherDefault;
use vstd::prelude::*;
use vstd::string::StringSliceAdditionalSpecFns;

use crate::clock::{average_time_spec, clock_seconds, parse_u64_spec, tc_to_tuple, time_control_of, Tc};
use crate::game::{
    bytes_equal, credit, duration_of, first_two, last_two, total, white_elo_key, white_key, Game,
    Rating,
};
use crate::stats::{add_to, added, bucket_of, can_add, classify, Bucket, TimeSpent, TimeSpents};

verus! {

/// Declares `rustc_hash::FxHasher`, the hasher of `FxHashMap`, as an opaque type.
#[verifier::external_type_specification]
#[verifier::external_body]
pub struct ExFxHasher(FxHasher);

/// Declares `std::hash::BuildHasherDefault`, which builds the hashers of `FxHashMap`, as an
/// opaque type.
#[verifier::external_type_specification]
#[verifier::external_body]
#[verifier::reject_recursive_types(H)]
pub struct ExBuildHasherDefault<H>(BuildHasherDefault<H>);

/// Which row of the table holds each player, by name.
pub uninterp spec fn index_of(m: FxHashMap<String, usize>) -> Map<Seq<char>, usize>;

/// Relies on `FxHashMap::default`: the map starts empty.
#[verifier::external_body]
fn index_new() -> (r: FxHashMap<String, usize>)
    ensures
        index_of(r).dom() == Set::<Seq<char>>::empty(),
{
    FxHashMap::default()
}

/// Relies on `HashMap::get`: the value stored under a key equal to `k`, if any.
#[verifier::external_body]
fn index_get(m: &FxHashMap<String, usize>, k: &String) -> (r: Option<usize>)
    ensures
        r == if index_of(*m).contains_key(k@) { Some(index_of(*m)[k@]) } else { None },
{
    m.get(k).copied()
}

/// Relies on `HashMap::insert`: afterwards `k` maps to `v`, and every other key keeps its value.
#[verifier::external_body]
fn index_insert(m: &mut FxHashMap<String, usize>, k: String, v: usize)
    ensures
        index_of(*final(m)) == index_of(*old(m)).insert(k@, v),
{
    m.insert(k, v);
}

/// A recorded game, as the table counts it.
pub struct RecordedGame {
    pub white: Seq<char>,
    pub black: Seq<char>,
    pub bucket: Bucket,
    pub exact: u64,
    pub approx: u64,
    pub white_rating: u64,
    pub black_rating: u64,
}

/// How many times player `p` took a side in the recorded games `h` of bucket `b`.
pub open spec fn participations(h: Seq<RecordedGame>, p: Seq<char>, b: Bucket) -> nat
    decreases h.len(),
{
    if h.len() == 0 {
        0
    } else {
        let g = h.last();
        participations(h.drop_last(), p, b) + (if g.white == p && g.bucket == b { 1nat } else { 0nat })
            + (if g.black == p && g.bucket == b { 1nat } else { 0nat })
    }
}

/// Sum of the exact durations of the recorded games of bucket `b`, once per side `p` took.
pub open spec fn exact_sum(h: Seq<RecordedGame>, p: Seq<char>, b: Bucket) -> nat
    decreases h.len(),
{
    if h.len() == 0 {
        0
    } else {
        let g = h.last();
        exact_sum(h.drop_last(), p, b) + (if g.white == p && g.bucket == b { g.exact as nat } else { 0nat })
            + (if g.black == p && g.bucket == b { g.exact as nat } else { 0nat })
    }
}

/// Sum of the approximate durations of the recorded games of bucket `b`, once per side `p` took.
pub open spec fn approx_sum(h: Seq<RecordedGame>, p: Seq<char>, b: Bucket) -> nat
    decreases h.len(),
{
    if h.len() == 0 {
        0
    } else {
        let g = h.last();
        approx_sum(h.drop_last(), p, b) + (if g.white == p && g.bucket == b { g.approx as nat } else { 0nat })
            + (if g.black == p && g.bucket == b { g.approx as nat } else { 0nat })
    }
}

/// Sum of the ratings `p` had in the recorded games of bucket `b`.
pub open spec fn rating_sum(h: Seq<RecordedGame>, p: Seq<char>, b: Bucket) -> nat
    decreases h.len(),
{
    if h.len() == 0 {
        0
    } else {
        let g = h.last();
        rating_sum(h.drop_last(), p, b) + (if g.white == p && g.bucket == b { g.white_rating as nat } else { 0nat })
            + (if g.black == p && g.bucket == b { g.black_rating as nat } else { 0nat })
    }
}

/// A player's totals, all zero for a player not in the table.
pub open spec fn entry_or_zero(t: Map<Seq<char>, TimeSpents>, p: Seq<char>) -> TimeSpents {
    if t.contains_key(p) {
        t[p]
    } else {
        TimeSpents::zero_spec()
    }
}

/// The table after counting one game of average time `avg` for player `p`.
pub open spec fn record_spec(
    t: Map<Seq<char>, TimeSpents>,
    p: Seq<char>,
    exact: u64,
    avg: u64,
    rating: Rating,
) -> Map<Seq<char>, TimeSpents> {
    t.insert(p, add_to(entry_or_zero(t, p), bucket_of(avg as nat), exact, avg, rating))
}

/// Every player's totals in every bucket are those of the recorded games of that bucket in
/// which the player took a side.
pub open spec fn counts_match(t: Map<Seq<char>, TimeSpents>, h: Seq<RecordedGame>) -> bool {
    forall|p: Seq<char>, b: Bucket| #![trigger entry_or_zero(t, p).get(b)] {
        let e = entry_or_zero(t, p).get(b);
        &&& e.nb_games == participations(h, p, b)
        &&& e.time_spent_exact == exact_sum(h, p, b)
        &&& e.time_spent_approximate == approx_sum(h, p, b)
        &&& e.total_rating.0 == rating_sum(h, p, b)
    }
}

/// Whether a bucket's totals can take two more games: those of one game for each side.
pub open spec fn fits_twice(t: TimeSpent, exact: u64, avg: u64, r1: Rating, r2: Rating) -> bool {
    &&& t.nb_games + 2 <= u64::MAX
    &&& t.total_rating.0 + r1.0 + r2.0 <= u64::MAX
    &&& t.time_spent_exact + 2 * exact <= u64::MAX
    &&& t.time_spent_approximate + 2 * avg <= u64::MAX
}

/// What became of a finished game.
#[derive(Clone, Copy, Debug, PartialEq, Eq, Structural)]
pub enum GameOutcome {
    /// Counted for both players.
    Recorded,
    /// The game had no usable time control.
    NoTimeControl,
    /// A comment without a readable clock, a header that could not be decoded, or a time
    /// control that does not parse.
    Unreadable,
    /// Fewer than four plies.
    TooShort,
    /// A total would not fit in a `u64`.
    TooLarge,
    /// The last clock readings exceed the time available: the clocks were changed during the
    /// game (for instance by giving the opponent time).
    Inconsistent,
}

/// The exact duration of a game whose reconstruction succeeds.
pub open spec fn game_exact(g: Game) -> u64 {
    duration_of(g.first(), g.last(), g.plies, g.tc.increment)->0 as u64
}

/// The bucket of a game.
pub open spec fn game_bucket(g: Game) -> Bucket {
    bucket_of(average_time_spec(g.tc))
}

/// Whether the table has room for the game's two entries.
pub open spec fn room_for(t: Map<Seq<char>, TimeSpents>, g: Game) -> bool {
    let b = game_bucket(g);
    let avg = average_time_spec(g.tc) as u64;
    let (wr, br) = (g.players.white.rating, g.players.black.rating);
    &&& fits_twice(entry_or_zero(t, g.players.white.username@).get(b), game_exact(g), avg, wr, br)
    &&& fits_twice(entry_or_zero(t, g.players.black.username@).get(b), game_exact(g), avg, wr, br)
}

/// What becomes of finished game `g` with the table `t`.
pub open spec fn outcome_of(g: Game, t: Map<Seq<char>, TimeSpents>) -> GameOutcome {
    if g.tc == Tc::none_spec() {
        GameOutcome::NoTimeControl
    } else if g.unreadable {
        GameOutcome::Unreadable
    } else if g.plies < 4 {
        GameOutcome::TooShort
    } else if average_time_spec(g.tc) > u64::MAX || credit(g.first(), g.plies, g.tc.increment)
        > u64::MAX {
        GameOutcome::TooLarge
    } else if duration_of(g.first(), g.last(), g.plies, g.tc.increment) is None {
        GameOutcome::Inconsistent
    } else if !room_for(t, g) {
        GameOutcome::TooLarge
    } else {
        GameOutcome::Recorded
    }
}

/// The record that game `g` leaves in the list of recorded games.
pub open spec fn recorded(g: Game) -> RecordedGame {
    RecordedGame {
        white: g.players.white.username@,
        black: g.players.black.username@,
        bucket: game_bucket(g),
        exact: game_exact(g),
        approx: average_time_spec(g.tc) as u64,
        white_rating: g.players.white.rating.0,
        black_rating: g.players.black.rating.0,
    }
}

/// The table after recording game `g` for both of its players, white first.
pub open spec fn table_after(t: Map<Seq<char>, TimeSpents>, g: Game) -> Map<Seq<char>, TimeSpents> {
    let avg = average_time_spec(g.tc) as u64;
    record_spec(
        record_spec(t, g.players.white.username@, game_exact(g), avg, g.players.white.rating),
        g.players.black.username@,
        game_exact(g),
        avg,
        g.players.black.rating,
    )
}

/// The state of a run over a stream of games: how many games were seen, the game being read,
/// and the per-player table. Row `i` of the table is `names[i]` with `totals[i]`.
pub struct PgnVisitor {
    pub games: u64,
    pub users: FxHashMap<String, usize>,
    pub names: Vec<String>,
    pub totals: Vec<TimeSpents>,
    pub game: Game,
    /// The games recorded so far.
    pub history: Ghost<Seq<RecordedGame>>,
}

impl PgnVisitor {
    /// The table: each player's totals, by name.
    pub open spec fn table(&self) -> Map<Seq<char>, TimeSpents> {
        Map::new(
            |k: Seq<char>| index_of(self.users).contains_key(k),
            |k: Seq<char>| self.totals@[index_of(self.users)[k] as int],
        )
    }

    pub open spec fn index_wf(&self) -> bool {
        &&& self.names@.len() == self.totals@.len()
        &&& forall|k: Seq<char>| #[trigger]
            index_of(self.users).contains_key(k) ==> index_of(self.users)[k] < self.names@.len()
                && self.names@[index_of(self.users)[k] as int]@ == k
        &&& forall|i: int|
            0 <= i < self.names@.len() ==> index_of(self.users).contains_key(
                #[trigger] self.names@[i]@,
            ) && index_of(self.users)[self.names@[i]@] == i
    }

    pub open spec fn wf(&self) -> bool {
        &&& self.index_wf()
        &&& self.game.wf()
        &&& counts_match(self.table(), self.history@)
    }

    pub fn new() -> (r: PgnVisitor)
        ensures
            r.wf(),
            r.games == 0,
            r.table() == Map::<Seq<char>, TimeSpents>::empty(),
            r.history@ == Seq::<RecordedGame>::empty(),
            fresh(r.game),
    {
        let r = PgnVisitor {
            games: 0,
            users: index_new(),
            names: Vec::new(),
            totals: Vec::new(),
            game: Game::new(),
            history: Ghost(Seq::empty()),
        };
        assert(r.table() =~= Map::<Seq<char>, TimeSpents>::empty());
        r
    }

    /// Counts one more game for player `name`, in the bucket of `avg`.
    fn record(&mut self, name: &String, exact: u64, avg: u64, rating: Rating)
        requires
            old(self).index_wf(),
            can_add(entry_or_zero(old(self).table(), name@).get(bucket_of(avg as nat)), exact, avg, rating),
        ensures
            final(self).index_wf(),
            final(self).table() == record_spec(old(self).table(), name@, exact, avg, rating),
            final(self).games == old(self).games,
            final(self).game == old(self).game,
            final(self).history == old(self).history,
    {
        match index_get(&self.users, name) {
            Some(i) => {
                let mut ts = self.totals[i];
                ts.add_game(exact, avg, rating);
                self.totals.set(i, ts);
                assert(self.table() =~= record_spec(old(self).table(), name@, exact, avg, rating));
            },
            None => {
                let mut ts = TimeSpents::new();
                ts.add_game(exact, avg, rating);
                let i = self.names.len();
                self.names.push(name.clone());
                self.totals.push(ts);
                index_insert(&mut self.users, name.clone(), i);
                assert(self.table() =~= record_spec(old(self).table(), name@, exact, avg, rating));
            },
        }
    }

    /// Starts a game: counts it as seen and clears the game state. Returns whether progress
    /// is due to be reported (once every ten thousand games).
    pub fn begin_game(&mut self) -> (tick: bool)
        requires
            old(self).wf(),
            old(self).games < u64::MAX,
        ensures
            final(self).wf(),
            final(self).games == old(self).games + 1,
            tick == (final(self).games % 10_000 == 9999),
            final(self).table() == old(self).table(),
            final(self).history == old(self).history,
            fresh(final(self).game),
    {
        self.games = self.games + 1;
        self.game = Game::new();
        self.games % 10_000 == 9999
    }

    /// Takes in one header of the game being read. A time control other than `-` that does
    /// not parse marks the game unreadable.
    pub fn header(&mut self, key: &[u8], value: &str)
        requires
            old(self).wf(),
        ensures
            final(self).wf(),
            final(self).games == old(self).games,
            final(self).table() == old(self).table(),
            final(self).history == old(self).history,
            final(self).game.plies == old(self).game.plies,
            final(self).game.unreadable == (old(self).game.unreadable || (header_key_of(key@)
                == HeaderKey::TimeControl && value.spec_bytes() != no_time_control()
                && time_control_of(value.spec_bytes()) is None)),
            final(self).game.first() == old(self).game.first(),
            final(self).game.last() == old(self).game.last(),
            header_key_of(key@) == HeaderKey::White ==> final(self).game.players.white.username@
                == value@ && final(self).game.players.white.rating
                == old(self).game.players.white.rating && final(self).game.players.black
                == old(self).game.players.black,
            header_key_of(key@) == HeaderKey::Black ==> final(self).game.players.black.username@
                == value@ && final(self).game.players.black.rating
                == old(self).game.players.black.rating && final(self).game.players.white
                == old(self).game.players.white,
            header_key_of(key@) == HeaderKey::WhiteElo ==> final(self).game.players.white.rating
                == match parse_u64_spec(value.spec_bytes()) {
                Some(n) => Rating(n),
                None => old(self).game.players.white.rating,
            } && final(self).game.players.black == old(self).game.players.black,
            header_key_of(key@) == HeaderKey::BlackElo ==> final(self).game.players.black.rating
                == match parse_u64_spec(value.spec_bytes()) {
                Some(n) => Rating(n),
                None => old(self).game.players.black.rating,
            } && final(self).game.players.white == old(self).game.players.white,
            header_key_of(key@) == HeaderKey::TimeControl ==> final(self).game.tc == match time_control_of(value.spec_bytes()) {
                Some(tc) => tc,
                None => old(self).game.tc,
            },
            header_key_of(key@) != HeaderKey::TimeControl ==> final(self).game.tc == old(self).game.tc,
            header_key_of(key@) == HeaderKey::Site ==> final(self).game.link@ == value@,
            header_key_of(key@) != HeaderKey::Site ==> final(self).game.link == old(self).game.link,
            header_key_of(key@) == HeaderKey::TimeControl || header_key_of(key@) == HeaderKey::Site
                || header_key_of(key@) == HeaderKey::Other ==> final(self).game.players == old(self).game.players,
    {
        let kind = classify_header(key);
        let ghost before = self.table();
        match kind {
            HeaderKey::White | HeaderKey::Black => {
                self.game.players.add_name(key, String::from_str(value));
            },
            HeaderKey::WhiteElo | HeaderKey::BlackElo => {
                self.game.players.add_rating(key, String::from_str(value));
            },
            HeaderKey::TimeControl => {
                let dash: &[u8] = &[45u8];
                assert(dash@ == no_time_control());
                match tc_to_tuple(value) {
                    Some(tc) => {
                        self.game.tc = tc;
                    },
                    None => {
                        if !bytes_equal(value.as_bytes(), dash) {
                            self.game.unreadable = true;
                        }
                    },
                }
            },
            HeaderKey::Site => {
                self.game.link = String::from_str(value);
            },
            HeaderKey::Other => {},
        }
        assert(self.table() =~= before);
    }

    /// Marks the game being read as unreadable: a header could not be decoded as text.
    pub fn header_undecodable(&mut self)
        requires
            old(self).wf(),
        ensures
            final(self).wf(),
            final(self).games == old(self).games,
            final(self).table() == old(self).table(),
            final(self).history == old(self).history,
            final(self).game == (Game { unreadable: true, ..old(self).game }),
    {
        self.game.unreadable = true;
        assert(self.table() =~= old(self).table());
    }

    /// Whether the body of the game should be skipped: it has no usable time control.
    pub fn end_headers(&self) -> (skip: bool)
        ensures
            skip == (self.game.tc == Tc::none_spec()),
    {
        self.game.tc.is_none()
    }

    /// Counts one move of the main line.
    pub fn san(&mut self)
        requires
            old(self).wf(),
            old(self).game.plies < u64::MAX,
        ensures
            final(self).wf(),
            final(self).games == old(self).games,
            final(self).table() == old(self).table(),
            final(self).history == old(self).history,
            final(self).game == (Game { plies: (old(self).game.plies + 1) as u64, ..old(self).game }),
    {
        self.game.plies = self.game.plies + 1;
        assert(self.table() =~= old(self).table());
    }

    /// Takes in a move comment (see `Game::acc_comment`).
    pub fn comment(&mut self, c: &str)
        requires
            old(self).wf(),
        ensures
            final(self).wf(),
            final(self).games == old(self).games,
            final(self).table() == old(self).table(),
            final(self).history == old(self).history,
            final(self).game.plies == old(self).game.plies,
            final(self).game.tc == old(self).game.tc,
            final(self).game.players == old(self).game.players,
            final(self).game.link == old(self).game.link,
            match clock_seconds(c.spec_bytes()) {
                None => final(self).game.unreadable && final(self).game.first() == old(self).game.first()
                    && final(self).game.last() == old(self).game.last(),
                Some(x) => final(self).game.unreadable == old(self).game.unreadable
                    && final(self).game.first() == first_two(old(self).game.first().push(x))
                    && final(self).game.last() == last_two(old(self).game.last().push(x)),
            },
    {
        self.game.acc_comment(c);
        assert(self.table() =~= old(self).table());
    }

    /// Variations are never read: always skip them.
    pub fn begin_variation(&mut self) -> (skip: bool)
        ensures
            skip,
            *final(self) == *old(self),
    {
        true
    }

    /// Ends a game: records it for both players where it qualifies (see `outcome_of`), and
    /// clears the game state.
    pub fn end_game(&mut self) -> (r: GameOutcome)
        requires
            old(self).wf(),
        ensures
            final(self).wf(),
            final(self).games == old(self).games,
            fresh(final(self).game),
            r == outcome_of(old(self).game, old(self).table()),
            r == GameOutcome::Recorded ==> final(self).table() == table_after(old(self).table(), old(self).game)
                && final(self).history@ == old(self).history@.push(recorded(old(self).game)),
            r != GameOutcome::Recorded ==> final(self).table() == old(self).table()
                && final(self).history == old(self).history,
    {
        let mut g = Game::new();
        std::mem::swap(&mut self.game, &mut g);
        let ghost t0 = self.table();
        assert(t0 =~= old(self).table());
        if g.tc.is_none() {
            return GameOutcome::NoTimeControl;
        }
        if g.unreadable {
            return GameOutcome::Unreadable;
        }
        if g.plies < 4 {
            return GameOutcome::TooShort;
        }
        if g.tc.base as u128 + 40 * (g.tc.increment as u128) > u64::MAX as u128 || !g.credit_fits() {
            return GameOutcome::TooLarge;
        }
        let avg = g.tc.average_time();
        let b = classify(avg);
        let (players, exact_opt) = g.game_duration();
        let exact = match exact_opt {
            None => {
                return GameOutcome::Inconsistent;
            },
            Some(e) => e,
        };
        let wr = players.white.rating;
        let br = players.black.rating;
        if !self.fits_twice_for(&players.white.username, b, exact, avg, wr, br)
            || !self.fits_twice_for(&players.black.username, b, exact, avg, wr, br) {
            return GameOutcome::TooLarge;
        }
        let ghost wname = players.white.username@;
        let ghost bname = players.black.username@;
        self.record(&players.white.username, exact, avg, wr);
        self.record(&players.black.username, exact, avg, br);
        proof {
            let h0 = self.history@;
            let rg = RecordedGame {
                white: wname,
                black: bname,
                bucket: b,
                exact: exact,
                approx: avg,
                white_rating: wr.0,
                black_rating: br.0,
            };
            let h1 = h0.push(rg);
            assert(h1.drop_last() == h0);
            lemma_counts_after(t0, h0, rg);
            self.history = Ghost(h1);
        }
        GameOutcome::Recorded
    }

    /// Whether the bucket `b` of player `name` can take the totals of two more games.
    fn fits_twice_for(&self, name: &String, b: Bucket, exact: u64, avg: u64, r1: Rating, r2: Rating) -> (r: bool)
        requires
            self.index_wf(),
        ensures
            r == fits_twice(entry_or_zero(self.table(), name@).get(b), exact, avg, r1, r2),
    {
        let t = match index_get(&self.users, name) {
            Some(i) => self.totals[i].get_bucket(b),
            None => TimeSpent::zero(),
        };
        t.nb_games as u128 + 2 <= u64::MAX as u128
            && t.total_rating.0 as u128 + r1.0 as u128 + r2.0 as u128 <= u64::MAX as u128
            && t.time_spent_exact as u128 + 2 * (exact as u128) <= u64::MAX as u128
            && t.time_spent_approximate as u128 + 2 * (avg as u128) <= u64::MAX as u128
    }

    /// Number of rows of the table.
    pub fn user_count(&self) -> (r: usize)
        ensures
            r == self.names@.len(),
    {
        self.names.len()
    }

    /// Row `i` of the table: a player's name and totals.
    pub fn row(&self, i: usize) -> (r: (&String, &TimeSpents))
        requires
            self.wf(),
            i < self.names@.len(),
        ensures
            self.table().contains_key(r.0@),
            *r.1 == self.table()[r.0@],
            r.0@ == self.names@[i as int]@,
    {
        (&self.names[i], &self.totals[i])
    }
}

proof fn lemma_entry_after_record(
    t: Map<Seq<char>, TimeSpents>,
    q: Seq<char>,
    exact: u64,
    avg: u64,
    r: Rating,
    p: Seq<char>,
    b: Bucket,
)
    ensures
        entry_or_zero(record_spec(t, q, exact, avg, r), p).get(b) == if p == q && b == bucket_of(
            avg as nat,
        ) {
            added(entry_or_zero(t, p).get(b), exact, avg, r)
        } else {
            entry_or_zero(t, p).get(b)
        },
{
}

/// Recording one game for white then for black keeps the totals in step with the list of
/// recorded games once the game joins it.
proof fn lemma_counts_after(t: Map<Seq<char>, TimeSpents>, h: Seq<RecordedGame>, g: RecordedGame)
    requires
        counts_match(t, h),
        g.bucket == bucket_of(g.approx as nat),
        fits_twice(entry_or_zero(t, g.white).get(g.bucket), g.exact, g.approx, Rating(g.white_rating), Rating(g.black_rating)),
        fits_twice(entry_or_zero(t, g.black).get(g.bucket), g.exact, g.approx, Rating(g.white_rating), Rating(g.black_rating)),
    ensures
        counts_match(
            record_spec(record_spec(t, g.white, g.exact, g.approx, Rating(g.white_rating)), g.black, g.exact, g.approx, Rating(g.black_rating)),
            h.push(g),
        ),
{
    let t1 = record_spec(t, g.white, g.exact, g.approx, Rating(g.white_rating));
    let t2 = record_spec(t1, g.black, g.exact, g.approx, Rating(g.black_rating));
    let h1 = h.push(g);
    assert(h1.drop_last() == h);
    assert(h1.last() == g);
    assert forall|p: Seq<char>, b: Bucket| #![trigger entry_or_zero(t2, p).get(b)] {
        let e = entry_or_zero(t2, p).get(b);
        &&& e.nb_games == participations(h1, p, b)
        &&& e.time_spent_exact == exact_sum(h1, p, b)
        &&& e.time_spent_approximate == approx_sum(h1, p, b)
        &&& e.total_rating.0 == rating_sum(h1, p, b)
    } by {
        let e0 = entry_or_zero(t, p).get(b);
        assert(e0.nb_games == participations(h, p, b));
        lemma_entry_after_record(t, g.white, g.exact, g.approx, Rating(g.white_rating), p, b);
        lemma_entry_after_record(t1, g.black, g.exact, g.approx, Rating(g.black_rating), p, b);
        assert(participations(h1, p, b) == participations(h, p, b) + (if g.white == p && g.bucket == b { 1nat } else { 0nat })
            + (if g.black == p && g.bucket == b { 1nat } else { 0nat }));
        assert(exact_sum(h1, p, b) == exact_sum(h, p, b) + (if g.white == p && g.bucket == b { g.exact as nat } else { 0nat })
            + (if g.black == p && g.bucket == b { g.exact as nat } else { 0nat }));
        assert(approx_sum(h1, p, b) == approx_sum(h, p, b) + (if g.white == p && g.bucket == b { g.approx as nat } else { 0nat })
            + (if g.black == p && g.bucket == b { g.approx as nat } else { 0nat }));
        assert(rating_sum(h1, p, b) == rating_sum(h, p, b) + (if g.white == p && g.bucket == b { g.white_rating as nat } else { 0nat })
            + (if g.black == p && g.bucket == b { g.black_rating as nat } else { 0nat }));
    }
}

/// The kinds of header the games carry that matter here.
#[derive(Clone, Copy, Debug, PartialEq, Eq, Structural)]
pub enum HeaderKey {
    White,
    Black,
    WhiteElo,
    BlackElo,
    TimeControl,
    Site,
    Other,
}

/// The kind of a header key, by its bytes: `White`, `Black`, `WhiteElo`, `BlackElo`,
/// `TimeControl`, `Site`, or any other.
pub open spec fn header_key_of(k: Seq<u8>) -> HeaderKey {
    if k == white_key() {
        HeaderKey::White
    } else if k == seq![66u8, 108u8, 97u8, 99u8, 107u8] {
        HeaderKey::Black
    } else if k == white_elo_key() {
        HeaderKey::WhiteElo
    } else if k == seq![66u8, 108u8, 97u8, 99u8, 107u8, 69u8, 108u8, 111u8] {
        HeaderKey::BlackElo
    } else if k == seq![84u8, 105u8, 109u8, 101u8, 67u8, 111u8, 110u8, 116u8, 114u8, 111u8, 108u8] {
        HeaderKey::TimeControl
    } else if k == seq![83u8, 105u8, 116u8, 101u8] {
        HeaderKey::Site
    } else {
        HeaderKey::Other
    }
}

pub fn classify_header(key: &[u8]) -> (r: HeaderKey)
    ensures
        r == header_key_of(key@),
{
    let white: &[u8] = &[87u8, 104u8, 105u8, 116u8, 101u8];
    let black: &[u8] = &[66u8, 108u8, 97u8, 99u8, 107u8];
    let white_elo: &[u8] = &[87u8, 104u8, 105u8, 116u8, 101u8, 69u8, 108u8, 111u8];
    let black_elo: &[u8] = &[66u8, 108u8, 97u8, 99u8, 107u8, 69u8, 108u8, 111u8];
    let time_control: &[u8] = &[84u8, 105u8, 109u8, 101u8, 67u8, 111u8, 110u8, 116u8, 114u8, 111u8, 108u8];
    let site: &[u8] = &[83u8, 105u8, 116u8, 101u8];
    assert(white@ == white_key());
    assert(white_elo@ == white_elo_key());
    assert(black@ == seq![66u8, 108u8, 97u8, 99u8, 107u8]);
    assert(black_elo@ == seq![66u8, 108u8, 97u8, 99u8, 107u8, 69u8, 108u8, 111u8]);
    assert(time_control@ == seq![84u8, 105u8, 109u8, 101u8, 67u8, 111u8, 110u8, 116u8, 114u8, 111u8, 108u8]);
    assert(site@ == seq![83u8, 105u8, 116u8, 101u8]);
    if bytes_equal(key, white) {
        HeaderKey::White
    } else if bytes_equal(key, black) {
        HeaderKey::Black
    } else if bytes_equal(key, white_elo) {
        HeaderKey::WhiteElo
    } else if bytes_equal(key, black_elo) {
        HeaderKey::BlackElo
    } else if bytes_equal(key, time_control) {
        HeaderKey::TimeControl
    } else if bytes_equal(key, site) {
        HeaderKey::Site
    } else {
        HeaderKey::Other
    }
}

/// The bytes of the time-control value `-`, which stands for "none".
pub open spec fn no_time_control() -> Seq<u8> {
    seq![45u8]
}

/// A game state as it stands before any event of the game.
pub open spec fn fresh(g: Game) -> bool {
    &&& g.wf()
    &&& g.first() == Seq::<u64>::empty()
    &&& g.last() == Seq::<u64>::empty()
    &&& g.plies == 0
    &&& g.tc == Tc::none_spec()
    &&& !g.unreadable
    &&& g.players.white.username@ == Seq::<char>::empty()
    &&& g.players.black.username@ == Seq::<char>::empty()
    &&& g.players.white.rating.0 == 0
    &&& g.players.black.rating.0 == 0
}

/// In every bucket, a player's game count is the number of recorded games in that bucket
/// in which the player took part (counted twice where the player took both sides), and the
/// player's exact and approximate totals are the sums over those games.
pub proof fn law_game_count_is_participations(v: &PgnVisitor, p: Seq<char>, b: Bucket)
    requires
        v.wf(),
    ensures
        entry_or_zero(v.table(), p).get(b).nb_games == participations(v.history@, p, b),
        entry_or_zero(v.table(), p).get(b).time_spent_exact == exact_sum(v.history@, p, b),
        entry_or_zero(v.table(), p).get(b).time_spent_approximate == approx_sum(v.history@, p, b),
{
}

/// A game whose last clock readings exceed its first readings plus the increments earned is
/// never recorded, whatever the table holds: `end_game` then leaves the table unchanged.
pub proof fn law_inconsistent_game_left_out(g: Game, t: Map<Seq<char>, TimeSpents>)
    requires
        total(g.last()) > credit(g.first(), g.plies, g.tc.increment),
    ensures
        outcome_of(g, t) != GameOutcome::Recorded,
{
}

/// A game joins the list of recorded games only where it has a time control, at least four
/// plies, readable clocks, and a duration that can be reconstructed.
pub proof fn law_recorded_games_qualify(g: Game, t: Map<Seq<char>, TimeSpents>)
    requires
        outcome_of(g, t) == GameOutcome::Recorded,
    ensures
        g.tc != Tc::none_spec(),
        g.plies >= 4,
        !g.unreadable,
        duration_of(g.first(), g.last(), g.plies, g.tc.increment) is Some,
{
}

} // verus!
