//! Running totals per time-control bucket, and their rendering as CSV cells.
use vstd::prelude::*;

use crate::game::Rating;

verus! {

/// The five classes of time control, from the fastest.
#[derive(Clone, Copy, Debug, PartialEq, Eq, Structural)]
pub enum Bucket {
    UltraBullet,
    Bullet,
    Blitz,
    Rapid,
    Classical,
}

/// The bucket of an average game time in seconds: up to 29 ultrabullet, up to 179 bullet,
/// up to 479 blitz, up to 1499 rapid, classical beyond.
pub open spec fn bucket_of(avg_time: nat) -> Bucket {
    if avg_time <= 29 {
        Bucket::UltraBullet
    } else if avg_time <= 179 {
        Bucket::Bullet
    } else if avg_time <= 479 {
        Bucket::Blitz
    } else if avg_time <= 1499 {
        Bucket::Rapid
    } else {
        Bucket::Classical
    }
}

pub fn classify(avg_time: u64) -> (r: Bucket)
    ensures
        r == bucket_of(avg_time as nat),
{
    if avg_time <= 29 {
        Bucket::UltraBullet
    } else if avg_time <= 179 {
        Bucket::Bullet
    } else if avg_time <= 479 {
        Bucket::Blitz
    } else if avg_time <= 1499 {
        Bucket::Rapid
    } else {
        Bucket::Classical
    }
}

/// Totals of one bucket for one player.
#[derive(Clone, Copy, Debug, PartialEq, Eq, Structural)]
pub struct TimeSpent {
    pub nb_games: u64,
    pub total_rating: Rating,
    /// Seconds, reconstructed from the clocks.
    pub time_spent_exact: u64,
    /// Seconds, counted as base time plus forty increments per game.
    pub time_spent_approximate: u64,
}

/// Whether one more game fits in the totals.
pub open spec fn can_add(t: TimeSpent, exact: u64, approx: u64, rating: Rating) -> bool {
    &&& t.nb_games < u64::MAX
    &&& t.total_rating.0 + rating.0 <= u64::MAX
    &&& t.time_spent_exact + exact <= u64::MAX
    &&& t.time_spent_approximate + approx <= u64::MAX
}

/// The totals after one more game.
pub open spec fn added(t: TimeSpent, exact: u64, approx: u64, rating: Rating) -> TimeSpent {
    TimeSpent {
        nb_games: (t.nb_games + 1) as u64,
        total_rating: Rating((t.total_rating.0 + rating.0) as u64),
        time_spent_exact: (t.time_spent_exact + exact) as u64,
        time_spent_approximate: (t.time_spent_approximate + approx) as u64,
    }
}

/// The decimal digits of `n`.
pub open spec fn decimal(n: nat) -> Seq<char>
    decreases n,
{
    if n < 10 {
        seq![digit_char(n)]
    } else {
        decimal(n / 10).push(digit_char(n % 10))
    }
}

pub open spec fn digit_char(d: nat) -> char {
    if d == 0 { '0' }
    else if d == 1 { '1' }
    else if d == 2 { '2' }
    else if d == 3 { '3' }
    else if d == 4 { '4' }
    else if d == 5 { '5' }
    else if d == 6 { '6' }
    else if d == 7 { '7' }
    else if d == 8 { '8' }
    else { '9' }
}

/// Relies on `u64`'s `to_string`: its decimal digits, without sign or leading zeros.
#[verifier::external_body]
fn u64_text(n: u64) -> (r: String)
    ensures
        r@ == decimal(n as nat),
{
    n.to_string()
}

/// The three cells of one bucket: games, approximate seconds, exact seconds, each after a
/// comma; three bare commas where the bucket holds no game.
pub open spec fn csv_cells(t: TimeSpent) -> Seq<char> {
    if t.nb_games == 0 {
        seq![',', ',', ',']
    } else {
        seq![','] + decimal(t.nb_games as nat) + seq![','] + decimal(
            t.time_spent_approximate as nat,
        ) + seq![','] + decimal(t.time_spent_exact as nat)
    }
}

impl TimeSpent {
    pub open spec fn zero_spec() -> TimeSpent {
        TimeSpent {
            nb_games: 0,
            total_rating: Rating(0),
            time_spent_exact: 0,
            time_spent_approximate: 0,
        }
    }

    pub fn zero() -> (r: TimeSpent)
        ensures
            r == TimeSpent::zero_spec(),
    {
        TimeSpent { nb_games: 0, total_rating: Rating(0), time_spent_exact: 0, time_spent_approximate: 0 }
    }

    /// Counts one more game with its exact and approximate durations and the player's rating.
    pub fn add_game(&mut self, game_exact_duration: u64, game_approximate_duration: u64, rating: Rating)
        requires
            can_add(*old(self), game_exact_duration, game_approximate_duration, rating),
        ensures
            *final(self) == added(*old(self), game_exact_duration, game_approximate_duration, rating),
    {
        self.nb_games = self.nb_games + 1;
        self.total_rating.add_assign(rating);
        self.time_spent_exact = self.time_spent_exact + game_exact_duration;
        self.time_spent_approximate = self.time_spent_approximate + game_approximate_duration;
    }

    pub fn to_csv(&self) -> (r: String)
        ensures
            r@ == csv_cells(*self),
    {
        if self.nb_games == 0 {
            let r = String::from_str(",,,");
            proof {
                reveal_strlit(",,,");
            }
            assert(r@ == csv_cells(*self));
            r
        } else {
            let mut r = String::from_str(",");
            r.append(u64_text(self.nb_games).as_str());
            r.append(",");
            r.append(u64_text(self.time_spent_approximate).as_str());
            r.append(",");
            r.append(u64_text(self.time_spent_exact).as_str());
            proof {
                reveal_strlit(",");
            }
            assert(r@ == csv_cells(*self));
            r
        }
    }
}

/// The totals of one player, one per bucket.
#[derive(Clone, Copy, Debug, PartialEq, Eq, Structural)]
pub struct TimeSpents {
    pub ultrabullet: TimeSpent,
    pub bullet: TimeSpent,
    pub blitz: TimeSpent,
    pub rapid: TimeSpent,
    pub classical: TimeSpent,
}

/// The totals after one more game in bucket `b`; the other buckets stay as they were.
pub open spec fn add_to(ts: TimeSpents, b: Bucket, exact: u64, approx: u64, rating: Rating) -> TimeSpents {
    match b {
        Bucket::UltraBullet => TimeSpents { ultrabullet: added(ts.ultrabullet, exact, approx, rating), ..ts },
        Bucket::Bullet => TimeSpents { bullet: added(ts.bullet, exact, approx, rating), ..ts },
        Bucket::Blitz => TimeSpents { blitz: added(ts.blitz, exact, approx, rating), ..ts },
        Bucket::Rapid => TimeSpents { rapid: added(ts.rapid, exact, approx, rating), ..ts },
        Bucket::Classical => TimeSpents { classical: added(ts.classical, exact, approx, rating), ..ts },
    }
}

impl TimeSpents {
    /// The totals of bucket `b`.
    pub open spec fn get(&self, b: Bucket) -> TimeSpent {
        match b {
            Bucket::UltraBullet => self.ultrabullet,
            Bucket::Bullet => self.bullet,
            Bucket::Blitz => self.blitz,
            Bucket::Rapid => self.rapid,
            Bucket::Classical => self.classical,
        }
    }

    pub open spec fn zero_spec() -> TimeSpents {
        TimeSpents {
            ultrabullet: TimeSpent::zero_spec(),
            bullet: TimeSpent::zero_spec(),
            blitz: TimeSpent::zero_spec(),
            rapid: TimeSpent::zero_spec(),
            classical: TimeSpent::zero_spec(),
        }
    }

    pub fn get_bucket(&self, b: Bucket) -> (r: TimeSpent)
        ensures
            r == self.get(b),
    {
        match b {
            Bucket::UltraBullet => self.ultrabullet,
            Bucket::Bullet => self.bullet,
            Bucket::Blitz => self.blitz,
            Bucket::Rapid => self.rapid,
            Bucket::Classical => self.classical,
        }
    }

    pub fn new() -> (r: TimeSpents)
        ensures
            r == TimeSpents::zero_spec(),
    {
        TimeSpents {
            ultrabullet: TimeSpent::zero(),
            bullet: TimeSpent::zero(),
            blitz: TimeSpent::zero(),
            rapid: TimeSpent::zero(),
            classical: TimeSpent::zero(),
        }
    }

    /// Counts one more game in the bucket of its average time `avg_time`, which is also the
    /// game's approximate duration; the other buckets stay as they were.
    pub fn add_game(&mut self, game_exact_duration: u64, avg_time: u64, rating: Rating)
        requires
            can_add(old(self).get(bucket_of(avg_time as nat)), game_exact_duration, avg_time, rating),
        ensures
            *final(self) == add_to(*old(self), bucket_of(avg_time as nat), game_exact_duration, avg_time, rating),
    {
        if avg_time <= 29 {
            self.ultrabullet.add_game(game_exact_duration, avg_time, rating)
        } else if avg_time <= 179 {
            self.bullet.add_game(game_exact_duration, avg_time, rating)
        } else if avg_time <= 479 {
            self.blitz.add_game(game_exact_duration, avg_time, rating)
        } else if avg_time <= 1499 {
            self.rapid.add_game(game_exact_duration, avg_time, rating)
        } else {
            self.classical.add_game(game_exact_duration, avg_time, rating)
        }
    }

    /// The cells of the five buckets, from ultrabullet to classical, each led by a comma.
    pub fn to_csv(&self) -> (r: String)
        ensures
            r@ == csv_cells(self.ultrabullet) + csv_cells(self.bullet) + csv_cells(self.blitz)
                + csv_cells(self.rapid) + csv_cells(self.classical),
    {
        let mut r = self.ultrabullet.to_csv();
        r.append(self.bullet.to_csv().as_str());
        r.append(self.blitz.to_csv().as_str());
        r.append(self.rapid.to_csv().as_str());
        r.append(self.classical.to_csv().as_str());
        r
    }
}

} // verus!
