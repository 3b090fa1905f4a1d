//! The duck hunt: its random numbers, its clock and its score.
//!
//! Times are nanoseconds since some fixed moment.

use vstd::prelude::*;

verus! {

// Random numbers

/// An xorshift generator of 64-bit numbers.
pub struct Rng {
    pub state: u64,
}

/// The step of the generator.
pub open spec fn xorshift(x: u64) -> u64 {
    let a = x ^ (x << 13u64);
    let b = a ^ (a >> 7u64);
    b ^ (b << 17u64)
}

impl Rng {
    /// A generator that is stuck at 0 gives nothing else.
    pub open spec fn inv(&self) -> bool {
        self.state != 0
    }

    pub fn new(seed: u64) -> (r: Rng)
        ensures
            r.state == seed | 1,
            r.inv(),
    {
        assert(seed | 1 != 0) by (bit_vector);
        Rng { state: seed | 1 }
    }

    /// The next number, which becomes the state.
    pub fn next_u64(&mut self) -> (r: u64)
        requires
            old(self).inv(),
        ensures
            r == xorshift(old(self).state),
            final(self).state == r,
            final(self).inv(),
    {
        proof {
            lemma_xorshift_nonzero(self.state);
        }
        let mut x: u64 = self.state;
        x = x ^ (x << 13u64);
        x = x ^ (x >> 7u64);
        x = x ^ (x << 17u64);
        self.state = x;
        x
    }

    /// The upper 53 bits of the next number: as many parts of 2 to the 53rd.
    pub fn next_fraction(&mut self) -> (r: u64)
        requires
            old(self).inv(),
        ensures
            r == xorshift(old(self).state) >> 11u64,
            r < 0x20_0000_0000_0000,
            final(self).state == xorshift(old(self).state),
            final(self).inv(),
    {
        let x = self.next_u64();
        assert((x >> 11u64) < 0x20_0000_0000_0000u64) by (bit_vector);
        x >> 11u64
    }
}

proof fn lemma_xorshift_nonzero(x: u64)
    requires
        x != 0,
    ensures
        xorshift(x) != 0,
{
    let a = x ^ (x << 13u64);
    let b = a ^ (a >> 7u64);
    assert(x ^ (x << 13u64) != 0) by (bit_vector)
        requires
            x != 0,
    ;
    assert(a ^ (a >> 7u64) != 0) by (bit_vector)
        requires
            a != 0,
    ;
    assert(b ^ (b << 17u64) != 0) by (bit_vector)
        requires
            b != 0,
    ;
}

// The game

/// How long a duck stays before it is gone.
pub const DUCK_LIFETIME: u64 = 15_000_000_000;

/// The pause between a kill and the next duck.
pub const DUCK_RESPAWN_DELAY: u64 = 2_000_000_000;

/// When a new duck turns for the first time.
pub const FIRST_TURN_DELAY: u64 = 600_000_000;

/// The longest step of flight taken at once.
pub const LONGEST_STEP: u64 = 50_000_000;

/// The times of a duck in flight.
#[derive(Clone, Copy, PartialEq, Eq, Structural, Debug)]
pub struct DuckClock {
    pub spawned: u64,
    pub last_update: u64,
    pub next_turn: u64,
}

/// The state of the hunt. Before a round nothing is set; in a round there is a duck, or a time
/// at which the next one comes, or the hunt waits for a click.
#[derive(Clone, Copy, PartialEq, Eq, Debug)]
pub struct Game {
    pub duck: Option<DuckClock>,
    pub next_spawn: Option<u64>,
    pub waiting: bool,
    pub score: u32,
    pub high_score: u32,
}

/// What a frame does to the duck.
#[derive(Clone, Copy, PartialEq, Eq, Structural, Debug)]
pub enum Flight {
    /// There is no duck.
    Nothing,
    /// The duck is gone, at this score.
    Escaped { score: u32 },
    /// The duck flies on for so long, and turns if it is time to.
    Flies { nanos: u64, turns: bool },
}

/// The time from `from` to `to`, 0 if that lies in the past.
pub open spec fn elapsed(from: u64, to: u64) -> int {
    if to > from {
        to - from
    } else {
        0
    }
}

/// The clock of a duck that comes at `now`.
pub open spec fn new_duck(now: u64) -> DuckClock {
    DuckClock { spawned: now, last_update: now, next_turn: (now + FIRST_TURN_DELAY) as u64 }
}

impl Game {
    /// At most one of the three phases of a round is on, and the high score is at least the
    /// score.
    pub open spec fn inv(&self) -> bool {
        &&& !(self.duck is Some && self.next_spawn is Some)
        &&& !(self.duck is Some && self.waiting)
        &&& !(self.next_spawn is Some && self.waiting)
        &&& self.score <= self.high_score
    }

    pub open spec fn in_round(&self) -> bool {
        self.duck is Some || self.next_spawn is Some || self.waiting
    }

    /// No round, and no score.
    pub open spec fn stopped(self) -> Game {
        Game { duck: None, next_spawn: None, waiting: false, score: 0, ..self }
    }

    /// A round with a duck that comes at `now`, the score kept.
    pub open spec fn with_duck(self, now: u64) -> Game {
        Game { duck: Some(new_duck(now)), next_spawn: None, waiting: false, ..self }
    }

    /// The duck is killed at `now`.
    pub open spec fn after_hit(self, now: u64) -> Game {
        let score = (self.score + 1) as u32;
        Game {
            duck: None,
            next_spawn: Some((now + DUCK_RESPAWN_DELAY) as u64),
            score,
            high_score: if score > self.high_score {
                score
            } else {
                self.high_score
            },
            ..self
        }
    }

    /// Whether the duck is gone for good at `now`: it has left the screen, or its time is up.
    pub open spec fn escapes(self, now: u64, offscreen: bool) -> bool {
        self.duck is Some && (offscreen || elapsed(self.duck->0.spawned, now) >= DUCK_LIFETIME)
    }

    /// The game after a frame at `now`.
    pub open spec fn after_frame(self, now: u64, offscreen: bool) -> Game {
        if self.escapes(now, offscreen) {
            Game { duck: None, waiting: true, score: 0, ..self }
        } else if self.duck is Some {
            Game { duck: Some(DuckClock { last_update: now, ..self.duck->0 }), ..self }
        } else {
            self
        }
    }

    /// What a frame at `now` does to the duck.
    pub open spec fn flight(self, now: u64, offscreen: bool) -> Flight {
        match self.duck {
            None => Flight::Nothing,
            Some(clock) => if self.escapes(now, offscreen) {
                Flight::Escaped { score: self.score }
            } else {
                Flight::Flies {
                    nanos: (if elapsed(clock.last_update, now) > LONGEST_STEP {
                        LONGEST_STEP as int
                    } else {
                        elapsed(clock.last_update, now)
                    }) as u64,
                    turns: now >= clock.next_turn,
                }
            },
        }
    }

    /// No round, and the high score that was kept.
    pub fn new(high_score: u32) -> (r: Game)
        ensures
            r == (Game { duck: None, next_spawn: None, waiting: false, score: 0, high_score }),
            r.inv(),
    {
        Game { duck: None, next_spawn: None, waiting: false, score: 0, high_score }
    }

    pub fn playing(&self) -> (r: bool)
        ensures
            r == self.in_round(),
    {
        self.duck.is_some() || self.next_spawn.is_some() || self.waiting
    }

    /// Ends the round.
    pub fn stop(&mut self)
        ensures
            *final(self) == old(self).stopped(),
            final(self).inv(),
    {
        self.duck = None;
        self.next_spawn = None;
        self.waiting = false;
        self.score = 0;
    }

    /// Lets a duck come at `now`.
    pub fn spawn(&mut self, now: u64)
        requires
            now + FIRST_TURN_DELAY <= u64::MAX,
        ensures
            *final(self) == old(self).with_duck(now),
            old(self).score <= old(self).high_score ==> final(self).inv(),
    {
        self.duck = Some(
            DuckClock { spawned: now, last_update: now, next_turn: now + FIRST_TURN_DELAY },
        );
        self.next_spawn = None;
        self.waiting = false;
    }

    /// Counts a kill at `now`. The result says whether the score is a new high score.
    pub fn hit(&mut self, now: u64) -> (r: bool)
        requires
            old(self).inv(),
            old(self).duck is Some,
            old(self).score < u32::MAX,
            now + DUCK_RESPAWN_DELAY <= u64::MAX,
        ensures
            *final(self) == old(self).after_hit(now),
            r == (old(self).score + 1 > old(self).high_score),
            final(self).inv(),
    {
        self.duck = None;
        self.next_spawn = Some(now + DUCK_RESPAWN_DELAY);
        self.score = self.score + 1;
        if self.score > self.high_score {
            self.high_score = self.score;
            true
        } else {
            false
        }
    }

    /// Lets the next duck come if its time has. The result says whether it has.
    pub fn respawn_if_due(&mut self, now: u64) -> (r: bool)
        requires
            old(self).inv(),
            now + FIRST_TURN_DELAY <= u64::MAX,
        ensures
            r == (old(self).duck is None && old(self).next_spawn is Some
                && old(self).next_spawn->0 <= now),
            *final(self) == (if r {
                old(self).with_duck(now)
            } else {
                *old(self)
            }),
            final(self).inv(),
    {
        let due: bool = match self.next_spawn {
            Some(at) => now >= at,
            None => false,
        };
        if self.duck.is_none() && due {
            self.spawn(now);
            true
        } else {
            false
        }
    }

    /// Plays one frame at `now`. `offscreen` says whether the duck has left the screen.
    pub fn frame(&mut self, now: u64, offscreen: bool) -> (r: Flight)
        requires
            old(self).inv(),
        ensures
            *final(self) == old(self).after_frame(now, offscreen),
            r == old(self).flight(now, offscreen),
            final(self).inv(),
    {
        let clock = match self.duck {
            Some(clock) => clock,
            None => return Flight::Nothing,
        };
        let age: u64 = if now > clock.spawned {
            now - clock.spawned
        } else {
            0
        };
        if offscreen || age >= DUCK_LIFETIME {
            let score = self.score;
            self.duck = None;
            self.waiting = true;
            self.score = 0;
            return Flight::Escaped { score };
        }
        let step: u64 = if now > clock.last_update {
            now - clock.last_update
        } else {
            0
        };
        self.duck = Some(
            DuckClock {
                spawned: clock.spawned,
                last_update: now,
                next_turn: clock.next_turn,
            },
        );
        Flight::Flies {
            nanos: if step > LONGEST_STEP {
                LONGEST_STEP
            } else {
                step
            },
            turns: now >= clock.next_turn,
        }
    }

    /// Sets when the duck turns next: `millis` after `now`.
    pub fn set_next_turn(&mut self, now: u64, millis: u64)
        requires
            now + millis * 1_000_000 <= u64::MAX,
        ensures
            *final(self) == (Game {
                duck: match old(self).duck {
                    Some(clock) => Some(
                        DuckClock { next_turn: (now + millis * 1_000_000) as u64, ..clock },
                    ),
                    None => None,
                },
                ..*old(self)
            }),
    {
        if let Some(clock) = self.duck {
            self.duck = Some(
                DuckClock {
                    spawned: clock.spawned,
                    last_update: clock.last_update,
                    next_turn: now + millis * 1_000_000,
                },
            );
        }
    }
}

// Laws

/// A round whose duck was killed goes on: until the pause is over nothing comes, then a duck
/// does, and the score is kept throughout.
pub proof fn law_round_goes_on_after_hit(g: Game, hit_at: u64, now: u64)
    requires
        g.inv(),
        g.duck is Some,
        g.score < u32::MAX,
        hit_at + DUCK_RESPAWN_DELAY <= u64::MAX,
    ensures
        ({
            let after = g.after_hit(hit_at);
            &&& after.inv()
            &&& after.in_round()
            &&& after.duck is None
            &&& after.score == g.score + 1
            &&& (after.next_spawn->0 <= now <==> now >= hit_at + DUCK_RESPAWN_DELAY)
            &&& after.with_duck(now).score == g.score + 1
        }),
{
}

/// A duck is lost once its time is up, however late the frame comes, and a loss costs the
/// score but never the high score.
pub proof fn law_escape_costs_the_score(g: Game, now: u64, offscreen: bool)
    requires
        g.inv(),
        g.duck is Some,
    ensures
        now >= g.duck->0.spawned + DUCK_LIFETIME || offscreen ==> {
            &&& g.escapes(now, offscreen)
            &&& g.after_frame(now, offscreen).duck is None
            &&& g.after_frame(now, offscreen).waiting
            &&& g.after_frame(now, offscreen).score == 0
        },
        g.after_frame(now, offscreen).high_score == g.high_score,
        g.after_frame(now, offscreen).inv(),
{
}

/// The generator mixes each number into the next in three steps, and never gives two different
/// states the same successor.
pub proof fn law_random_numbers_do_not_merge(x: u64, y: u64)
    ensures
        exists|a: u64, b: u64|
            {
                &&& a == x ^ (x << 13u64)
                &&& b == a ^ (a >> 7u64)
                &&& xorshift(x) == #[trigger] (b ^ (b << 17u64)) && #[trigger] (a ^ (a >> 7u64)) == b
            },
        xorshift(x) == xorshift(y) ==> x == y,
{
    let a = x ^ (x << 13u64);
    let b = a ^ (a >> 7u64);
    let c = y ^ (y << 13u64);
    let d = c ^ (c >> 7u64);
    assert(xorshift(x) == b ^ (b << 17u64) && a ^ (a >> 7u64) == b);
    assert(b ^ (b << 17u64) == d ^ (d << 17u64) ==> b == d) by (bit_vector);
    assert(a ^ (a >> 7u64) == c ^ (c >> 7u64) ==> a == c) by (bit_vector);
    assert(x ^ (x << 13u64) == y ^ (y << 13u64) ==> x == y) by (bit_vector);
}

/// A new duck starts its life and its flight now and turns for the first time after 600
/// milliseconds. It ends the pause and the waiting, and keeps the scores.
pub proof fn law_new_duck_starts_now(g: Game, now: u64)
    requires
        now + 600_000_000 <= u64::MAX,
    ensures
        ({
            let next = g.with_duck(now);
            &&& next.duck matches Some(clock)
            &&& clock.spawned == now
            &&& clock.last_update == now
            &&& clock.next_turn == now + 600_000_000
            &&& next.next_spawn is None
            &&& !next.waiting
            &&& next.score == g.score
            &&& next.high_score == g.high_score
        }),
{
}

/// A kill counts one, raises the high score if it is beaten, and lets the next duck come after two
/// seconds.
pub proof fn law_kill_counts_one(g: Game, now: u64)
    requires
        g.score < u32::MAX,
        now + 2_000_000_000 <= u64::MAX,
    ensures
        ({
            let next = g.after_hit(now);
            &&& next.duck is None
            &&& next.next_spawn == Some((now + 2_000_000_000) as u64)
            &&& next.waiting == g.waiting
            &&& next.score == g.score + 1
            &&& g.high_score >= next.score ==> next.high_score == g.high_score
            &&& g.high_score < next.score ==> next.high_score == next.score
        }),
{
}

/// A hunt is on while there is a duck, a time for the next, or a wait, and stopping it ends all
/// three and drops the score, but never the high score.
pub proof fn law_stopping_ends_the_hunt(g: Game)
    ensures
        g.in_round() <==> g.duck is Some || g.next_spawn is Some || g.waiting,
        !g.stopped().in_round(),
        g.stopped().score == 0,
        g.stopped().high_score == g.high_score,
{
}

/// A duck is gone once it is off the screen or has been there for 15 seconds, and then the hunt
/// waits with no score. Until then every frame lets it fly for the time since the last one, 50
/// milliseconds at most, and turn if its time has come, and changes nothing else.
pub proof fn law_duck_flies_or_is_gone(g: Game, clock: DuckClock, now: u64, offscreen: bool)
    requires
        g.duck == Some(clock),
    ensures
        ({
            let next = g.after_frame(now, offscreen);
            if offscreen || now >= clock.spawned + 15_000_000_000 {
                &&& g.flight(now, offscreen) == (Flight::Escaped { score: g.score })
                &&& next.duck is None && next.waiting && next.score == 0
                &&& next.next_spawn == g.next_spawn && next.high_score == g.high_score
            } else {
                &&& g.flight(now, offscreen) matches Flight::Flies { nanos, turns }
                &&& turns <==> now >= clock.next_turn
                &&& nanos <= 50_000_000
                &&& now <= clock.last_update ==> nanos == 0
                &&& now >= clock.last_update && now - clock.last_update <= 50_000_000 ==> nanos == now
                    - clock.last_update
                &&& now >= clock.last_update && now - clock.last_update > 50_000_000 ==> nanos
                    == 50_000_000
                &&& next.duck matches Some(after)
                &&& after.last_update == now
                &&& after.spawned == clock.spawned && after.next_turn == clock.next_turn
                &&& next.next_spawn == g.next_spawn && next.waiting == g.waiting
                &&& next.score == g.score && next.high_score == g.high_score
            }
        }),
{
}

/// A frame without a duck changes nothing.
pub proof fn law_frame_without_duck_changes_nothing(g: Game, now: u64, offscreen: bool)
    requires
        g.duck is None,
    ensures
        g.after_frame(now, offscreen) == g,
        g.flight(now, offscreen) is Nothing,
{
}

} // verus!
