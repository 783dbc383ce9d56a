//! The session state: health, score, flags, road speed and the three timers.

use vstd::prelude::*;
use vstd::arithmetic::div_mod::lemma_fundamental_div_mod_converse;
use crate::timer::{lemma_periods_fit, lemma_ticks_add_up, Timer};
use crate::units::{
    accelerated_by, lemma_acceleration_never_slows, lemma_accelerations_add_up,
    lemma_top_speed_stays, ACCELERATION_DENOMINATOR, ACCELERATION_NUMERATOR, BASE_ROAD_SPEED,
    DIFFICULTY_PERIOD, FULL_HEALTH, MAX_ROAD_SPEED, SLOW_FACTOR, UNIT_FACTOR,
};

verus! {

/// The keys the game reacts to.
#[derive(Clone, Copy, Debug, PartialEq, Eq, Structural)]
pub enum Key {
    /// Toggles the pause.
    Pause,
    /// Starts the session over.
    Restart,
    /// Any other key.
    Other,
}

/// A key going down or coming up.
#[derive(Clone, Copy, Debug, PartialEq, Eq, Structural)]
pub struct KeyEvent {
    pub key: Key,
    /// `true` when the key went down, `false` when it came up.
    pub pressed: bool,
}

impl KeyEvent {
    /// The restart key going down.
    pub open spec fn restart() -> KeyEvent {
        KeyEvent { key: Key::Restart, pressed: true }
    }

    /// Whether the event starts the session over.
    pub open spec fn restarts(self) -> bool {
        self.pressed && self.key == Key::Restart
    }

    /// Whether the event leaves the session as it is.
    pub open spec fn idle(self) -> bool {
        !self.pressed || self.key == Key::Other
    }
}

/// Whether none of `events` starts the session over.
pub open spec fn none_restarts(events: Seq<KeyEvent>) -> bool {
    forall|i: int| 0 <= i < events.len() ==> !(#[trigger] events[i]).restarts()
}

/// Whether every one of `events` leaves the session as it is.
pub open spec fn all_idle(events: Seq<KeyEvent>) -> bool {
    forall|i: int| 0 <= i < events.len() ==> (#[trigger] events[i]).idle()
}

/// The sum of a row of frame times.
pub open spec fn total(deltas: Seq<u64>) -> int
    decreases deltas.len(),
{
    if deltas.len() == 0 {
        0
    } else {
        total(deltas.drop_last()) + deltas.last()
    }
}

/// What the timers did during one frame.
#[derive(Clone, Copy, Debug, PartialEq, Eq, Structural)]
pub struct TimerEffects {
    /// How often the difficulty timer fired.
    pub accelerations: u64,
    /// Whether the invulnerability timer ran out.
    pub invulnerability_ended: bool,
    /// Whether the slow-mode timer ran out.
    pub slow_ended: bool,
}

/// The state of one session of play.
#[derive(Clone, Copy, Debug, PartialEq, Eq, Structural)]
pub struct Session {
    pub paused: bool,
    /// Remaining health, from 0 to 5.
    pub health: u8,
    pub score: u32,
    /// Set when the health has run out; only a restart clears it.
    pub lost: bool,
    /// Current scroll speed of the road.
    pub road_speed: u64,
    /// Fires every five seconds and makes the road faster.
    pub difficulty_timer: Timer,
    /// Runs while the player cannot be damaged.
    pub invulnerability_timer: Timer,
    pub invulnerable: bool,
    /// Runs while the road is slowed down.
    pub slow_timer: Timer,
    /// Factor on every scroll speed, in thousandths: 1000 or 500.
    pub speed_multiplier: u32,
}

impl Session {
    /// The session at its start.
    pub open spec fn initial() -> Session {
        Session {
            paused: false,
            health: FULL_HEALTH,
            score: 0,
            lost: false,
            road_speed: BASE_ROAD_SPEED,
            difficulty_timer: Timer::periodic(DIFFICULTY_PERIOD),
            invulnerability_timer: Timer::one_shot(0),
            invulnerable: false,
            slow_timer: Timer::one_shot(0),
            speed_multiplier: UNIT_FACTOR,
        }
    }

    /// What holds of a session at every point of a frame.
    pub open spec fn consistent(self) -> bool {
        &&& self.health <= FULL_HEALTH
        &&& self.lost ==> self.health == 0
        &&& BASE_ROAD_SPEED <= self.road_speed <= MAX_ROAD_SPEED
        &&& self.difficulty_timer.wf()
        &&& self.difficulty_timer.repeating
        &&& self.difficulty_timer.duration == DIFFICULTY_PERIOD
        &&& self.invulnerability_timer.wf()
        &&& !self.invulnerability_timer.repeating
        &&& self.slow_timer.wf()
        &&& !self.slow_timer.repeating
        &&& self.invulnerable ==> self.invulnerability_timer.running()
        &&& self.speed_multiplier == UNIT_FACTOR || self.speed_multiplier == SLOW_FACTOR
        &&& !self.slow_timer.running() ==> self.speed_multiplier == UNIT_FACTOR
    }

    /// What holds of a session between frames: it is consistent, and it is
    /// lost exactly when the health has run out.
    pub open spec fn wf(self) -> bool {
        &&& self.consistent()
        &&& self.lost <==> self.health == 0
    }

    /// Whether frames leave the game untouched.
    pub open spec fn is_frozen(self) -> bool {
        self.paused || self.lost
    }

    /// The session after one key event: a pressed pause key flips the pause, a
    /// pressed restart key starts the session over, anything else is ignored.
    pub open spec fn after_key(self, event: KeyEvent) -> Session {
        if !event.pressed {
            self
        } else {
            match event.key {
                Key::Pause => Session { paused: !self.paused, ..self },
                Key::Restart => Session::initial(),
                Key::Other => self,
            }
        }
    }

    /// The session after a run of key events, taken in order.
    pub open spec fn after_keys(self, events: Seq<KeyEvent>) -> Session
        decreases events.len(),
    {
        if events.len() == 0 {
            self
        } else {
            self.after_keys(events.drop_last()).after_key(events.last())
        }
    }

    /// The session after its timers have run for `delta` nanoseconds: the
    /// road speed is raised once for each firing of the difficulty timer, the
    /// invulnerability ends when its timer fires, and so does slow mode.
    pub open spec fn after_timers(self, delta: u64) -> Session {
        Session {
            road_speed: accelerated_by(self.road_speed, self.difficulty_timer.firings(delta)),
            difficulty_timer: self.difficulty_timer.ticked(delta),
            invulnerability_timer: self.invulnerability_timer.ticked(delta),
            invulnerable: self.invulnerable && self.invulnerability_timer.firings(delta) == 0,
            slow_timer: self.slow_timer.ticked(delta),
            speed_multiplier: if self.slow_timer.firings(delta) > 0 {
                UNIT_FACTOR
            } else {
                self.speed_multiplier
            },
            ..self
        }
    }

    /// The session after its timers have run through a row of frames, one
    /// after the other.
    pub open spec fn after_frames(self, deltas: Seq<u64>) -> Session
        decreases deltas.len(),
    {
        if deltas.len() == 0 {
            self
        } else {
            self.after_frames(deltas.drop_last()).after_timers(deltas.last())
        }
    }

    /// How many periods of the difficulty timer become full during a row of
    /// frames.
    pub open spec fn periods(self, deltas: Seq<u64>) -> nat {
        ((self.difficulty_timer.elapsed + total(deltas)) / (DIFFICULTY_PERIOD as int)) as nat
    }

    /// What the timers report for a frame of `delta` nanoseconds.
    pub open spec fn timer_effects(self, delta: u64) -> TimerEffects {
        TimerEffects {
            accelerations: self.difficulty_timer.firings(delta) as u64,
            invulnerability_ended: self.invulnerability_timer.firings(delta) > 0,
            slow_ended: self.slow_timer.firings(delta) > 0,
        }
    }

    /// Starts a session.
    pub fn new() -> (session: Session)
        ensures
            session == Session::initial(),
            session.wf(),
    {
        Session {
            paused: false,
            health: FULL_HEALTH,
            score: 0,
            lost: false,
            road_speed: BASE_ROAD_SPEED,
            difficulty_timer: Timer::every(DIFFICULTY_PERIOD),
            invulnerability_timer: Timer::once(0),
            invulnerable: false,
            slow_timer: Timer::once(0),
            speed_multiplier: UNIT_FACTOR,
        }
    }

    /// Computes [`Session::wf`].
    pub fn is_wf(&self) -> (sound: bool)
        ensures
            sound == self.wf(),
    {
        self.health <= FULL_HEALTH && self.lost == (self.health == 0) && BASE_ROAD_SPEED
            <= self.road_speed && self.road_speed <= MAX_ROAD_SPEED && self.difficulty_timer.is_wf()
            && self.difficulty_timer.repeating && self.difficulty_timer.duration
            == DIFFICULTY_PERIOD && self.invulnerability_timer.is_wf()
            && !self.invulnerability_timer.repeating && self.slow_timer.is_wf()
            && !self.slow_timer.repeating && (!self.invulnerable
            || !self.invulnerability_timer.finished) && (self.speed_multiplier == UNIT_FACTOR
            || self.speed_multiplier == SLOW_FACTOR) && (!self.slow_timer.finished
            || self.speed_multiplier == UNIT_FACTOR)
    }

    /// Starts the session over, whatever state it is in.
    pub fn restart(&mut self)
        ensures
            *final(self) == Session::initial(),
            final(self).wf(),
    {
        *self = Session::new();
    }

    /// Applies one key event.
    pub fn press(&mut self, event: KeyEvent)
        ensures
            *final(self) == old(self).after_key(event),
            old(self).wf() ==> final(self).wf(),
    {
        if event.pressed {
            match event.key {
                Key::Pause => {
                    self.paused = !self.paused;
                },
                Key::Restart => {
                    self.restart();
                },
                Key::Other => {},
            }
        }
    }

    /// Applies the key events of a frame in the order in which they came.
    pub fn handle_keys(&mut self, events: &Vec<KeyEvent>)
        ensures
            *final(self) == old(self).after_keys(events@),
            old(self).wf() ==> final(self).wf(),
    {
        let mut done: usize = 0;
        while done < events.len()
            invariant
                done <= events.len(),
                *self == old(self).after_keys(events@.take(done as int)),
                old(self).wf() ==> self.wf(),
            decreases events.len() - done,
        {
            proof {
                assert(events@.take(done + 1).drop_last() == events@.take(done as int));
            }
            self.press(events[done]);
            done += 1;
        }
        proof {
            assert(events@.take(done as int) == events@);
        }
    }

    /// Whether the session is paused or lost.
    pub fn frozen(&self) -> (frozen: bool)
        ensures
            frozen == self.is_frozen(),
    {
        self.paused || self.lost
    }

    /// Raises the road speed once for each of `firings` firings of the
    /// difficulty timer. At the top speed no further firing changes it, so
    /// the rest of them is skipped.
    pub fn accelerate(&mut self, firings: u64)
        ensures
            *final(self) == (Session {
                road_speed: accelerated_by(old(self).road_speed, firings as nat),
                ..*old(self)
            }),
    {
        let mut left: u64 = firings;
        while left > 0 && self.road_speed != MAX_ROAD_SPEED
            invariant
                accelerated_by(self.road_speed, left as nat) == accelerated_by(
                    old(self).road_speed,
                    firings as nat,
                ),
                *self == (Session { road_speed: self.road_speed, ..*old(self) }),
            decreases left,
        {
            let raised: u128 = (self.road_speed as u128) * (ACCELERATION_NUMERATOR as u128) / (
            ACCELERATION_DENOMINATOR as u128);
            if raised >= MAX_ROAD_SPEED as u128 {
                self.road_speed = MAX_ROAD_SPEED;
            } else {
                self.road_speed = raised as u64;
            }
            left -= 1;
        }
        proof {
            if left > 0 {
                lemma_top_speed_stays(left as nat);
            }
        }
    }

    /// Advances the three timers by the time of one frame and applies what
    /// they trigger.
    pub fn advance_timers(&mut self, delta: u64) -> (effects: TimerEffects)
        requires
            old(self).consistent(),
        ensures
            *final(self) == old(self).after_timers(delta),
            effects == old(self).timer_effects(delta),
            final(self).consistent(),
    {
        let accelerations: u64 = self.difficulty_timer.tick(delta);
        proof {
            lemma_acceleration_never_slows(self.road_speed, accelerations as nat);
        }
        self.accelerate(accelerations);
        let invulnerability_ended: bool = self.invulnerability_timer.tick(delta) > 0;
        if invulnerability_ended {
            self.invulnerable = false;
        }
        let slow_ended: bool = self.slow_timer.tick(delta) > 0;
        if slow_ended {
            self.speed_multiplier = UNIT_FACTOR;
        }
        TimerEffects { accelerations, invulnerability_ended, slow_ended }
    }
}

/// A pressed restart key resets the session to its start, whatever state it
/// was in and whatever keys came before: full health, no score, not lost, not
/// paused, the base road speed, fresh timers and no slow-down.
pub proof fn law_restart_resets(session: Session, before: Seq<KeyEvent>)
    ensures
        session.after_key(KeyEvent::restart()) == Session::initial(),
        session.after_keys(before.push(KeyEvent::restart())) == Session::initial(),
        Session::initial().wf(),
        Session::initial().health == FULL_HEALTH,
        Session::initial().score == 0,
        !Session::initial().lost,
        !Session::initial().paused,
        Session::initial().road_speed == BASE_ROAD_SPEED,
        Session::initial().speed_multiplier == UNIT_FACTOR,
        !Session::initial().invulnerable,
        Session::initial().difficulty_timer.elapsed == 0,
        Session::initial().invulnerability_timer.elapsed == 0,
        Session::initial().slow_timer.elapsed == 0,
{
    let events = before.push(KeyEvent::restart());
    assert(events.last() == KeyEvent::restart());
}

/// Key events change nothing but the pause unless one of them restarts.
pub proof fn lemma_keys_only_pause(session: Session, events: Seq<KeyEvent>)
    requires
        none_restarts(events),
    ensures
        session.after_keys(events) == (Session {
            paused: session.after_keys(events).paused,
            ..session
        }),
    decreases events.len(),
{
    if events.len() > 0 {
        lemma_keys_only_pause(session, events.drop_last());
    }
}

/// Key events that are releases or other keys change nothing.
pub proof fn lemma_idle_keys_change_nothing(session: Session, events: Seq<KeyEvent>)
    requires
        all_idle(events),
    ensures
        session.after_keys(events) == session,
    decreases events.len(),
{
    if events.len() > 0 {
        lemma_idle_keys_change_nothing(session, events.drop_last());
    }
}

/// Key events keep a well-formed session well-formed.
pub proof fn lemma_keys_keep_wf(session: Session, events: Seq<KeyEvent>)
    requires
        session.wf(),
    ensures
        session.after_keys(events).wf(),
    decreases events.len(),
{
    if events.len() > 0 {
        lemma_keys_keep_wf(session, events.drop_last());
    }
}

/// The timers keep a consistent session consistent, never slow the road
/// down, and leave health, score and both flags alone.
pub proof fn lemma_timers_keep_consistent(session: Session, delta: u64)
    requires
        session.consistent(),
    ensures
        session.after_timers(delta).consistent(),
        session.road_speed <= session.after_timers(delta).road_speed,
        session.after_timers(delta).health == session.health,
        session.after_timers(delta).score == session.score,
        session.after_timers(delta).lost == session.lost,
        session.after_timers(delta).paused == session.paused,
{
    lemma_acceleration_never_slows(session.road_speed, session.difficulty_timer.firings(delta));
    lemma_periods_fit(
        session.difficulty_timer.elapsed as int,
        delta as int,
        DIFFICULTY_PERIOD as int,
    );
}

/// The timers do not care how time is cut into frames: two frames leave the
/// session as one frame of their joint length does. In particular the road
/// speed is raised once for every period of the difficulty timer that becomes
/// full, however many frames the period took and however many periods a
/// frame spans.
pub proof fn law_timers_ignore_frame_rate(session: Session, first: u64, second: u64)
    requires
        session.consistent(),
        first + second <= u64::MAX,
    ensures
        session.after_timers(first).after_timers(second) == session.after_timers(
            (first + second) as u64,
        ),
{
    lemma_ticks_add_up(session.difficulty_timer, first, second);
    lemma_ticks_add_up(session.invulnerability_timer, first, second);
    lemma_ticks_add_up(session.slow_timer, first, second);
    lemma_accelerations_add_up(
        session.road_speed,
        session.difficulty_timer.firings(first),
        session.difficulty_timer.ticked(first).firings(second),
    );
}

/// The road speed is raised exactly once for every period of the difficulty
/// timer that becomes full, however the time is cut into frames.
pub proof fn law_one_acceleration_per_period(session: Session, deltas: Seq<u64>)
    requires
        session.consistent(),
    ensures
        session.after_frames(deltas).consistent(),
        session.after_frames(deltas).road_speed == accelerated_by(
            session.road_speed,
            session.periods(deltas),
        ),
        session.after_frames(deltas).difficulty_timer.elapsed == (
        session.difficulty_timer.elapsed + total(deltas)) % (DIFFICULTY_PERIOD as int),
    decreases deltas.len(),
{
    let period = DIFFICULTY_PERIOD as int;
    let start = session.difficulty_timer.elapsed as int;
    if deltas.len() == 0 {
        lemma_periods_fit(start, 0, period);
        lemma_fundamental_div_mod_converse(start, period, 0, start);
    } else {
        let earlier = deltas.drop_last();
        let before = session.after_frames(earlier);
        let delta = deltas.last();
        law_one_acceleration_per_period(session, earlier);
        lemma_total_grows(earlier);
        lemma_timers_keep_consistent(before, delta);
        lemma_periods_fit(start, total(earlier), period);
        let early = (start + total(earlier)) / period;
        let between = (start + total(earlier)) % period;
        lemma_periods_fit(between, delta as int, period);
        let late = (between + delta) / period;
        let rest = (between + delta) % period;
        assert(start + total(deltas) == (early + late) * period + rest) by (nonlinear_arith)
            requires
                start + total(earlier) == period * early + between,
                between + delta == period * late + rest,
                total(deltas) == total(earlier) + delta,
        ;
        lemma_fundamental_div_mod_converse(start + total(deltas), period, early + late, rest);
        lemma_accelerations_add_up(session.road_speed, early as nat, late as nat);
    }
}

/// Two ways of cutting the same time into frames raise the road speed alike
/// and leave the difficulty timer alike.
pub proof fn law_frame_rate_does_not_matter(session: Session, deltas: Seq<u64>, others: Seq<u64>)
    requires
        session.consistent(),
        total(deltas) == total(others),
    ensures
        session.after_frames(deltas).road_speed == session.after_frames(others).road_speed,
        session.after_frames(deltas).difficulty_timer == session.after_frames(
            others,
        ).difficulty_timer,
{
    law_one_acceleration_per_period(session, deltas);
    law_one_acceleration_per_period(session, others);
}

/// A sum of frame times is not negative.
pub proof fn lemma_total_grows(deltas: Seq<u64>)
    ensures
        total(deltas) >= 0,
    decreases deltas.len(),
{
    if deltas.len() > 0 {
        lemma_total_grows(deltas.drop_last());
    }
}

} // verus!
