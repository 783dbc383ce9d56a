//! One frame of the game: keys, timers, movement, scrolling, collisions and
//! the end of the session.

use vstd::prelude::*;
use crate::contact::{all_within, Collision, Contact};
use crate::dice::{
    draw_frame, draw_nothing, ContactDraw, Draws, DrawsView, ROLL_EDGE,
};
use crate::session::{
    all_idle, law_timers_ignore_frame_rate, lemma_idle_keys_change_nothing, lemma_keys_keep_wf,
    lemma_keys_only_pause, lemma_timers_keep_consistent, none_restarts, KeyEvent, Session,
};
use crate::timer::{lemma_ticks_add_up, Timer};
use crate::units::{
    distance, effective_speed, EFFECT_DURATION, FAST_FACTOR, FULL_HEALTH, PLAIN_FACTOR,
    PLAYER_SPEED, SLOW_FACTOR, TRACK_HALF_HEIGHT,
};
use crate::world::{
    direction, Band, Player, Position, Readout, World, WorldView, COLLECTIBLE_COUNT, LARGE_SCALE,
    NORMAL_SCALE, OBSTACLE_COUNT,
};

verus! {

/// What one frame brings in.
#[derive(Clone, Debug, PartialEq, Eq)]
pub struct Input {
    /// Time since the frame before, in nanoseconds.
    pub delta: u64,
    /// The key events since the frame before, in the order in which they came.
    pub keys: Vec<KeyEvent>,
    /// Whether the key that moves the player up is held down.
    pub up: bool,
    /// Whether the key that moves the player down is held down.
    pub down: bool,
    /// The collision events since the frame before, in the order in which
    /// they came.
    pub collisions: Vec<Collision>,
}

/// The input of a frame as plain values.
pub struct InputView {
    pub delta: u64,
    pub keys: Seq<KeyEvent>,
    pub up: bool,
    pub down: bool,
    pub collisions: Seq<Collision>,
}

impl View for Input {
    type V = InputView;

    open spec fn view(&self) -> InputView {
        InputView {
            delta: self.delta,
            keys: self.keys@,
            up: self.up,
            down: self.down,
            collisions: self.collisions@,
        }
    }
}

/// What a frame asks of the outside: sounds to play and the end of the game
/// to announce.
#[derive(Clone, Copy, Debug, PartialEq, Eq, Structural)]
pub struct Report {
    /// Whether the frame ran at all: `false` while paused or lost.
    pub active: bool,
    /// How often the player was damaged by a collision.
    pub impacts: u8,
    /// Whether the session was lost in this frame.
    pub game_over: bool,
}

/// The session and the world it plays in.
#[derive(Clone, Debug, PartialEq, Eq)]
pub struct Game {
    pub session: Session,
    pub world: World,
}

/// The game as plain values.
pub struct GameView {
    pub session: Session,
    pub world: WorldView,
}

impl View for Game {
    type V = GameView;

    open spec fn view(&self) -> GameView {
        GameView { session: self.session, world: self.world@ }
    }
}

impl GameView {
    /// The game after the timers have run for `delta` nanoseconds. When the
    /// difficulty timer fires the speed readout follows the road speed; when
    /// the invulnerability ends the player shrinks back.
    pub open spec fn timed(self, delta: u64) -> GameView {
        let effects = self.session.timer_effects(delta);
        let session = self.session.after_timers(delta);
        GameView {
            session,
            world: WorldView {
                player: Player {
                    scale: if effects.invulnerability_ended {
                        NORMAL_SCALE
                    } else {
                        self.world.player.scale
                    },
                    ..self.world.player
                },
                readout: Readout {
                    speed: if effects.accelerations > 0 {
                        session.road_speed
                    } else {
                        self.world.readout.speed
                    },
                    ..self.world.readout
                },
                ..self.world
            },
        }
    }

    /// The game after the player has moved for `delta` nanoseconds: beyond
    /// the edge of the track all health is gone at once.
    pub open spec fn steered(self, up: bool, down: bool, delta: u64) -> GameView {
        let player = self.world.player.steered(up, down, delta);
        GameView {
            session: Session {
                health: if player.off_track() {
                    0
                } else {
                    self.session.health
                },
                ..self.session
            },
            world: WorldView { player, ..self.world },
        }
    }

    /// The game after the world has scrolled for `delta` nanoseconds.
    pub open spec fn scrolled(self, delta: u64, draws: DrawsView) -> GameView {
        GameView {
            world: self.world.scrolled(
                self.session.road_speed,
                self.session.speed_multiplier,
                delta,
                draws,
            ),
            ..self
        }
    }

    /// The game with the score and health readouts brought up to date.
    pub open spec fn refreshed(self) -> GameView {
        GameView {
            world: WorldView {
                readout: Readout {
                    score: self.session.score,
                    health: self.session.health,
                    ..self.world.readout
                },
                ..self.world
            },
            ..self
        }
    }

    /// The game after the player has picked up the buff. A roll above the
    /// edge starts ten seconds of invulnerability and enlarges the player;
    /// any other roll starts ten seconds of slow mode. Either way the buff
    /// reappears at the drawn spot.
    pub open spec fn buffed(self, draw: ContactDraw) -> GameView {
        if draw.roll > ROLL_EDGE {
            GameView {
                session: Session {
                    invulnerability_timer: Timer::one_shot(EFFECT_DURATION),
                    invulnerable: true,
                    ..self.session
                },
                world: WorldView {
                    player: Player { scale: LARGE_SCALE, ..self.world.player },
                    buff: draw.spot,
                    ..self.world
                },
            }
        } else {
            GameView {
                session: Session {
                    slow_timer: Timer::one_shot(EFFECT_DURATION),
                    speed_multiplier: SLOW_FACTOR,
                    ..self.session
                },
                world: WorldView { buff: draw.spot, ..self.world },
            }
        }
    }

    /// The game after the player has picked up the collectible of this index:
    /// the score is one higher, unless it is as high as it can get, and that
    /// collectible reappears at `spot`.
    pub open spec fn collected(self, index: int, spot: Position) -> GameView {
        GameView {
            session: Session {
                score: if self.session.score < u32::MAX {
                    (self.session.score + 1) as u32
                } else {
                    self.session.score
                },
                ..self.session
            },
            world: WorldView {
                collectibles: self.world.collectibles.update(index, spot),
                ..self.world
            },
        }
    }

    /// Whether a hit would cost health now.
    pub open spec fn vulnerable(self) -> bool {
        !self.session.invulnerable && self.session.health > 0
    }

    /// The game after the player has run into something: one health less,
    /// unless the player is invulnerable or has none left.
    pub open spec fn hit(self) -> GameView {
        if self.vulnerable() {
            GameView {
                session: Session { health: (self.session.health - 1) as u8, ..self.session },
                ..self
            }
        } else {
            self
        }
    }

    /// The game after one collision.
    pub open spec fn after_contact(self, collision: Collision, draw: ContactDraw) -> GameView {
        match collision.contact() {
            Contact::Ignored => self,
            Contact::Buff => self.buffed(draw),
            Contact::Collectible(index) => self.collected(index as int, draw.spot),
            Contact::Hit => self.hit(),
        }
    }

    /// The game after a run of collisions, taken in order, each with the
    /// draw of the same index.
    pub open spec fn after_contacts(
        self,
        collisions: Seq<Collision>,
        draws: Seq<ContactDraw>,
    ) -> GameView
        decreases collisions.len(),
    {
        if collisions.len() == 0 {
            self
        } else {
            self.after_contacts(collisions.drop_last(), draws).after_contact(
                collisions.last(),
                draws[collisions.len() - 1],
            )
        }
    }

    /// The game with the session lost if the health has run out.
    pub open spec fn settled(self) -> GameView {
        GameView {
            session: Session {
                lost: self.session.lost || self.session.health == 0,
                ..self.session
            },
            ..self
        }
    }

    /// The game as the collisions of a running frame find it: after timers,
    /// movement, scrolling and the refresh of the readouts.
    pub open spec fn advanced(self, input: InputView, draws: DrawsView) -> GameView {
        self.timed(input.delta).steered(input.up, input.down, input.delta).scrolled(
            input.delta,
            draws,
        ).refreshed()
    }

    /// The game after a frame that runs.
    pub open spec fn played(self, input: InputView, draws: DrawsView) -> GameView {
        self.advanced(input, draws).after_contacts(input.collisions, draws.contacts).settled()
    }

    /// The game with the key events of a frame applied.
    pub open spec fn keyed(self, keys: Seq<KeyEvent>) -> GameView {
        GameView { session: self.session.after_keys(keys), ..self }
    }

    /// The game after one frame: the keys are applied first, and unless the
    /// session is then paused or lost the frame runs.
    pub open spec fn stepped(self, input: InputView, draws: DrawsView) -> GameView {
        let keyed = self.keyed(input.keys);
        if keyed.session.is_frozen() {
            keyed
        } else {
            keyed.played(input, draws)
        }
    }

    /// What the frame reports: whether it ran, how much health the
    /// collisions took, and whether the session was lost in it.
    pub open spec fn report(self, input: InputView, draws: DrawsView) -> Report {
        let keyed = self.keyed(input.keys);
        if keyed.session.is_frozen() {
            Report { active: false, impacts: 0, game_over: false }
        } else {
            let before = keyed.advanced(input, draws).session.health;
            let after = keyed.played(input, draws).session;
            Report {
                active: true,
                impacts: (before - after.health) as u8,
                game_over: after.lost,
            }
        }
    }
}

impl Game {
    /// Whether the game can take a frame: the session is well-formed.
    pub open spec fn wf(self) -> bool {
        self.session.wf()
    }

    /// Whether a frame with this input runs: once its keys are applied the
    /// session is neither paused nor lost.
    pub open spec fn runs(self, input: InputView) -> bool {
        !self.session.after_keys(input.keys).is_frozen()
    }

    /// Whether the game can take a frame with this input: the session is
    /// well-formed, and if the frame runs none of its collisions names a
    /// collectible that does not exist. A frame that does not run looks at no
    /// collision.
    pub open spec fn takes(self, input: InputView) -> bool {
        &&& self.wf()
        &&& self.runs(input) ==> all_within(input.collisions, self.world.collectibles@.len())
    }

    /// Whether the draws suit a frame with this input: if the frame runs
    /// there is a spot for every obstacle and collectible and a draw for
    /// every collision.
    pub open spec fn accepts(self, input: InputView, draws: DrawsView) -> bool {
        self.runs(input) ==> draws.fits(
            self.world.obstacles@.len(),
            self.world.collectibles@.len(),
            input.collisions.len(),
        )
    }

    /// Starts a session in the given world.
    pub fn new(world: World) -> (game: Game)
        ensures
            game.session == Session::initial(),
            game.world == world,
            game.wf(),
    {
        Game { session: Session::new(), world }
    }

    /// Starts a session in a world with its obstacles, its collectibles and
    /// the buff at random spots.
    pub fn start() -> (game: Game)
        ensures
            game.session == Session::initial(),
            game.wf(),
            exists|obstacles: Seq<Position>, collectibles: Seq<Position>, buff: Position|
                {
                    &&& obstacles.len() == OBSTACLE_COUNT
                    &&& collectibles.len() == COLLECTIBLE_COUNT
                    &&& Band::Near.holds_all(obstacles)
                    &&& Band::Far.holds_all(collectibles)
                    &&& Band::Far.holds(buff)
                    &&& game.world@ == WorldView::arranged(obstacles, collectibles, buff)
                },
    {
        Game::new(World::spawn())
    }

    /// Computes [`Game::takes`].
    pub fn admits(&self, input: &Input) -> (fine: bool)
        ensures
            fine == self.takes(input@),
    {
        if !self.session.is_wf() {
            return false;
        }
        let mut keyed: Session = self.session;
        keyed.handle_keys(&input.keys);
        if keyed.frozen() {
            return true;
        }
        let count: usize = self.world.collectibles.len();
        let mut done: usize = 0;
        while done < input.collisions.len()
            invariant
                done <= input.collisions.len(),
                count == self.world.collectibles@.len(),
                self.wf(),
                self.runs(input@),
                forall|i: int|
                    0 <= i < done ==> (#[trigger] input.collisions@[i]).within(count as nat),
            decreases input.collisions.len() - done,
        {
            if let Contact::Collectible(index) = input.collisions[done].classify() {
                if index >= count {
                    return false;
                }
            }
            done += 1;
        }
        true
    }

    /// Runs the timers for one frame.
    pub fn run_timers(&mut self, delta: u64)
        requires
            old(self).session.consistent(),
        ensures
            final(self)@ == old(self)@.timed(delta),
            final(self).session.consistent(),
    {
        let effects = self.session.advance_timers(delta);
        if effects.invulnerability_ended {
            self.world.player.scale = NORMAL_SCALE;
        }
        if effects.accelerations > 0 {
            self.world.readout.speed = self.session.road_speed;
        }
    }

    /// Moves the player for one frame and takes all health if it leaves the
    /// track.
    pub fn steer(&mut self, up: bool, down: bool, delta: u64)
        requires
            old(self).session.consistent(),
        ensures
            final(self)@ == old(self)@.steered(up, down, delta),
            final(self).session.consistent(),
    {
        let outside: bool = self.world.player.steer(up, down, delta);
        if outside {
            self.session.health = 0;
        }
    }

    /// Applies one collision.
    pub fn resolve(&mut self, collision: Collision, draw: ContactDraw) -> (damaged: bool)
        requires
            old(self).session.consistent(),
            collision.within(old(self).world.collectibles@.len()),
        ensures
            final(self)@ == old(self)@.after_contact(collision, draw),
            final(self).session.consistent(),
            damaged == (collision.contact() == Contact::Hit && old(self)@.vulnerable()),
            final(self).session.health == old(self).session.health - if damaged {
                1int
            } else {
                0int
            },
            final(self).world.obstacles@.len() == old(self).world.obstacles@.len(),
            final(self).world.collectibles@.len() == old(self).world.collectibles@.len(),
    {
        match collision.classify() {
            Contact::Ignored => false,
            Contact::Buff => {
                if draw.roll > ROLL_EDGE {
                    self.session.invulnerability_timer = Timer::once(EFFECT_DURATION);
                    self.session.invulnerable = true;
                    self.world.player.scale = LARGE_SCALE;
                } else {
                    self.session.slow_timer = Timer::once(EFFECT_DURATION);
                    self.session.speed_multiplier = SLOW_FACTOR;
                }
                self.world.buff = draw.spot;
                false
            },
            Contact::Collectible(index) => {
                self.world.collectibles.set(index, draw.spot);
                if self.session.score < u32::MAX {
                    self.session.score += 1;
                }
                false
            },
            Contact::Hit => {
                if !self.session.invulnerable && self.session.health > 0 {
                    self.session.health -= 1;
                    true
                } else {
                    false
                }
            },
        }
    }

    /// Applies the collisions of a frame in the order in which they came and
    /// returns how often the player was damaged.
    pub fn resolve_all(&mut self, collisions: &Vec<Collision>, draws: &Vec<ContactDraw>) -> (impacts:
        u8)
        requires
            old(self).session.consistent(),
            draws.len() == collisions.len(),
            all_within(collisions@, old(self).world.collectibles@.len()),
        ensures
            final(self)@ == old(self)@.after_contacts(collisions@, draws@),
            final(self).session.consistent(),
            impacts == old(self).session.health - final(self).session.health,
            final(self).world.obstacles@.len() == old(self).world.obstacles@.len(),
            final(self).world.collectibles@.len() == old(self).world.collectibles@.len(),
    {
        let mut impacts: u8 = 0;
        let mut done: usize = 0;
        while done < collisions.len()
            invariant
                done <= collisions.len(),
                draws.len() == collisions.len(),
                all_within(collisions@, old(self).world.collectibles@.len()),
                self.world.obstacles@.len() == old(self).world.obstacles@.len(),
                self.world.collectibles@.len() == old(self).world.collectibles@.len(),
                self.session.consistent(),
                self@ == old(self)@.after_contacts(collisions@.take(done as int), draws@),
                impacts == old(self).session.health - self.session.health,
            decreases collisions.len() - done,
        {
            proof {
                let upto = collisions@.take(done + 1);
                assert(upto.drop_last() == collisions@.take(done as int));
                assert(upto.last() == collisions@[done as int]);
            }
            let damaged: bool = self.resolve(collisions[done], draws[done]);
            if damaged {
                impacts += 1;
            }
            done += 1;
        }
        proof {
            assert(collisions@.take(done as int) == collisions@);
        }
        impacts
    }

    /// Runs one frame with the given draws: the keys first, and unless the
    /// session is then paused or lost, the timers, the player, the scrolling,
    /// the readouts, the collisions and the end of the session, in this
    /// order.
    pub fn update_with(&mut self, input: &Input, draws: &Draws) -> (report: Report)
        requires
            old(self).takes(input@),
            old(self).accepts(input@, draws@),
        ensures
            final(self)@ == old(self)@.stepped(input@, draws@),
            report == old(self)@.report(input@, draws@),
            final(self).wf(),
            final(self).world.obstacles@.len() == old(self).world.obstacles@.len(),
            final(self).world.collectibles@.len() == old(self).world.collectibles@.len(),
    {
        self.session.handle_keys(&input.keys);
        if self.session.frozen() {
            return Report { active: false, impacts: 0, game_over: false };
        }
        self.run_timers(input.delta);
        self.steer(input.up, input.down, input.delta);
        self.world.scroll(
            self.session.road_speed,
            self.session.speed_multiplier,
            input.delta,
            draws,
        );
        self.world.readout.score = self.session.score;
        self.world.readout.health = self.session.health;
        let impacts: u8 = self.resolve_all(&input.collisions, &draws.contacts);
        let game_over: bool = self.session.health == 0;
        if game_over {
            self.session.lost = true;
        }
        Report { active: true, impacts, game_over }
    }

    /// Runs one frame with draws from the dice. For a frame that runs, a spot
    /// is drawn for every entity that the frame could recycle and a roll for
    /// every collision, and the frame uses those it needs; for a frame that
    /// does not run nothing is drawn.
    pub fn update(&mut self, input: &Input) -> (report: Report)
        requires
            old(self).takes(input@),
        ensures
            exists|draws: DrawsView|
                {
                    &&& draws.fair()
                    &&& old(self).accepts(input@, draws)
                    &&& final(self)@ == old(self)@.stepped(input@, draws)
                    &&& report == old(self)@.report(input@, draws)
                },
            final(self).wf(),
    {
        let mut keyed: Session = self.session;
        keyed.handle_keys(&input.keys);
        let draws: Draws = if keyed.frozen() {
            draw_nothing()
        } else {
            draw_frame(
                self.world.obstacles.len(),
                self.world.collectibles.len(),
                input.collisions.len(),
            )
        };
        let report: Report = self.update_with(input, &draws);
        proof {
            let drawn = draws@;
            assert(drawn.fair() && old(self).accepts(input@, drawn) && self@ == old(
                self,
            )@.stepped(input@, drawn) && report == old(self)@.report(input@, drawn));
        }
        report
    }
}

/// A frame that finds the session paused or lost once its keys are applied
/// changes nothing in the world: no position, no readout. The session changes
/// only as the keys say, so without a restart health, score, road speed and
/// timers stay as they were, and without any key that counts the whole game
/// does. Such a frame reports nothing.
pub proof fn law_frozen_frame_changes_nothing(game: GameView, input: InputView, draws: DrawsView)
    requires
        game.session.after_keys(input.keys).is_frozen(),
    ensures
        game.stepped(input, draws).world == game.world,
        game.stepped(input, draws).session == game.session.after_keys(input.keys),
        none_restarts(input.keys) ==> game.stepped(input, draws).session == (Session {
            paused: game.stepped(input, draws).session.paused,
            ..game.session
        }),
        all_idle(input.keys) ==> game.stepped(input, draws) == game,
        game.report(input, draws) == (Report { active: false, impacts: 0, game_over: false }),
{
    if none_restarts(input.keys) {
        lemma_keys_only_pause(game.session, input.keys);
    }
    if all_idle(input.keys) {
        lemma_idle_keys_change_nothing(game.session, input.keys);
    }
}

/// The timers of a game do not care how time is cut into frames: two frames
/// leave session, player and readouts as one frame of their joint length
/// does.
pub proof fn law_two_frames_time_like_one(game: GameView, first: u64, second: u64)
    requires
        game.session.consistent(),
        first + second <= u64::MAX,
    ensures
        game.timed(first).timed(second) == game.timed((first + second) as u64),
{
    law_timers_ignore_frame_rate(game.session, first, second);
    lemma_ticks_add_up(game.session.difficulty_timer, first, second);
    lemma_ticks_add_up(game.session.invulnerability_timer, first, second);
}

/// Whole frames raise the road speed as their joint time asks for: after two
/// running frames, the second of which finds the session still alive, road
/// speed and difficulty timer are what one frame of their joint length would
/// have left, whatever the player did and ran into on the way.
pub proof fn law_two_frames_accelerate_like_one(
    game: GameView,
    first: InputView,
    first_draws: DrawsView,
    second: InputView,
    second_draws: DrawsView,
)
    requires
        game.session.consistent(),
        !game.session.is_frozen(),
        all_idle(first.keys),
        all_idle(second.keys),
        !game.stepped(first, first_draws).session.lost,
        first.delta + second.delta <= u64::MAX,
    ensures
        game.stepped(first, first_draws).session.road_speed == game.session.after_timers(
            first.delta,
        ).road_speed,
        game.stepped(first, first_draws).stepped(second, second_draws).session.road_speed
            == game.session.after_timers((first.delta + second.delta) as u64).road_speed,
        game.stepped(first, first_draws).stepped(second, second_draws).session.difficulty_timer
            == game.session.after_timers((first.delta + second.delta) as u64).difficulty_timer,
{
    let once = game.stepped(first, first_draws);
    lemma_idle_keys_change_nothing(game.session, first.keys);
    lemma_contacts_leave_the_rest(
        game.advanced(first, first_draws),
        first.collisions,
        first_draws.contacts,
    );
    lemma_idle_keys_change_nothing(once.session, second.keys);
    lemma_contacts_leave_the_rest(
        once.advanced(second, second_draws),
        second.collisions,
        second_draws.contacts,
    );
    law_timers_ignore_frame_rate(game.session, first.delta, second.delta);
}

/// Moving the player takes all health exactly when the player ends up beyond
/// the edge of the track, invulnerable or not; on the track and on its edge
/// the health stays as it is.
pub proof fn law_track_edge(game: GameView, up: bool, down: bool, delta: u64)
    ensures
        game.steered(up, down, delta).world.player == game.world.player.steered(up, down, delta),
        game.steered(up, down, delta).world.player.off_track() ==> game.steered(
            up,
            down,
            delta,
        ).session.health == 0,
        !game.steered(up, down, delta).world.player.off_track() ==> game.steered(
            up,
            down,
            delta,
        ).session.health == game.session.health,
        game.steered(up, down, delta).world.player.off_track() <==> {
            ||| game.steered(up, down, delta).world.player.position.y > TRACK_HALF_HEIGHT
            ||| game.steered(up, down, delta).world.player.position.y < -TRACK_HALF_HEIGHT
        },
{
}

/// Picking up a collectible raises the score by exactly one and moves that
/// collectible to the drawn spot. Every other collectible, the obstacles, the
/// road markers, the buff, the player and the health stay as they are.
pub proof fn law_pickup_moves_one_collectible(
    game: GameView,
    collision: Collision,
    draw: ContactDraw,
    index: usize,
)
    requires
        collision.contact() == Contact::Collectible(index),
        index < game.world.collectibles.len(),
        game.session.score < u32::MAX,
    ensures
        game.after_contact(collision, draw).session == (Session {
            score: (game.session.score + 1) as u32,
            ..game.session
        }),
        game.after_contact(collision, draw).world == (WorldView {
            collectibles: game.after_contact(collision, draw).world.collectibles,
            ..game.world
        }),
        game.after_contact(collision, draw).world.collectibles.len()
            == game.world.collectibles.len(),
        game.after_contact(collision, draw).world.collectibles[index as int] == draw.spot,
        forall|other: int|
            0 <= other < game.world.collectibles.len() && other != index ==> game.after_contact(
                collision,
                draw,
            ).world.collectibles[other] == game.world.collectibles[other],
{
}

/// A running frame in which no time passes, nothing is behind its edge and
/// the player touches one collectible raises the score by exactly one, keeps
/// the health, and puts that collectible at the spot drawn for it, which
/// lies in the far band when the draws are fair. Every other collectible,
/// the obstacles, the road markers, the buff and the player stay where they
/// are.
pub proof fn law_pickup_frame_moves_one_collectible(
    game: GameView,
    input: InputView,
    draws: DrawsView,
    index: usize,
)
    requires
        game.session.wf(),
        !game.session.is_frozen(),
        all_idle(input.keys),
        input.delta == 0,
        !game.world.player.off_track(),
        game.world.in_view(),
        input.collisions.len() == 1,
        input.collisions[0].contact() == Contact::Collectible(index),
        index < game.world.collectibles.len(),
        draws.fair(),
        draws.contacts.len() == 1,
        game.session.score < u32::MAX,
    ensures
        game.stepped(input, draws).session.score == game.session.score + 1,
        game.stepped(input, draws).session.health == game.session.health,
        game.stepped(input, draws).session.lost == game.session.lost,
        game.stepped(input, draws).world.collectibles == game.world.collectibles.update(
            index as int,
            draws.contacts[0].spot,
        ),
        Band::Far.holds(game.stepped(input, draws).world.collectibles[index as int]),
        forall|other: int|
            0 <= other < game.world.collectibles.len() && other != index ==> game.stepped(
                input,
                draws,
            ).world.collectibles[other] == game.world.collectibles[other],
        game.stepped(input, draws).world.obstacles == game.world.obstacles,
        game.stepped(input, draws).world.road_markers == game.world.road_markers,
        game.stepped(input, draws).world.buff == game.world.buff,
        game.stepped(input, draws).world.player.position == game.world.player.position,
{
    lemma_idle_keys_change_nothing(game.session, input.keys);
    lemma_timers_keep_consistent(game.session, 0);
    let timed = game.timed(0);
    let steered = timed.steered(input.up, input.down, 0);
    assert(distance(PLAYER_SPEED as int, 0) == 0);
    assert(direction(input.up, input.down) * 0 == 0);
    assert(steered.world.player.position == game.world.player.position);
    let road_speed = steered.session.road_speed as int;
    let multiplier = steered.session.speed_multiplier as int;
    let plain = effective_speed(road_speed, PLAIN_FACTOR as int, multiplier);
    let fast = effective_speed(road_speed, FAST_FACTOR as int, multiplier);
    assert(distance(plain, 0) == 0) by {
        assert(plain * 0 == 0);
    }
    assert(distance(fast, 0) == 0) by {
        assert(fast * 0 == 0);
    }
    let scrolled = steered.scrolled(0, draws);
    assert(scrolled.world.road_markers =~= game.world.road_markers);
    assert(scrolled.world.obstacles =~= game.world.obstacles);
    assert(scrolled.world.collectibles =~= game.world.collectibles);
    let advanced = game.advanced(input, draws);
    assert(advanced == scrolled.refreshed());
    assert(input.collisions.drop_last().len() == 0);
    assert(advanced.after_contacts(input.collisions.drop_last(), draws.contacts) == advanced);
    assert(input.collisions.last() == input.collisions[0]);
}

/// Running into an obstacle never costs an invulnerable player health. It
/// costs a player who is not invulnerable and has health left exactly one,
/// and a player without health nothing. Nothing else changes.
pub proof fn law_hit_costs_one_health(game: GameView, collision: Collision, draw: ContactDraw)
    requires
        collision.contact() == Contact::Hit,
    ensures
        game.session.invulnerable ==> game.after_contact(collision, draw) == game,
        game.session.health == 0 ==> game.after_contact(collision, draw) == game,
        !game.session.invulnerable && game.session.health > 0 ==> game.after_contact(
            collision,
            draw,
        ) == (GameView {
            session: Session { health: (game.session.health - 1) as u8, ..game.session },
            ..game
        }),
{
}

/// Collisions never raise the health, never lower the score, and leave the
/// pause, the lost flag, the road speed, the difficulty timer, the road
/// markers, the obstacles and the readouts alone.
pub proof fn lemma_contacts_leave_the_rest(
    game: GameView,
    collisions: Seq<Collision>,
    draws: Seq<ContactDraw>,
)
    ensures
        game.after_contacts(collisions, draws).session.health <= game.session.health,
        game.after_contacts(collisions, draws).session.score >= game.session.score,
        game.after_contacts(collisions, draws).session.paused == game.session.paused,
        game.after_contacts(collisions, draws).session.lost == game.session.lost,
        game.after_contacts(collisions, draws).session.road_speed == game.session.road_speed,
        game.after_contacts(collisions, draws).session.difficulty_timer
            == game.session.difficulty_timer,
        game.after_contacts(collisions, draws).world.road_markers == game.world.road_markers,
        game.after_contacts(collisions, draws).world.obstacles == game.world.obstacles,
        game.after_contacts(collisions, draws).world.readout == game.world.readout,
    decreases collisions.len(),
{
    if collisions.len() > 0 {
        lemma_contacts_leave_the_rest(game, collisions.drop_last(), draws);
    }
}

/// Collisions keep a consistent session consistent and the number of
/// collectibles as it is.
pub proof fn lemma_contacts_keep_consistent(
    game: GameView,
    collisions: Seq<Collision>,
    draws: Seq<ContactDraw>,
)
    requires
        game.session.consistent(),
        all_within(collisions, game.world.collectibles.len()),
    ensures
        game.after_contacts(collisions, draws).session.consistent(),
        game.after_contacts(collisions, draws).world.collectibles.len()
            == game.world.collectibles.len(),
    decreases collisions.len(),
{
    if collisions.len() > 0 {
        let earlier = collisions.drop_last();
        assert forall|i: int| 0 <= i < earlier.len() implies (#[trigger] earlier[i]).within(
            game.world.collectibles.len(),
        ) by {
            assert(earlier[i] == collisions[i]);
        }
        lemma_contacts_keep_consistent(game, earlier, draws);
        assert(collisions.last() == collisions[collisions.len() - 1]);
    }
}

/// A frame leaves a well-formed session well-formed, and reports the end of
/// the game exactly when the frame ran and ended without health. Unless a
/// key restarts the session the road never gets slower.
pub proof fn law_frame_keeps_session_sound(game: GameView, input: InputView, draws: DrawsView)
    requires
        game.session.wf(),
        !game.session.after_keys(input.keys).is_frozen() ==> all_within(
            input.collisions,
            game.world.collectibles.len(),
        ),
    ensures
        game.stepped(input, draws).session.wf(),
        game.report(input, draws).game_over <==> game.report(input, draws).active && game.stepped(
            input,
            draws,
        ).session.health == 0,
        game.report(input, draws).game_over ==> game.stepped(input, draws).session.lost,
        game.report(input, draws).impacts <= FULL_HEALTH,
        none_restarts(input.keys) ==> game.stepped(input, draws).session.road_speed
            >= game.session.road_speed,
{
    let keyed = game.keyed(input.keys);
    lemma_keys_keep_wf(game.session, input.keys);
    if none_restarts(input.keys) {
        lemma_keys_only_pause(game.session, input.keys);
    }
    if !keyed.session.is_frozen() {
        lemma_timers_keep_consistent(keyed.session, input.delta);
        let advanced = keyed.advanced(input, draws);
        assert(advanced.world.collectibles.len() == game.world.collectibles.len());
        lemma_contacts_keep_consistent(advanced, input.collisions, draws.contacts);
        lemma_contacts_leave_the_rest(advanced, input.collisions, draws.contacts);
    }
}

/// The end of the game is reported once. The frame that reports it leaves
/// the session lost and without health, and every later frame without a
/// restart among its keys does not run: it reports nothing, and leaves the
/// world, the health and the score as they are.
pub proof fn law_game_over_once(
    game: GameView,
    input: InputView,
    draws: DrawsView,
    later: InputView,
    later_draws: DrawsView,
)
    requires
        game.report(input, draws).game_over,
        none_restarts(later.keys),
    ensures
        !game.session.after_keys(input.keys).lost,
        game.stepped(input, draws).session.lost,
        game.stepped(input, draws).session.health == 0,
        game.stepped(input, draws).report(later, later_draws) == (Report {
            active: false,
            impacts: 0,
            game_over: false,
        }),
        game.stepped(input, draws).stepped(later, later_draws).world == game.stepped(
            input,
            draws,
        ).world,
        game.stepped(input, draws).stepped(later, later_draws).session == (Session {
            paused: game.stepped(input, draws).stepped(later, later_draws).session.paused,
            ..game.stepped(input, draws).session
        }),
{
    let ended = game.stepped(input, draws);
    lemma_contacts_leave_the_rest(
        game.keyed(input.keys).advanced(input, draws),
        input.collisions,
        draws.contacts,
    );
    lemma_keys_only_pause(ended.session, later.keys);
    law_frozen_frame_changes_nothing(ended, later, later_draws);
}

} // verus!
