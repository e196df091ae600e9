//! The game: its three states, what input and time do to them, and what
//! the loop around it has to do in answer.
//!
//! The game performs no side effect itself. Each step hands back the
//! effects that the caller owes: a sound to start, a high score to store,
//! the end of the process.

use crate::player::{
    lemma_update_in_columns, spec_jump, spec_update, Outcome, PlayerBody,
};
use crate::score::ScoreTracker;
use crate::timer::{ArmedWindow, Cooldown};
use crate::tuning::{BOOST_CUE_COOLDOWN_MS, FRAME_TIME_MS, START_X, START_Y};
use crate::world::{TileWorld, WorldView};
use vstd::prelude::*;

verus! {

/// Where the game stands.
#[derive(Clone, Copy, Debug, PartialEq, Eq, Structural)]
pub enum State {
    /// The title screen, before the first run.
    Splash,
    /// A run is under way.
    Running,
    /// The run has ended; its score is on display.
    GameOver,
}

/// What the person at the keyboard asks for.
#[derive(Clone, Copy, Debug, PartialEq, Eq, Structural)]
pub enum Input {
    /// Leave the game: the escape key, or the window being closed.
    Quit,
    /// The action key has gone down: start, jump, or start again.
    Confirm,
    /// The action key is still down: during a run, keep jumping.
    Hold,
}

/// A sound to start.
#[derive(Clone, Copy, Debug, PartialEq, Eq, Structural)]
pub enum Cue {
    Boost,
    Death,
}

/// What the caller owes after a step of the game.
#[derive(Clone, Copy, Debug, PartialEq, Eq, Structural)]
pub struct Effects {
    /// The process is to end, after the high score has been stored.
    pub exit: bool,
    /// The high score to store, if any.
    pub save: Option<u64>,
    /// The sound to start, if any. Nobody waits for it to end.
    pub cue: Option<Cue>,
}

/// What a game holds.
pub struct GameView {
    pub state: State,
    pub tracker: ScoreTracker,
    pub player: PlayerBody,
    pub world: WorldView,
    pub boost_cue: Cooldown,
}

/// A game after a step, and what the caller owes for it.
pub struct Stepped {
    pub game: GameView,
    pub effects: Effects,
}

/// No effect at all.
pub open spec fn no_effects() -> Effects {
    Effects { exit: false, save: None, cue: None }
}

/// The player that a run starts with at `now`.
pub open spec fn fresh_player(now: u64) -> PlayerBody {
    PlayerBody {
        x: START_X,
        y: START_Y,
        velocity: 0,
        on_ground: false,
        jump: ArmedWindow { armed: false, since: now },
    }
}

impl GameView {
    /// The world is well formed and the player stands inside the playable
    /// columns.
    pub open spec fn wf(self) -> bool {
        self.world.wf() && self.player.wf()
    }

    /// The game after the action key has gone down at `now`: a run starts
    /// from the title screen with the score at 0; during a run the player
    /// is asked to jump; after a run the next one starts, with the score at
    /// 0, a fresh player and the world rewound.
    pub open spec fn confirmed(self, now: u64) -> GameView {
        match self.state {
            State::Splash => GameView {
                state: State::Running,
                tracker: self.tracker.restarted(),
                ..self
            },
            State::Running => GameView { player: spec_jump(self.player, now), ..self },
            State::GameOver => GameView {
                state: State::Running,
                tracker: self.tracker.restarted(),
                player: fresh_player(now),
                world: self.world.rewound(),
                ..self
            },
        }
    }

    /// The game after an input at `now`.
    ///
    /// Quitting changes nothing and asks for the record to be stored before
    /// the process ends. The action key going down acts as `confirmed`
    /// says. The action key staying down asks the player to jump during a
    /// run and does nothing on the two screens.
    pub open spec fn after_input(self, input: Input, now: u64) -> Stepped {
        match input {
            Input::Quit => Stepped {
                game: self,
                effects: Effects { exit: true, save: Some(self.tracker.record()), cue: None },
            },
            Input::Confirm => Stepped { game: self.confirmed(now), effects: no_effects() },
            Input::Hold => Stepped {
                game: if self.state == State::Running {
                    GameView { player: spec_jump(self.player, now), ..self }
                } else {
                    self
                },
                effects: no_effects(),
            },
        }
    }

    /// The game after a tick at `now`, with `choice` as the caller's wish
    /// for the page that scrolls in next.
    ///
    /// Only a run ticks. The player is advanced over the world at its
    /// scroll offset. A dead player ends the run: the high score becomes
    /// the record, which is to be stored, and the death sound is due. A
    /// boost asks for the boost sound, unless the last one is less than the
    /// cooldown ago. A quiet tick scrolls the world on and counts one
    /// point.
    pub open spec fn after_tick(self, now: u64, choice: Option<u32>) -> Stepped {
        if self.state != State::Running {
            Stepped { game: self, effects: no_effects() }
        } else {
            let ticked = spec_update(self.player, self.world, self.world.scroll);
            match ticked.outcome {
                Outcome::Dead => Stepped {
                    game: GameView {
                        state: State::GameOver,
                        tracker: self.tracker.settled(),
                        player: ticked.player,
                        ..self
                    },
                    effects: Effects {
                        exit: false,
                        save: Some(self.tracker.record()),
                        cue: Some(Cue::Death),
                    },
                },
                Outcome::Boost => {
                    if self.boost_cue.spec_is_ready(now, BOOST_CUE_COOLDOWN_MS) {
                        Stepped {
                            game: GameView {
                                player: ticked.player,
                                boost_cue: Cooldown { last: now },
                                ..self
                            },
                            effects: Effects { exit: false, save: None, cue: Some(Cue::Boost) },
                        }
                    } else {
                        Stepped {
                            game: GameView { player: ticked.player, ..self },
                            effects: no_effects(),
                        }
                    }
                },
                Outcome::Nothing => Stepped {
                    game: GameView {
                        player: ticked.player,
                        world: self.world.scrolled(choice),
                        tracker: self.tracker.counted(),
                        ..self
                    },
                    effects: no_effects(),
                },
            }
        }
    }
}

/// The time to wait before the next tick when the last one took
/// `elapsed_ms`: what is left of the budget of one tick, in milliseconds.
pub open spec fn spec_frame_delay(elapsed_ms: u64) -> u64 {
    if elapsed_ms < FRAME_TIME_MS {
        (FRAME_TIME_MS - elapsed_ms) as u64
    } else {
        0
    }
}

/// The time to wait before the next tick: see `spec_frame_delay`.
pub fn frame_delay(elapsed_ms: u64) -> (wait_ms: u64)
    ensures
        wait_ms == spec_frame_delay(elapsed_ms),
{
    if elapsed_ms < FRAME_TIME_MS {
        FRAME_TIME_MS - elapsed_ms
    } else {
        0
    }
}

/// The game.
pub struct Game {
    state: State,
    tracker: ScoreTracker,
    player: PlayerBody,
    world: TileWorld,
    boost_cue: Cooldown,
}

impl View for Game {
    type V = GameView;

    closed spec fn view(&self) -> GameView {
        GameView {
            state: self.state,
            tracker: self.tracker,
            player: self.player,
            world: self.world@,
            boost_cue: self.boost_cue,
        }
    }
}

impl Game {
    /// See `GameView::wf`.
    pub open spec fn wf(&self) -> bool {
        self@.wf()
    }

    /// A game on its title screen at `now`, over `world`, with the high
    /// score that was loaded.
    pub fn new(world: TileWorld, highscore: u64, now: u64) -> (game: Game)
        requires
            world.wf(),
        ensures
            game.wf(),
            game@ == (GameView {
                state: State::Splash,
                tracker: ScoreTracker { score: 0, highscore },
                player: fresh_player(now),
                world: world@,
                boost_cue: Cooldown { last: now },
            }),
    {
        Game {
            state: State::Splash,
            tracker: ScoreTracker::new(highscore),
            player: PlayerBody::new(now),
            world,
            boost_cue: Cooldown::started(now),
        }
    }

    /// Where the game stands.
    pub fn state(&self) -> (state: State)
        ensures
            state == self@.state,
    {
        self.state
    }

    /// The score of the run.
    pub fn score(&self) -> (score: u64)
        ensures
            score == self@.tracker.score,
    {
        self.tracker.score
    }

    /// The high score.
    pub fn highscore(&self) -> (highscore: u64)
        ensures
            highscore == self@.tracker.highscore,
    {
        self.tracker.highscore
    }

    /// The player.
    pub fn player(&self) -> (player: PlayerBody)
        ensures
            player == self@.player,
    {
        self.player
    }

    /// The world.
    pub fn world(&self) -> (world: &TileWorld)
        ensures
            world@ == self@.world,
    {
        &self.world
    }

    /// Handles an input at `now`: see `GameView::after_input`.
    pub fn handle_input(&mut self, input: Input, now: u64) -> (effects: Effects)
        requires
            old(self).wf(),
        ensures
            final(self).wf(),
            final(self)@ == old(self)@.after_input(input, now).game,
            effects == old(self)@.after_input(input, now).effects,
    {
        match input {
            Input::Quit => Effects { exit: true, save: Some(self.tracker.best()), cue: None },
            Input::Confirm => {
                match self.state {
                    State::Splash => {
                        self.state = State::Running;
                        self.tracker.restart();
                    },
                    State::Running => {
                        self.player.jump(now);
                    },
                    State::GameOver => {
                        self.state = State::Running;
                        self.tracker.restart();
                        self.player = PlayerBody::new(now);
                        self.world.rewind();
                    },
                }
                Effects { exit: false, save: None, cue: None }
            },
            Input::Hold => {
                match self.state {
                    State::Running => {
                        self.player.jump(now);
                    },
                    _ => {},
                }
                Effects { exit: false, save: None, cue: None }
            },
        }
    }

    /// Advances the game by one tick at `now`: see `GameView::after_tick`.
    pub fn tick(&mut self, now: u64, choice: Option<u32>) -> (effects: Effects)
        requires
            old(self).wf(),
        ensures
            final(self).wf(),
            final(self)@ == old(self)@.after_tick(now, choice).game,
            effects == old(self)@.after_tick(now, choice).effects,
    {
        match self.state {
            State::Running => {},
            _ => {
                return Effects { exit: false, save: None, cue: None };
            },
        }
        let horizontal_shift = self.world.scroll_offset();
        match self.player.update(&self.world, horizontal_shift) {
            Outcome::Dead => {
                let record = self.tracker.settle();
                self.state = State::GameOver;
                Effects { exit: false, save: Some(record), cue: Some(Cue::Death) }
            },
            Outcome::Boost => {
                if self.boost_cue.try_fire(now, BOOST_CUE_COOLDOWN_MS) {
                    Effects { exit: false, save: None, cue: Some(Cue::Boost) }
                } else {
                    Effects { exit: false, save: None, cue: None }
                }
            },
            Outcome::Nothing => {
                self.world.scroll_forward(choice);
                self.tracker.count();
                Effects { exit: false, save: None, cue: None }
            },
        }
    }
}

/// Death ends the run. A tick of a run in which the player dies leaves the
/// game over, with the record as its high score; the record is to be
/// stored and the death sound is due.
pub proof fn lemma_death_ends_the_run(game: GameView, now: u64, choice: Option<u32>)
    requires
        game.state == State::Running,
        spec_update(game.player, game.world, game.world.scroll).outcome == Outcome::Dead,
    ensures
        game.after_tick(now, choice).game.state == State::GameOver,
        game.after_tick(now, choice).game.tracker.highscore == game.tracker.record(),
        game.after_tick(now, choice).game.tracker.score == game.tracker.score,
        game.after_tick(now, choice).effects == (Effects {
            exit: false,
            save: Some(game.tracker.record()),
            cue: Some(Cue::Death),
        }),
{
}

/// A boost sounds at most once per cooldown. A tick of a run in which the
/// player is boosted asks for the boost sound exactly when more than the
/// cooldown has passed since the last one, and then the cooldown counts
/// from that tick; score and scroll offset stay as they are.
pub proof fn lemma_boost_sounds_once(game: GameView, now: u64, choice: Option<u32>)
    requires
        game.state == State::Running,
        spec_update(game.player, game.world, game.world.scroll).outcome == Outcome::Boost,
    ensures
        ({
            let after = game.after_tick(now, choice);
            let ready = game.boost_cue.spec_is_ready(now, BOOST_CUE_COOLDOWN_MS);
            &&& after.effects.cue == (if ready {
                Some(Cue::Boost)
            } else {
                None
            })
            &&& after.game.boost_cue == (if ready {
                Cooldown { last: now }
            } else {
                game.boost_cue
            })
            &&& ready ==> !after.game.boost_cue.spec_is_ready(now, BOOST_CUE_COOLDOWN_MS)
            &&& after.game.state == State::Running
            &&& after.game.tracker == game.tracker
            &&& after.game.world == game.world
        }),
{
}

/// The high score never falls. No input changes it and no tick lowers it,
/// and whatever a step asks to be stored is at least the high score and at
/// least the score of the run.
pub proof fn lemma_record_never_falls(
    game: GameView,
    input: Input,
    now: u64,
    choice: Option<u32>,
)
    ensures
        game.after_input(input, now).game.tracker.highscore == game.tracker.highscore,
        game.after_tick(now, choice).game.tracker.highscore >= game.tracker.highscore,
        game.after_input(input, now).effects.save matches Some(value) ==> value
            >= game.tracker.highscore && value >= game.tracker.score,
        game.after_tick(now, choice).effects.save matches Some(value) ==> value
            >= game.tracker.highscore && value >= game.tracker.score,
{
}

/// Every step keeps the game well formed.
pub proof fn lemma_steps_keep_wf(game: GameView, input: Input, now: u64, choice: Option<u32>)
    requires
        game.wf(),
    ensures
        game.after_input(input, now).game.wf(),
        game.after_tick(now, choice).game.wf(),
{
    lemma_update_in_columns(game.player, game.world, game.world.scroll);
}

} // verus!
