//! The player's body: where it is, how it falls and jumps, and what the
//! terrain does to it on each tick.
//!
//! Positions and the velocity are whole numbers of sub-pixels, so a tick is
//! exact arithmetic. Sums that leave the range of `i32` stop at its ends.

use crate::tile::TileClass;
use crate::timer::ArmedWindow;
use crate::tuning::{
    BONUS_CLOSES_MS, BONUS_OPENS_MS, BOOST_PUSH, DRIFT, FLOOR_MARGIN, GRAVITY_PER_SUBSTEP, HEIGHT,
    JUMP_BONUS, JUMP_IMPULSE, LIFE_STEP, MAX_X, MIN_PLAYER_X, PLAYER_SIZE, START_X, START_Y,
    SUBPIXELS, SUBSTEPS,
};
use crate::world::{TileWorld, WorldView};
use vstd::prelude::*;

verus! {

/// What a tick did to the player.
#[derive(Clone, Copy, Debug, PartialEq, Eq, Structural)]
pub enum Outcome {
    /// The player moved on, or stood still at the left edge.
    Nothing,
    /// The player landed on a boost tile and was pushed forward.
    Boost,
    /// The player fell out of the frame or landed beside a hazard.
    Dead,
}

/// The player's body.
#[derive(Clone, Copy, Debug, PartialEq, Eq, Structural)]
pub struct PlayerBody {
    /// Left edge of the bounding box, in sub-pixels.
    pub x: i32,
    /// Top edge of the bounding box, in sub-pixels.
    pub y: i32,
    /// Vertical velocity in sub-pixels per tick; positive is downward.
    pub velocity: i32,
    /// Whether the body stands on the ground: set by the sub-step that
    /// lands it, cleared by a free sub-step and by the start of a jump.
    pub on_ground: bool,
    /// The jump buffer: armed when a jump starts, spent by the bonus.
    pub jump: ArmedWindow,
}

/// A player after a tick, and what the tick did to it.
pub struct Ticked {
    pub player: PlayerBody,
    pub outcome: Outcome,
}

/// The nearest value to `v` that an `i32` holds.
pub open spec fn clamp_i32(v: int) -> int {
    if v > i32::MAX {
        i32::MAX as int
    } else if v < i32::MIN {
        i32::MIN as int
    } else {
        v
    }
}

/// The quotient of `v` by `n`, rounded towards zero.
pub open spec fn toward_zero(v: int, n: int) -> int {
    if v >= 0 {
        v / n
    } else {
        -((-v) / n)
    }
}

/// The pixel that a sub-pixel coordinate lies in; 0 left of or above the
/// origin.
pub open spec fn spec_pixel(sub: int) -> int {
    if sub <= 0 {
        0
    } else {
        sub / (SUBPIXELS as int)
    }
}

/// Whether a corner of the bounding box whose top left pixel is `px`, `py`
/// lies on a tile of class `class`.
pub open spec fn touches(
    world: WorldView,
    scroll: int,
    px: int,
    py: int,
    class: TileClass,
) -> bool {
    ||| world.class_at(px, py, scroll) == class
    ||| world.class_at(px + PLAYER_SIZE, py, scroll) == class
    ||| world.class_at(px, py + PLAYER_SIZE, scroll) == class
    ||| world.class_at(px + PLAYER_SIZE, py + PLAYER_SIZE, scroll) == class
}

/// Whether a corner of the bounding box whose top left pixel is `px`, `py`
/// lies on a tile that stops a falling body.
pub open spec fn blocked(world: WorldView, scroll: int, px: int, py: int) -> bool {
    touches(world, scroll, px, py, TileClass::Solid) || touches(
        world,
        scroll,
        px,
        py,
        TileClass::Boost,
    )
}

/// The player after `remaining` more sub-steps of `fraction` sub-pixels
/// each, and what they did.
///
/// A sub-step tries the next height. Where the body is not rising and a
/// corner would come to lie on a stopping tile, the body stays at its
/// height, comes to rest on the ground and drops its jump; the tick then
/// ends, with a push forward on a boost tile, with death where a corner
/// also touches a hazard, and quietly otherwise. Else the body takes the
/// new height, is in the air, and gains speed downward.
pub open spec fn spec_substeps(
    player: PlayerBody,
    fraction: int,
    world: WorldView,
    scroll: int,
    remaining: nat,
) -> Ticked
    decreases remaining,
{
    if remaining == 0 {
        Ticked { player, outcome: Outcome::Nothing }
    } else {
        let tried = clamp_i32(player.y + fraction);
        let px = spec_pixel(player.x as int);
        let py = spec_pixel(tried);
        if player.velocity >= 0 && blocked(world, scroll, px, py) {
            let landed = PlayerBody {
                velocity: 0,
                on_ground: true,
                jump: ArmedWindow { armed: false, since: player.jump.since },
                ..player
            };
            if touches(world, scroll, px, py, TileClass::Boost) {
                Ticked {
                    player: PlayerBody {
                        x: if landed.x + BOOST_PUSH > MAX_X {
                            MAX_X
                        } else {
                            (landed.x + BOOST_PUSH) as i32
                        },
                        ..landed
                    },
                    outcome: Outcome::Boost,
                }
            } else if touches(world, scroll, px, py, TileClass::Hazard) {
                Ticked { player: landed, outcome: Outcome::Dead }
            } else {
                Ticked { player: landed, outcome: Outcome::Nothing }
            }
        } else {
            spec_substeps(
                PlayerBody {
                    y: tried as i32,
                    on_ground: false,
                    velocity: clamp_i32(player.velocity + GRAVITY_PER_SUBSTEP) as i32,
                    ..player
                },
                fraction,
                world,
                scroll,
                (remaining - 1) as nat,
            )
        }
    }
}

/// The column of a player after the drift of one tick: `DRIFT` sub-pixels
/// to the left, but not beyond the left edge.
pub open spec fn drifted(x: i32) -> i32 {
    if x <= DRIFT {
        0
    } else {
        (x - DRIFT) as i32
    }
}

/// Whether a body whose top edge is at `y` has left the frame at the
/// bottom.
pub open spec fn out_of_frame(y: i32) -> bool {
    spec_pixel(y as int) + PLAYER_SIZE >= HEIGHT - FLOOR_MARGIN
}

/// The player after one tick, and what the tick did.
///
/// The player first loses ground to the left. At the left edge nothing more
/// happens. A body that has left the frame at the bottom is dead. Else the
/// velocity is split into `SUBSTEPS` equal parts, which `spec_substeps`
/// applies one by one.
pub open spec fn spec_update(player: PlayerBody, world: WorldView, scroll: int) -> Ticked {
    let moved = PlayerBody { x: drifted(player.x), ..player };
    if moved.x <= 0 {
        Ticked { player: moved, outcome: Outcome::Nothing }
    } else if out_of_frame(player.y) {
        Ticked { player: moved, outcome: Outcome::Dead }
    } else {
        spec_substeps(
            moved,
            toward_zero(player.velocity as int, SUBSTEPS as int),
            world,
            scroll,
            SUBSTEPS as nat,
        )
    }
}

/// The player after a jump request at `now`.
///
/// On the ground a jump starts: the body gains `JUMP_IMPULSE` upward,
/// leaves the ground, and the jump buffer is armed. In the air, while the
/// buffer is armed and `now` lies inside its window, the body gains
/// `JUMP_BONUS` upward and the buffer is spent. Any other request changes
/// nothing: a jump has one start and at most one bonus.
pub open spec fn spec_jump(player: PlayerBody, now: u64) -> PlayerBody {
    if player.on_ground {
        PlayerBody {
            velocity: clamp_i32(player.velocity - JUMP_IMPULSE) as i32,
            on_ground: false,
            jump: ArmedWindow { armed: true, since: now },
            ..player
        }
    } else if player.jump.spec_is_armed(now, BONUS_OPENS_MS, BONUS_CLOSES_MS) {
        PlayerBody {
            velocity: clamp_i32(player.velocity - JUMP_BONUS) as i32,
            jump: ArmedWindow { armed: false, since: player.jump.since },
            ..player
        }
    } else {
        player
    }
}

/// The lives that a pixel column is worth: none left of the ramp, then one
/// and one more for every `LIFE_STEP` columns of progress.
pub open spec fn spec_lives(px: int) -> int {
    if px < MIN_PLAYER_X {
        0
    } else {
        (px - MIN_PLAYER_X) / (LIFE_STEP as int) + 1
    }
}

/// The sum of `a` and `b`, stopped at the ends of the range of `i32`.
pub fn saturating_sum(a: i32, b: i32) -> (sum: i32)
    ensures
        sum == clamp_i32(a + b),
{
    let wide: i64 = a as i64 + b as i64;
    if wide > i32::MAX as i64 {
        i32::MAX
    } else if wide < i32::MIN as i64 {
        i32::MIN
    } else {
        wide as i32
    }
}

/// The pixel that a sub-pixel coordinate lies in.
pub fn pixel_of(sub: i32) -> (pixel: u32)
    ensures
        pixel == spec_pixel(sub as int),
        pixel <= i32::MAX / SUBPIXELS,
{
    if sub <= 0 {
        0
    } else {
        (sub / SUBPIXELS) as u32
    }
}

/// The four corners of a box: top left, top right, bottom left, bottom
/// right.
pub fn get_corners(coords: (u32, u32), size: (u32, u32)) -> (corners: Vec<(u32, u32)>)
    requires
        coords.0 + size.0 <= u32::MAX,
        coords.1 + size.1 <= u32::MAX,
    ensures
        corners@ == seq![
            (coords.0, coords.1),
            ((coords.0 + size.0) as u32, coords.1),
            (coords.0, (coords.1 + size.1) as u32),
            ((coords.0 + size.0) as u32, (coords.1 + size.1) as u32),
        ],
{
    let (x, y) = coords;
    let (width, height) = size;
    let top_left = (x, y);
    let top_right = (x + width, y);
    let bottom_left = (x, y + height);
    let bottom_right = (x + width, y + height);
    let mut corners: Vec<(u32, u32)> = Vec::new();
    corners.push(top_left);
    corners.push(top_right);
    corners.push(bottom_left);
    corners.push(bottom_right);
    assert(corners@ =~= seq![top_left, top_right, bottom_left, bottom_right]);
    corners
}

/// The terrain under each of `positions`, in their order.
pub fn get_pixels(
    positions: &Vec<(u32, u32)>,
    world: &TileWorld,
    horizontal_shift: u32,
) -> (classes: Vec<TileClass>)
    requires
        world.wf(),
    ensures
        classes.len() == positions.len(),
        forall|i: int|
            0 <= i < positions.len() ==> classes[i] == world@.class_at(
                positions[i].0 as int,
                positions[i].1 as int,
                horizontal_shift as int,
            ),
{
    let mut classes: Vec<TileClass> = Vec::new();
    let mut i: usize = 0;
    while i < positions.len()
        invariant
            world.wf(),
            i <= positions.len(),
            classes.len() == i,
            forall|j: int|
                0 <= j < i ==> classes[j] == world@.class_at(
                    positions[j].0 as int,
                    positions[j].1 as int,
                    horizontal_shift as int,
                ),
        decreases positions.len() - i,
    {
        let (x, y) = positions[i];
        classes.push(world.classify(x, y, horizontal_shift));
        i += 1;
    }
    classes
}

/// Whether `class` occurs among `classes`.
pub fn any_of(classes: &Vec<TileClass>, class: TileClass) -> (found: bool)
    ensures
        found == classes@.contains(class),
{
    let mut i: usize = 0;
    while i < classes.len()
        invariant
            i <= classes.len(),
            forall|j: int| 0 <= j < i ==> classes[j] != class,
        decreases classes.len() - i,
    {
        if classes[i] == class {
            return true;
        }
        i += 1;
    }
    false
}

impl PlayerBody {
    /// The player stands no further right than `MAX_X` and not left of the
    /// left edge.
    pub open spec fn wf(self) -> bool {
        0 <= self.x <= MAX_X
    }

    /// A player at the start of a run: in the air at the starting point, at
    /// rest, with no jump under way.
    pub fn new(now: u64) -> (player: PlayerBody)
        ensures
            player == (PlayerBody {
                x: START_X,
                y: START_Y,
                velocity: 0,
                on_ground: false,
                jump: ArmedWindow { armed: false, since: now },
            }),
            player.wf(),
    {
        PlayerBody {
            x: START_X,
            y: START_Y,
            velocity: 0,
            on_ground: false,
            jump: ArmedWindow::idle(now),
        }
    }

    /// Handles a jump request at `now`: see `spec_jump`.
    pub fn jump(&mut self, now: u64)
        ensures
            *final(self) == spec_jump(*old(self), now),
    {
        if self.on_ground {
            self.on_ground = false;
            self.jump.arm(now);
            self.velocity = saturating_sum(self.velocity, -JUMP_IMPULSE);
        } else if self.jump.is_armed(now, BONUS_OPENS_MS, BONUS_CLOSES_MS) {
            self.velocity = saturating_sum(self.velocity, -JUMP_BONUS);
            self.jump.consume();
        }
    }

    /// Advances the player by one tick over `world` at scroll offset
    /// `horizontal_shift`: see `spec_update`.
    pub fn update(&mut self, world: &TileWorld, horizontal_shift: u32) -> (outcome: Outcome)
        requires
            world.wf(),
        ensures
            *final(self) == spec_update(*old(self), world@, horizontal_shift as int).player,
            outcome == spec_update(*old(self), world@, horizontal_shift as int).outcome,
            old(self).wf() ==> final(self).wf(),
    {
        proof {
            if self.wf() {
                lemma_update_in_columns(*self, world@, horizontal_shift as int);
            }
        }
        let speed_y_fraction: i32 = self.velocity / SUBSTEPS;
        self.x = if self.x <= DRIFT {
            0
        } else {
            self.x - DRIFT
        };
        if self.x <= 0 {
            return Outcome::Nothing;
        }
        if pixel_of(self.y) + PLAYER_SIZE >= HEIGHT - FLOOR_MARGIN {
            return Outcome::Dead;
        }
        let ghost start = *self;
        let ghost goal = spec_substeps(
            start,
            speed_y_fraction as int,
            world@,
            horizontal_shift as int,
            SUBSTEPS as nat,
        );
        let mut step: i32 = 0;
        while step < SUBSTEPS
            invariant
                world.wf(),
                0 <= step <= SUBSTEPS,
                goal == spec_update(*old(self), world@, horizontal_shift as int),
                old(self).wf() ==> goal.player.wf(),
                spec_substeps(
                    *self,
                    speed_y_fraction as int,
                    world@,
                    horizontal_shift as int,
                    (SUBSTEPS - step) as nat,
                ) == goal,
            decreases SUBSTEPS - step,
        {
            let tried: i32 = saturating_sum(self.y, speed_y_fraction);
            let corners = get_corners(
                (pixel_of(self.x), pixel_of(tried)),
                (PLAYER_SIZE, PLAYER_SIZE),
            );
            let pixels = get_pixels(&corners, world, horizontal_shift);
            let on_boost = any_of(&pixels, TileClass::Boost);
            let on_solid = any_of(&pixels, TileClass::Solid);
            let on_hazard = any_of(&pixels, TileClass::Hazard);
            proof {
                lemma_corner_classes(
                    world@,
                    horizontal_shift as int,
                    spec_pixel(self.x as int),
                    spec_pixel(tried as int),
                    pixels@,
                );
            }
            if self.velocity >= 0 && (on_solid || on_boost) {
                self.velocity = 0;
                self.on_ground = true;
                self.jump.consume();
                if on_boost {
                    self.x = if self.x > MAX_X - BOOST_PUSH {
                        MAX_X
                    } else {
                        self.x + BOOST_PUSH
                    };
                    return Outcome::Boost;
                } else if on_hazard {
                    return Outcome::Dead;
                }
                return Outcome::Nothing;
            } else {
                self.y = tried;
                self.on_ground = false;
                self.velocity = saturating_sum(self.velocity, GRAVITY_PER_SUBSTEP);
            }
            step += 1;
        }
        Outcome::Nothing
    }

    /// The lives to show for the player: see `spec_lives`.
    pub fn get_lives(&self) -> (lives: u8)
        requires
            self.wf(),
        ensures
            lives == spec_lives(spec_pixel(self.x as int)),
    {
        let px = pixel_of(self.x);
        if px < MIN_PLAYER_X {
            0
        } else {
            ((px - MIN_PLAYER_X) / LIFE_STEP + 1) as u8
        }
    }
}

/// Something that happens to a player: a jump request, or a tick over some
/// world.
pub enum PlayerEvent {
    Press { now: u64 },
    Tick { world: WorldView, scroll: int },
}

/// The player after an event.
pub open spec fn after_event(player: PlayerBody, event: PlayerEvent) -> PlayerBody {
    match event {
        PlayerEvent::Press { now } => spec_jump(player, now),
        PlayerEvent::Tick { world, scroll } => spec_update(player, world, scroll).player,
    }
}

/// Whether an event starts a jump: a request while the player is on the
/// ground.
pub open spec fn starts_jump(player: PlayerBody, event: PlayerEvent) -> bool {
    event is Press && player.on_ground
}

/// Whether an event grants the bonus impulse: a request in the air while
/// the jump buffer is armed and inside its window.
pub open spec fn grants_bonus(player: PlayerBody, event: PlayerEvent) -> bool {
    &&& event is Press
    &&& !player.on_ground
    &&& player.jump.spec_is_armed(event->now, BONUS_OPENS_MS, BONUS_CLOSES_MS)
}

/// Number of jumps that start while `events` happen to `player` in order.
pub open spec fn jump_starts(player: PlayerBody, events: Seq<PlayerEvent>) -> nat
    decreases events.len(),
{
    if events.len() == 0 {
        0
    } else {
        let rest = jump_starts(after_event(player, events[0]), events.drop_first());
        if starts_jump(player, events[0]) {
            rest + 1
        } else {
            rest
        }
    }
}

/// Number of bonus impulses granted while `events` happen to `player` in
/// order.
pub open spec fn bonuses(player: PlayerBody, events: Seq<PlayerEvent>) -> nat
    decreases events.len(),
{
    if events.len() == 0 {
        0
    } else {
        let rest = bonuses(after_event(player, events[0]), events.drop_first());
        if grants_bonus(player, events[0]) {
            rest + 1
        } else {
            rest
        }
    }
}

/// The player after jump requests at `times`, one after another, with no
/// tick between them.
pub open spec fn after_presses(player: PlayerBody, times: Seq<u64>) -> PlayerBody
    decreases times.len(),
{
    if times.len() == 0 {
        player
    } else {
        after_presses(spec_jump(player, times[0]), times.drop_first())
    }
}

/// The most that jump requests can still add to the upward speed of a body
/// before its next tick: a start and a bonus on the ground, the bonus in
/// the air while the buffer is armed, nothing otherwise.
pub open spec fn impulse_left(player: PlayerBody) -> int {
    if player.on_ground {
        JUMP_IMPULSE + JUMP_BONUS
    } else if player.jump.armed {
        JUMP_BONUS as int
    } else {
        0
    }
}

/// Jump requests do not stack. However many requests follow one another
/// and whatever their times, the body gains no more upward speed than
/// `impulse_left` says: one start impulse and one bonus at the most.
pub proof fn lemma_presses_do_not_stack(player: PlayerBody, times: Seq<u64>)
    ensures
        after_presses(player, times).velocity >= player.velocity - impulse_left(player),
        after_presses(player, times).velocity <= player.velocity,
    decreases times.len(),
{
    if times.len() > 0 {
        lemma_presses_do_not_stack(spec_jump(player, times[0]), times.drop_first());
    }
}

/// Sub-steps never arm the jump buffer, and they leave its instant alone.
pub proof fn lemma_substeps_never_arm(
    player: PlayerBody,
    fraction: int,
    world: WorldView,
    scroll: int,
    remaining: nat,
)
    ensures
        spec_substeps(player, fraction, world, scroll, remaining).player.jump.armed
            ==> player.jump.armed,
        spec_substeps(player, fraction, world, scroll, remaining).player.jump.since
            == player.jump.since,
    decreases remaining,
{
    if remaining > 0 {
        let tried = clamp_i32(player.y + fraction);
        let next = PlayerBody {
            y: tried as i32,
            on_ground: false,
            velocity: clamp_i32(player.velocity + GRAVITY_PER_SUBSTEP) as i32,
            ..player
        };
        lemma_substeps_never_arm(next, fraction, world, scroll, (remaining - 1) as nat);
    }
}

/// The bonus impulse is granted at most once per jump. However many
/// requests and ticks follow one another, and whatever the terrain and the
/// times, no more bonuses are granted than jumps have started, counting one
/// for a jump that was already under way.
pub proof fn lemma_one_bonus_per_jump(player: PlayerBody, events: Seq<PlayerEvent>)
    ensures
        bonuses(player, events) <= jump_starts(player, events) + (if player.jump.armed {
            1nat
        } else {
            0nat
        }),
    decreases events.len(),
{
    if events.len() > 0 {
        let after = after_event(player, events[0]);
        lemma_one_bonus_per_jump(after, events.drop_first());
        match events[0] {
            PlayerEvent::Press { now } => {},
            PlayerEvent::Tick { world, scroll } => {
                lemma_substeps_never_arm(
                    PlayerBody { x: drifted(player.x), ..player },
                    toward_zero(player.velocity as int, SUBSTEPS as int),
                    world,
                    scroll,
                    SUBSTEPS as nat,
                );
            },
        }
    }
}

/// Sub-steps that begin clear of the ground, with a body that is not
/// rising, end clear of the ground in the column they began in, and leave
/// that column only for a boost.
pub proof fn lemma_substeps_keep_clear(
    player: PlayerBody,
    fraction: int,
    world: WorldView,
    scroll: int,
    remaining: nat,
)
    requires
        player.velocity >= 0,
        !blocked(world, scroll, spec_pixel(player.x as int), spec_pixel(player.y as int)),
    ensures
        ({
            let after = spec_substeps(player, fraction, world, scroll, remaining);
            &&& !blocked(
                world,
                scroll,
                spec_pixel(player.x as int),
                spec_pixel(after.player.y as int),
            )
            &&& after.outcome != Outcome::Boost ==> after.player.x == player.x
        }),
    decreases remaining,
{
    if remaining > 0 {
        let tried = clamp_i32(player.y + fraction);
        let px = spec_pixel(player.x as int);
        let py = spec_pixel(tried);
        if !blocked(world, scroll, px, py) {
            let next = PlayerBody {
                y: tried as i32,
                on_ground: false,
                velocity: clamp_i32(player.velocity + GRAVITY_PER_SUBSTEP) as i32,
                ..player
            };
            lemma_substeps_keep_clear(next, fraction, world, scroll, (remaining - 1) as nat);
        }
    }
}

/// Whether a tick leaves the body at the height it has: it stands at the
/// left edge, or its first sub-step is refused.
pub open spec fn held(player: PlayerBody, world: WorldView, scroll: int) -> bool {
    drifted(player.x) <= 0 || blocked(
        world,
        scroll,
        spec_pixel(drifted(player.x) as int),
        spec_pixel(clamp_i32(player.y + toward_zero(player.velocity as int, SUBSTEPS as int))),
    )
}

/// A tick never leaves a body that is not rising inside the ground, unless
/// the body began the tick there and was held. After a tick that the body
/// survives, no corner of it lies on a stopping tile, at the height it has
/// come to and in the column it fell in; and unless the tick ended on a
/// boost tile, that column is where the body is. The same holds of solid
/// tiles alone.
pub proof fn lemma_update_keeps_clear(player: PlayerBody, world: WorldView, scroll: int)
    requires
        player.velocity >= 0,
    ensures
        ({
            let after = spec_update(player, world, scroll);
            let px = spec_pixel(drifted(player.x) as int);
            let was = spec_pixel(player.y as int);
            let is = spec_pixel(after.player.y as int);
            &&& after.outcome != Outcome::Boost ==> after.player.x == drifted(player.x)
            &&& after.outcome != Outcome::Dead && !(held(player, world, scroll) && blocked(
                world,
                scroll,
                px,
                was,
            )) ==> !blocked(world, scroll, px, is)
            &&& after.outcome != Outcome::Dead && !(held(player, world, scroll) && touches(
                world,
                scroll,
                px,
                was,
                TileClass::Solid,
            )) ==> !touches(world, scroll, px, is, TileClass::Solid)
        }),
{
    let moved = PlayerBody { x: drifted(player.x), ..player };
    let fraction = toward_zero(player.velocity as int, SUBSTEPS as int);
    if moved.x > 0 && !out_of_frame(player.y) {
        let tried = clamp_i32(moved.y + fraction);
        let px = spec_pixel(moved.x as int);
        if !blocked(world, scroll, px, spec_pixel(tried)) {
            let next = PlayerBody {
                y: tried as i32,
                on_ground: false,
                velocity: clamp_i32(moved.velocity + GRAVITY_PER_SUBSTEP) as i32,
                ..moved
            };
            lemma_substeps_keep_clear(next, fraction, world, scroll, (SUBSTEPS - 1) as nat);
        }
    }
}

/// A body at rest stays at rest. With no velocity, in the frame and right
/// of the left edge, a body of which a corner lies on solid ground, and
/// none on a boost tile or a hazard, keeps its height through a tick, is on
/// the ground after it, and nothing happens to it.
pub proof fn lemma_rest_on_solid_ground(player: PlayerBody, world: WorldView, scroll: int)
    requires
        player.velocity == 0,
        drifted(player.x) > 0,
        !out_of_frame(player.y),
        touches(
            world,
            scroll,
            spec_pixel(drifted(player.x) as int),
            spec_pixel(player.y as int),
            TileClass::Solid,
        ),
        !touches(
            world,
            scroll,
            spec_pixel(drifted(player.x) as int),
            spec_pixel(player.y as int),
            TileClass::Boost,
        ),
        !touches(
            world,
            scroll,
            spec_pixel(drifted(player.x) as int),
            spec_pixel(player.y as int),
            TileClass::Hazard,
        ),
    ensures
        spec_update(player, world, scroll).outcome == Outcome::Nothing,
        spec_update(player, world, scroll).player.y == player.y,
        spec_update(player, world, scroll).player.velocity == 0,
        spec_update(player, world, scroll).player.on_ground,
{
}

/// A boost pushes the body forward by `BOOST_PUSH`, as far as `MAX_X`, and
/// changes its column in no other way than the drift.
pub proof fn lemma_boost_pushes_forward(player: PlayerBody, world: WorldView, scroll: int)
    requires
        spec_update(player, world, scroll).outcome == Outcome::Boost,
    ensures
        spec_update(player, world, scroll).player.x == (if drifted(player.x) + BOOST_PUSH > MAX_X {
            MAX_X as int
        } else {
            drifted(player.x) + BOOST_PUSH
        }),
        spec_update(player, world, scroll).player.velocity == 0,
        spec_update(player, world, scroll).player.on_ground,
{
    lemma_substeps_boost(
        PlayerBody { x: drifted(player.x), ..player },
        toward_zero(player.velocity as int, SUBSTEPS as int),
        world,
        scroll,
        SUBSTEPS as nat,
    );
}

/// Sub-steps that end on a boost tile have pushed the body forward once.
proof fn lemma_substeps_boost(
    player: PlayerBody,
    fraction: int,
    world: WorldView,
    scroll: int,
    remaining: nat,
)
    requires
        spec_substeps(player, fraction, world, scroll, remaining).outcome == Outcome::Boost,
    ensures
        spec_substeps(player, fraction, world, scroll, remaining).player.x == (if player.x
            + BOOST_PUSH > MAX_X {
            MAX_X as int
        } else {
            player.x + BOOST_PUSH
        }),
        spec_substeps(player, fraction, world, scroll, remaining).player.velocity == 0,
        spec_substeps(player, fraction, world, scroll, remaining).player.on_ground,
    decreases remaining,
{
    if remaining > 0 {
        let tried = clamp_i32(player.y + fraction);
        let next = PlayerBody {
            y: tried as i32,
            on_ground: false,
            velocity: clamp_i32(player.velocity + GRAVITY_PER_SUBSTEP) as i32,
            ..player
        };
        let px = spec_pixel(player.x as int);
        if !(player.velocity >= 0 && blocked(world, scroll, px, spec_pixel(tried))) {
            lemma_substeps_boost(next, fraction, world, scroll, (remaining - 1) as nat);
        }
    }
}

/// The height of a body after `k` free sub-steps of `fraction` each.
pub open spec fn height_after(y: int, fraction: int, k: nat) -> int {
    clamp_i32(y + k * fraction)
}

/// The velocity of a body after `k` free sub-steps.
pub open spec fn velocity_after(velocity: int, k: nat) -> int {
    clamp_i32(velocity + k * GRAVITY_PER_SUBSTEP)
}

/// Whether sub-step number `k` of a tick, counted from 0, is refused when
/// all before it were free: by then the body is not rising, and the height
/// it would take has a corner on a stopping tile.
pub open spec fn refused(
    player: PlayerBody,
    fraction: int,
    world: WorldView,
    scroll: int,
    k: nat,
) -> bool {
    velocity_after(player.velocity as int, k) >= 0 && blocked(
        world,
        scroll,
        spec_pixel(player.x as int),
        spec_pixel(height_after(player.y as int, fraction, k + 1)),
    )
}

/// Steps of one sign add up: stopping at the ends of the range after every
/// step gives what stopping once at the end gives.
proof fn lemma_clamped_steps(start: int, step: int, k: nat)
    requires
        i32::MIN <= start <= i32::MAX,
    ensures
        clamp_i32(clamp_i32(start + step) + k * step) == clamp_i32(start + (k + 1) * step),
{
    assert((k + 1) * step == k * step + step) by (nonlinear_arith);
    if step >= 0 {
        assert(k * step >= 0) by (nonlinear_arith)
            requires
                step >= 0,
                k >= 0,
        ;
    } else {
        assert(k * step <= 0) by (nonlinear_arith)
            requires
                step < 0,
                k >= 0,
        ;
    }
}

/// No step leaves a value where it is, and one step is one step.
proof fn lemma_first_steps(start: int, step: int)
    requires
        i32::MIN <= start <= i32::MAX,
    ensures
        clamp_i32(start + 0 * step) == start,
        clamp_i32(start + 1 * step) == clamp_i32(start + step),
{
    assert(0 * step == 0) by (nonlinear_arith);
    assert(1 * step == step) by (nonlinear_arith);
}

/// A tick without a refusal is free flight. If none of `n` sub-steps is
/// refused, the body ends `n` fractions further, `n` times the gravity
/// faster, in the air, and nothing has happened.
pub proof fn lemma_free_substeps(
    player: PlayerBody,
    fraction: int,
    world: WorldView,
    scroll: int,
    n: nat,
)
    requires
        forall|k: nat| k < n ==> !#[trigger] refused(player, fraction, world, scroll, k),
    ensures
        spec_substeps(player, fraction, world, scroll, n) == (Ticked {
            player: PlayerBody {
                y: height_after(player.y as int, fraction, n) as i32,
                velocity: velocity_after(player.velocity as int, n) as i32,
                on_ground: n == 0 && player.on_ground,
                ..player
            },
            outcome: Outcome::Nothing,
        }),
    decreases n,
{
    lemma_first_steps(player.y as int, fraction);
    lemma_first_steps(player.velocity as int, GRAVITY_PER_SUBSTEP as int);
    if n > 0 {
        let next = PlayerBody {
            y: clamp_i32(player.y + fraction) as i32,
            on_ground: false,
            velocity: clamp_i32(player.velocity + GRAVITY_PER_SUBSTEP) as i32,
            ..player
        };
        assert(!refused(player, fraction, world, scroll, 0));
        assert forall|k: nat| k < n - 1 implies !#[trigger] refused(
            next,
            fraction,
            world,
            scroll,
            k,
        ) by {
            lemma_clamped_steps(player.y as int, fraction, k + 1);
            lemma_clamped_steps(player.velocity as int, GRAVITY_PER_SUBSTEP as int, k);
            assert(!refused(player, fraction, world, scroll, k + 1));
        }
        lemma_free_substeps(next, fraction, world, scroll, (n - 1) as nat);
        lemma_clamped_steps(player.y as int, fraction, (n - 1) as nat);
        lemma_clamped_steps(player.velocity as int, GRAVITY_PER_SUBSTEP as int, (n - 1) as nat);
    }
}

/// A tick stops at its first refusal. If sub-step number `k` of `n` is the
/// first that is refused, the body comes to rest at the height that `k`
/// fractions have brought it to, on the ground, with its jump dropped; what
/// happens then is decided by the tiles under the height that was refused.
pub proof fn lemma_substeps_stop_at_first_refusal(
    player: PlayerBody,
    fraction: int,
    world: WorldView,
    scroll: int,
    n: nat,
    k: nat,
)
    requires
        k < n,
        refused(player, fraction, world, scroll, k),
        forall|j: nat| j < k ==> !#[trigger] refused(player, fraction, world, scroll, j),
    ensures
        ({
            let after = spec_substeps(player, fraction, world, scroll, n);
            let px = spec_pixel(player.x as int);
            let py = spec_pixel(height_after(player.y as int, fraction, k + 1));
            &&& after.player.y == height_after(player.y as int, fraction, k)
            &&& after.player.velocity == 0
            &&& after.player.on_ground
            &&& !after.player.jump.armed
            &&& after.player.jump.since == player.jump.since
            &&& after.outcome == (if touches(world, scroll, px, py, TileClass::Boost) {
                Outcome::Boost
            } else if touches(world, scroll, px, py, TileClass::Hazard) {
                Outcome::Dead
            } else {
                Outcome::Nothing
            })
            &&& after.outcome != Outcome::Boost ==> after.player.x == player.x
        }),
    decreases n,
{
    lemma_first_steps(player.y as int, fraction);
    lemma_first_steps(player.velocity as int, GRAVITY_PER_SUBSTEP as int);
    if k > 0 {
        let next = PlayerBody {
            y: clamp_i32(player.y + fraction) as i32,
            on_ground: false,
            velocity: clamp_i32(player.velocity + GRAVITY_PER_SUBSTEP) as i32,
            ..player
        };
        assert(!refused(player, fraction, world, scroll, 0));
        lemma_clamped_steps(player.y as int, fraction, k);
        lemma_clamped_steps(player.y as int, fraction, (k - 1) as nat);
        lemma_clamped_steps(
            player.velocity as int,
            GRAVITY_PER_SUBSTEP as int,
            (k - 1) as nat,
        );
        assert(refused(next, fraction, world, scroll, (k - 1) as nat));
        assert forall|j: nat| j < k - 1 implies !#[trigger] refused(
            next,
            fraction,
            world,
            scroll,
            j,
        ) by {
            lemma_clamped_steps(player.y as int, fraction, j + 1);
            lemma_clamped_steps(player.velocity as int, GRAVITY_PER_SUBSTEP as int, j);
            assert(!refused(player, fraction, world, scroll, j + 1));
        }
        lemma_substeps_stop_at_first_refusal(
            next,
            fraction,
            world,
            scroll,
            (n - 1) as nat,
            (k - 1) as nat,
        );
    }
}

/// Sub-steps keep the player inside the playable columns.
pub proof fn lemma_substeps_in_columns(
    player: PlayerBody,
    fraction: int,
    world: WorldView,
    scroll: int,
    remaining: nat,
)
    requires
        player.wf(),
    ensures
        spec_substeps(player, fraction, world, scroll, remaining).player.wf(),
    decreases remaining,
{
    if remaining > 0 {
        let tried = clamp_i32(player.y + fraction);
        let next = PlayerBody {
            y: tried as i32,
            on_ground: false,
            velocity: clamp_i32(player.velocity + GRAVITY_PER_SUBSTEP) as i32,
            ..player
        };
        lemma_substeps_in_columns(next, fraction, world, scroll, (remaining - 1) as nat);
    }
}

/// A tick keeps the player inside the playable columns.
pub proof fn lemma_update_in_columns(player: PlayerBody, world: WorldView, scroll: int)
    requires
        player.wf(),
    ensures
        spec_update(player, world, scroll).player.wf(),
{
    lemma_substeps_in_columns(
        PlayerBody { x: drifted(player.x), ..player },
        toward_zero(player.velocity as int, SUBSTEPS as int),
        world,
        scroll,
        SUBSTEPS as nat,
    );
}

/// The classes sampled at the four corners of a box tell what the box
/// touches.
proof fn lemma_corner_classes(
    world: WorldView,
    scroll: int,
    px: int,
    py: int,
    classes: Seq<TileClass>,
)
    requires
        classes.len() == 4,
        classes[0] == world.class_at(px, py, scroll),
        classes[1] == world.class_at(px + PLAYER_SIZE, py, scroll),
        classes[2] == world.class_at(px, py + PLAYER_SIZE, scroll),
        classes[3] == world.class_at(px + PLAYER_SIZE, py + PLAYER_SIZE, scroll),
    ensures
        forall|class: TileClass|
            classes.contains(class) == #[trigger] touches(world, scroll, px, py, class),
{
    assert forall|class: TileClass|
        classes.contains(class) == #[trigger] touches(world, scroll, px, py, class) by {
        if touches(world, scroll, px, py, class) {
            if classes[0] == class {
            } else if classes[1] == class {
            } else if classes[2] == class {
            } else {
                assert(classes[3] == class);
            }
        }
    }
}

} // verus!
