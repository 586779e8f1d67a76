//! The character's action state machine: position, velocity and animation
//! frame, driven by discrete events (`transition`) and per-frame ticks
//! (`update`). Unhandled events are no-ops by construction, so event
//! application never fails.

use vstd::prelude::*;
use crate::geometry::Point;
use crate::sprites::AnimationName;

verus! {

/// Height of the playfield in pixels.
pub const HEIGHT: i16 = 600;

/// Vertical position (top-left) of a character standing on the ground.
pub const FLOOR: i16 = 479;

/// Height of the character's sprite canvas; landing on `y` seats the
/// character's feet on `y`, so its top-left moves to `y - PLAYER_HEIGHT`.
pub const PLAYER_HEIGHT: i16 = HEIGHT - FLOOR;

/// Horizontal position where a fresh character starts.
pub const STARTING_POINT: i16 = -20;

/// Horizontal velocity gained when the character starts running.
pub const RUNNING_SPEED: i16 = 4;

/// Upward vertical velocity set by a jump (negative y is up).
pub const JUMP_SPEED: i16 = -25;

/// Downward acceleration applied each tick while below terminal velocity.
pub const GRAVITY: i16 = 1;

/// Largest downward velocity gravity accumulates to.
pub const TERMINAL_VELOCITY: i16 = 20;

/// Per-state animation lengths in ticks. These are asset-driven: they come
/// from the sprite sheet's frame counts, loaded alongside the sheet, and are
/// carried in the state-machine context rather than guessed here.
#[derive(Clone, Copy, Debug, PartialEq, Eq, Structural)]
pub struct FrameCounts {
    pub idle: u8,
    pub running: u8,
    pub sliding: u8,
    pub jumping: u8,
    pub falling: u8,
}

/// The physics state carried across every transition: animation frame
/// counter, position, velocity, and the animation lengths configuration.
#[derive(Clone, Copy, Debug, PartialEq, Eq, Structural)]
pub struct RedHatBoyContext {
    pub frame: u8,
    pub position: Point,
    pub velocity: Point,
    pub counts: FrameCounts,
}

/// A discrete event applied to the state machine; events a state does not
/// handle leave it unchanged.
#[derive(Clone, Copy, Debug, PartialEq, Eq, Structural)]
pub enum Event {
    Run,
    Slide,
    Jump,
    KnockOut,
    Land(i16),
}

/// A sound the machine asks its owner to play when a transition fires.
#[derive(Clone, Copy, Debug, PartialEq, Eq, Structural)]
pub enum SoundCue {
    Jump,
    Die,
}

/// The character's action states; exactly one is active at any time, and
/// each carries the shared context.
#[derive(Clone, Copy, Debug, PartialEq, Eq, Structural)]
pub enum RedHatBoyStateMachine {
    Idle(RedHatBoyContext),
    Running(RedHatBoyContext),
    Sliding(RedHatBoyContext),
    Jumping(RedHatBoyContext),
    Falling(RedHatBoyContext),
    KnockedOut(RedHatBoyContext),
}

pub open spec fn wf_counts(counts: FrameCounts) -> bool {
    &&& 1 <= counts.idle <= 240
    &&& 1 <= counts.running <= 240
    &&& 1 <= counts.sliding <= 240
    &&& 1 <= counts.jumping <= 240
    &&& 1 <= counts.falling <= 240
}

/// Twice the height still to be gained while rising at vertical velocity
/// `vy` (gravity is applied before integration, so the remaining upward
/// deltas are `vy + 1, vy + 2, ..., -1`).
pub open spec fn twice_rise(vy: int) -> int {
    if vy < 0 {
        (-(vy + 1)) * (-vy)
    } else {
        0
    }
}

/// Bounds every reachable context satisfies; in particular the potential
/// bound ties the position to the rise the current velocity can still gain,
/// which keeps all coordinates within `i16`.
pub open spec fn wf_context(c: RedHatBoyContext) -> bool {
    &&& wf_counts(c.counts)
    &&& -1000 <= c.position.x <= 1000
    &&& c.position.y <= FLOOR
    &&& 2 * c.position.y + twice_rise(JUMP_SPEED as int) >= -2 * (PLAYER_HEIGHT as int)
        + twice_rise(c.velocity.y as int)
    &&& JUMP_SPEED <= c.velocity.y <= TERMINAL_VELOCITY
    &&& 0 <= c.velocity.x <= RUNNING_SPEED
}

impl RedHatBoyStateMachine {
    /// The shared context of whichever state is active.
    pub open spec fn ctx(self) -> RedHatBoyContext {
        match self {
            RedHatBoyStateMachine::Idle(c) => c,
            RedHatBoyStateMachine::Running(c) => c,
            RedHatBoyStateMachine::Sliding(c) => c,
            RedHatBoyStateMachine::Jumping(c) => c,
            RedHatBoyStateMachine::Falling(c) => c,
            RedHatBoyStateMachine::KnockedOut(c) => c,
        }
    }

    /// The animation the active state displays.
    pub open spec fn spec_frame_name(self) -> AnimationName {
        match self {
            RedHatBoyStateMachine::Idle(_) => AnimationName::Idle,
            RedHatBoyStateMachine::Running(_) => AnimationName::Run,
            RedHatBoyStateMachine::Sliding(_) => AnimationName::Slide,
            RedHatBoyStateMachine::Jumping(_) => AnimationName::Jump,
            RedHatBoyStateMachine::Falling(_) => AnimationName::Dead,
            RedHatBoyStateMachine::KnockedOut(_) => AnimationName::Dead,
        }
    }

    /// The active state's animation length in ticks.
    pub open spec fn frame_count(self) -> u8 {
        match self {
            RedHatBoyStateMachine::Idle(c) => c.counts.idle,
            RedHatBoyStateMachine::Running(c) => c.counts.running,
            RedHatBoyStateMachine::Sliding(c) => c.counts.sliding,
            RedHatBoyStateMachine::Jumping(c) => c.counts.jumping,
            RedHatBoyStateMachine::Falling(c) => c.counts.falling,
            RedHatBoyStateMachine::KnockedOut(c) => c.counts.falling,
        }
    }

    /// Well-formedness: the context is bounded, the frame counter stays
    /// within the active animation, grounded states never move upward, and
    /// an idle character stands still on the floor.
    pub open spec fn wf(self) -> bool {
        &&& wf_context(self.ctx())
        &&& self.ctx().frame <= self.frame_count()
        &&& match self {
            RedHatBoyStateMachine::Idle(c) => c.velocity.x == 0 && c.velocity.y == 0
                && c.position.y == FLOOR,
            RedHatBoyStateMachine::Running(c) => c.velocity.y >= 0 && c.position.y
                >= -PLAYER_HEIGHT,
            RedHatBoyStateMachine::Sliding(c) => c.velocity.y >= 0 && c.position.y
                >= -PLAYER_HEIGHT,
            _ => true,
        }
    }
}

/// The context a fresh character starts from: idle on the floor at the
/// starting point, standing still, with the given animation lengths.
pub open spec fn initial_context(counts: FrameCounts) -> RedHatBoyContext {
    RedHatBoyContext {
        frame: 0,
        position: Point { x: STARTING_POINT, y: FLOOR },
        velocity: Point { x: 0, y: 0 },
        counts,
    }
}

/// Advance the frame counter modulo the animation length.
pub open spec fn anim_step_frame(frame: u8, count: u8) -> u8 {
    if frame < count {
        (frame + 1) as u8
    } else {
        0
    }
}

/// One tick of physics: gravity accumulates up to terminal velocity, the
/// frame counter advances, and the vertical position integrates the
/// velocity, clamped at the floor.
pub open spec fn physics_step(c: RedHatBoyContext, count: u8) -> RedHatBoyContext {
    let vy = if c.velocity.y < TERMINAL_VELOCITY {
        (c.velocity.y + GRAVITY) as i16
    } else {
        c.velocity.y
    };
    let y_raw = c.position.y + vy;
    let y = if y_raw > FLOOR {
        FLOOR as int
    } else {
        y_raw
    };
    RedHatBoyContext {
        frame: anim_step_frame(c.frame, count),
        position: Point { x: c.position.x, y: y as i16 },
        velocity: Point { x: c.velocity.x, y: vy },
        counts: c.counts,
    }
}

/// Restart the active animation.
pub open spec fn reset_frame(c: RedHatBoyContext) -> RedHatBoyContext {
    RedHatBoyContext { frame: 0, ..c }
}

/// Start running: gain the running speed.
pub open spec fn run_context(c: RedHatBoyContext) -> RedHatBoyContext {
    RedHatBoyContext {
        frame: 0,
        velocity: Point { x: (c.velocity.x + RUNNING_SPEED) as i16, y: c.velocity.y },
        ..c
    }
}

/// Start a jump: upward velocity, animation restarted.
pub open spec fn jump_context(c: RedHatBoyContext) -> RedHatBoyContext {
    RedHatBoyContext {
        frame: 0,
        velocity: Point { x: c.velocity.x, y: JUMP_SPEED },
        ..c
    }
}

/// Seat the character's feet on `y`: the top-left snaps to
/// `y - PLAYER_HEIGHT` and the vertical velocity is zeroed.
pub open spec fn land_context(c: RedHatBoyContext, y: i16) -> RedHatBoyContext {
    RedHatBoyContext {
        position: Point { x: c.position.x, y: (y - PLAYER_HEIGHT) as i16 },
        velocity: Point { x: c.velocity.x, y: 0 },
        ..c
    }
}

/// Get knocked out: the run stops (horizontal velocity zeroed) and the
/// terminal animation restarts.
pub open spec fn knock_out_context(c: RedHatBoyContext) -> RedHatBoyContext {
    RedHatBoyContext {
        frame: 0,
        velocity: Point { x: 0, y: c.velocity.y },
        ..c
    }
}

/// The event-driven transition relation. Events a state does not handle
/// leave the machine unchanged and play no sound.
pub open spec fn spec_transition(m: RedHatBoyStateMachine, event: Event) -> (
    RedHatBoyStateMachine,
    Option<SoundCue>,
) {
    match (m, event) {
        (RedHatBoyStateMachine::Idle(c), Event::Run) => (
            RedHatBoyStateMachine::Running(run_context(c)),
            None,
        ),
        (RedHatBoyStateMachine::Running(c), Event::Jump) => (
            RedHatBoyStateMachine::Jumping(jump_context(c)),
            Some(SoundCue::Jump),
        ),
        (RedHatBoyStateMachine::Running(c), Event::Slide) => (
            RedHatBoyStateMachine::Sliding(reset_frame(c)),
            None,
        ),
        (RedHatBoyStateMachine::Running(c), Event::KnockOut) => (
            RedHatBoyStateMachine::Falling(knock_out_context(c)),
            Some(SoundCue::Die),
        ),
        (RedHatBoyStateMachine::Running(c), Event::Land(y)) => (
            RedHatBoyStateMachine::Running(land_context(c, y)),
            None,
        ),
        (RedHatBoyStateMachine::Sliding(c), Event::KnockOut) => (
            RedHatBoyStateMachine::Falling(knock_out_context(c)),
            Some(SoundCue::Die),
        ),
        (RedHatBoyStateMachine::Jumping(c), Event::KnockOut) => (
            RedHatBoyStateMachine::Falling(knock_out_context(c)),
            Some(SoundCue::Die),
        ),
        (RedHatBoyStateMachine::Jumping(c), Event::Land(y)) => (
            RedHatBoyStateMachine::Running(reset_frame(land_context(c, y))),
            None,
        ),
        _ => (m, None),
    }
}

/// The tick relation: physics and animation advance, and time-driven
/// transitions fire (a finished slide stands back up, touching the floor
/// lands a jump, a finished terminal animation ends in `KnockedOut`).
pub open spec fn spec_tick(m: RedHatBoyStateMachine) -> RedHatBoyStateMachine {
    match m {
        RedHatBoyStateMachine::Idle(c) => RedHatBoyStateMachine::Idle(
            RedHatBoyContext { frame: anim_step_frame(c.frame, c.counts.idle), ..c },
        ),
        RedHatBoyStateMachine::Running(c) => RedHatBoyStateMachine::Running(
            physics_step(c, c.counts.running),
        ),
        RedHatBoyStateMachine::Sliding(c) => {
            let c2 = physics_step(c, c.counts.sliding);
            if c2.frame >= c.counts.sliding {
                RedHatBoyStateMachine::Running(reset_frame(c2))
            } else {
                RedHatBoyStateMachine::Sliding(c2)
            }
        },
        RedHatBoyStateMachine::Jumping(c) => {
            let c2 = physics_step(c, c.counts.jumping);
            if c2.position.y >= FLOOR {
                RedHatBoyStateMachine::Running(reset_frame(land_context(c2, HEIGHT)))
            } else {
                RedHatBoyStateMachine::Jumping(c2)
            }
        },
        RedHatBoyStateMachine::Falling(c) => {
            let c2 = physics_step(c, c.counts.falling);
            if c2.frame >= c.counts.falling {
                RedHatBoyStateMachine::KnockedOut(c2)
            } else {
                RedHatBoyStateMachine::Falling(c2)
            }
        },
        RedHatBoyStateMachine::KnockedOut(c) => RedHatBoyStateMachine::KnockedOut(c),
    }
}

/// The machine after `n` event-free ticks.
pub open spec fn tick_n(m: RedHatBoyStateMachine, n: nat) -> RedHatBoyStateMachine
    decreases n,
{
    if n == 0 {
        m
    } else {
        spec_tick(tick_n(m, (n - 1) as nat))
    }
}

/// An event the machine may be given: a landing seats the character on a
/// coordinate within the playfield.
pub open spec fn wf_event(event: Event) -> bool {
    match event {
        Event::Land(y) => 0 <= y <= HEIGHT,
        _ => true,
    }
}

proof fn lemma_twice_rise_nonneg(v: int)
    ensures
        twice_rise(v) >= 0,
{
    if v < 0 {
        assert((-(v + 1)) * (-v) >= 0) by (nonlinear_arith)
            requires
                v < 0,
        ;
    }
}

proof fn lemma_twice_rise_step(v: int)
    requires
        v < 0,
    ensures
        twice_rise(v) == twice_rise(v + 1) + 2 * (-(v + 1)),
{
    if v < -1 {
        assert((-(v + 1)) * (-v) == (-(v + 2)) * (-(v + 1)) + 2 * (-(v + 1))) by (nonlinear_arith)
            requires
                v < -1,
        ;
    } else {
        assert(twice_rise(v) == (-(v + 1)) * (-v));
        assert(v == -1 ==> (-(v + 1)) * (-v) == 0) by (nonlinear_arith);
    }
}

/// Physics preserves the context bounds; with a non-negative vertical
/// velocity the position never moves up.
proof fn lemma_physics_step_wf(c: RedHatBoyContext, count: u8)
    requires
        wf_context(c),
        1 <= count <= 240,
    ensures
        wf_context(physics_step(c, count)),
        physics_step(c, count).frame <= count,
        physics_step(c, count).velocity.y >= c.velocity.y,
        physics_step(c, count).velocity.x == c.velocity.x,
        physics_step(c, count).position.x == c.position.x,
        c.velocity.y >= 0 ==> physics_step(c, count).position.y >= c.position.y
            && physics_step(c, count).velocity.y >= 0,
    decreases 0int,
{
    let vy = if c.velocity.y < TERMINAL_VELOCITY {
        (c.velocity.y + GRAVITY) as i16
    } else {
        c.velocity.y
    };
    lemma_twice_rise_nonneg(c.velocity.y as int);
    lemma_twice_rise_nonneg(vy as int);
    if c.velocity.y < 0 {
        lemma_twice_rise_step(c.velocity.y as int);
    }
}

/// A tick preserves well-formedness.
pub proof fn lemma_tick_wf(m: RedHatBoyStateMachine)
    requires
        m.wf(),
    ensures
        spec_tick(m).wf(),
{
    match m {
        RedHatBoyStateMachine::Idle(c) => {},
        RedHatBoyStateMachine::Running(c) => {
            lemma_physics_step_wf(c, c.counts.running);
        },
        RedHatBoyStateMachine::Sliding(c) => {
            lemma_physics_step_wf(c, c.counts.sliding);
        },
        RedHatBoyStateMachine::Jumping(c) => {
            lemma_physics_step_wf(c, c.counts.jumping);
            lemma_twice_rise_nonneg(physics_step(c, c.counts.jumping).velocity.y as int);
        },
        RedHatBoyStateMachine::Falling(c) => {
            lemma_physics_step_wf(c, c.counts.falling);
        },
        RedHatBoyStateMachine::KnockedOut(c) => {},
    }
}

/// Any number of ticks preserves well-formedness.
pub proof fn lemma_tick_n_wf(m: RedHatBoyStateMachine, n: nat)
    requires
        m.wf(),
    ensures
        tick_n(m, n).wf(),
    decreases n,
{
    if n > 0 {
        lemma_tick_n_wf(m, (n - 1) as nat);
        lemma_tick_wf(tick_n(m, (n - 1) as nat));
    }
}

/// A transition preserves well-formedness.
pub proof fn lemma_transition_wf(m: RedHatBoyStateMachine, event: Event)
    requires
        m.wf(),
        wf_event(event),
    ensures
        spec_transition(m, event).0.wf(),
{
    match (m, event) {
        (RedHatBoyStateMachine::Running(c), Event::Jump) => {
            lemma_twice_rise_nonneg(c.velocity.y as int);
        },
        (RedHatBoyStateMachine::Running(c), Event::KnockOut) => {
            lemma_twice_rise_nonneg(c.velocity.y as int);
        },
        _ => {},
    }
}

/// Peeling the first tick: `n` ticks from `m` are `n - 1` ticks from the
/// machine after one tick.
pub proof fn lemma_tick_n_front(m: RedHatBoyStateMachine, n: nat)
    requires
        n >= 1,
    ensures
        tick_n(m, n) == tick_n(spec_tick(m), (n - 1) as nat),
    decreases n,
{
    if n == 1 {
        assert(tick_n(m, 1) == spec_tick(tick_n(m, 0)));
        assert(tick_n(m, 0) == m);
        assert(tick_n(spec_tick(m), 0) == spec_tick(m));
    } else {
        lemma_tick_n_front(m, (n - 1) as nat);
        assert(tick_n(m, n) == spec_tick(tick_n(m, (n - 1) as nat)));
        assert(tick_n(spec_tick(m), (n - 1) as nat) == spec_tick(
            tick_n(spec_tick(m), (n - 2) as nat),
        ));
    }
}

/// Over any number of event-free ticks, an idle or running character keeps
/// its state, its horizontal velocity and its horizontal position: the
/// horizontal motion is constant, so the scroll advances linearly.
pub proof fn lemma_event_free_ticks_keep_horizontal_motion(m: RedHatBoyStateMachine, n: nat)
    ensures
        m is Idle ==> tick_n(m, n) is Idle,
        m is Running ==> tick_n(m, n) is Running,
        m is Idle || m is Running ==> tick_n(m, n).ctx().velocity.x == m.ctx().velocity.x
            && tick_n(m, n).ctx().position.x == m.ctx().position.x,
    decreases n,
{
    if n > 0 {
        lemma_event_free_ticks_keep_horizontal_motion(m, (n - 1) as nat);
    }
}

/// While airborne and below terminal velocity, gravity accumulates: one
/// tick strictly increases the vertical velocity, unless the tick itself
/// lands the jump (which zeroes it on the floor).
pub proof fn lemma_midair_gravity_accumulates(m: RedHatBoyStateMachine)
    requires
        m is Jumping || m is Falling,
        m.ctx().velocity.y < TERMINAL_VELOCITY,
        JUMP_SPEED <= m.ctx().velocity.y,
    ensures
        m is Falling ==> spec_tick(m).ctx().velocity.y == m.ctx().velocity.y + GRAVITY,
        m is Jumping && spec_tick(m) is Jumping ==> spec_tick(m).ctx().velocity.y == m.ctx().velocity.y
            + GRAVITY,
        m is Jumping && !(spec_tick(m) is Jumping) ==> spec_tick(m) is Running
            && spec_tick(m).ctx().velocity.y == 0,
        spec_tick(m).ctx().velocity.y > m.ctx().velocity.y || (m is Jumping && spec_tick(m) is Running),
{
}

/// Starting in Running, a Jump plays the jump sound and goes airborne; after
/// any number of ticks the character is still airborne or back in Running,
/// and applying Land(y) while airborne yields a running character seated
/// exactly on `y`: its top-left is `y - PLAYER_HEIGHT` and its vertical
/// velocity is zero.
pub proof fn lemma_jump_then_land_restores_running(m: RedHatBoyStateMachine, n: nat, y: i16)
    requires
        m.wf(),
        m is Running,
        0 <= y <= HEIGHT,
    ensures
        ({
            let jumped = spec_transition(m, Event::Jump).0;
            let after = tick_n(jumped, n);
            &&& jumped is Jumping
            &&& spec_transition(m, Event::Jump).1 == Some(SoundCue::Jump)
            &&& after is Jumping || after is Running
            &&& (after is Jumping ==> {
                let landed = spec_transition(after, Event::Land(y)).0;
                &&& landed is Running
                &&& landed.ctx().position.y == y - PLAYER_HEIGHT
                &&& landed.ctx().velocity.y == 0
            })
        }),
    decreases n,
{
    lemma_transition_wf(m, Event::Jump);
    let jumped = spec_transition(m, Event::Jump).0;
    lemma_tick_n_wf(jumped, n);
    if n > 0 {
        lemma_jump_then_land_restores_running(m, (n - 1) as nat, y);
        lemma_tick_n_wf(jumped, (n - 1) as nat);
    }
}

/// A terminal machine stays terminal: ticks and events leave it unchanged.
pub proof fn lemma_knocked_out_is_terminal(m: RedHatBoyStateMachine, n: nat, event: Event)
    requires
        m is KnockedOut,
    ensures
        tick_n(m, n) == m,
        spec_transition(m, event).0 == m,
        spec_transition(m, event).1 is None,
    decreases n,
{
    if n > 0 {
        lemma_knocked_out_is_terminal(m, (n - 1) as nat, event);
    }
}

/// While falling, each tick advances the terminal animation by one frame;
/// once the animation length is reached the machine is knocked out, and it
/// stays knocked out.
proof fn lemma_falling_runs_out(f: RedHatBoyStateMachine, k: nat)
    requires
        f.wf(),
        f is Falling,
        f.ctx().frame < f.ctx().counts.falling,
    ensures
        f.ctx().frame + k < f.ctx().counts.falling ==> tick_n(f, k) is Falling && tick_n(
            f,
            k,
        ).ctx().frame == f.ctx().frame + k,
        f.ctx().frame + k >= f.ctx().counts.falling && k >= 1 ==> tick_n(f, k) is KnockedOut,
    decreases k,
{
    if k >= 1 {
        lemma_tick_n_front(f, k);
        lemma_tick_wf(f);
        let f2 = spec_tick(f);
        if f.ctx().frame + 1 < f.ctx().counts.falling {
            lemma_falling_runs_out(f2, (k - 1) as nat);
        } else {
            lemma_knocked_out_is_terminal(f2, (k - 1) as nat, Event::KnockOut);
        }
    }
}

/// KnockOut from Running, Sliding or Jumping plays the death sound and
/// falls; after the falling animation's length of ticks — and not before —
/// the machine is terminally knocked out.
pub proof fn lemma_knock_out_reaches_terminal_state(m: RedHatBoyStateMachine, k: nat)
    requires
        m.wf(),
        m is Running || m is Sliding || m is Jumping,
    ensures
        ({
            let fallen = spec_transition(m, Event::KnockOut).0;
            let after = tick_n(fallen, k);
            &&& fallen is Falling
            &&& fallen.ctx().frame == 0
            &&& spec_transition(m, Event::KnockOut).1 == Some(SoundCue::Die)
            &&& (k < m.ctx().counts.falling ==> after is Falling)
            &&& (k >= m.ctx().counts.falling ==> after is KnockedOut)
        }),
{
    lemma_transition_wf(m, Event::KnockOut);
    let fallen = spec_transition(m, Event::KnockOut).0;
    lemma_falling_runs_out(fallen, k);
}

impl RedHatBoyStateMachine {
    /// A fresh machine: idle on the floor with the given animation lengths.
    pub fn new(counts: FrameCounts) -> (r: RedHatBoyStateMachine)
        requires
            wf_counts(counts),
        ensures
            r == RedHatBoyStateMachine::Idle(initial_context(counts)),
            r.wf(),
    {
        RedHatBoyStateMachine::Idle(
            RedHatBoyContext {
                frame: 0,
                position: Point { x: STARTING_POINT, y: FLOOR },
                velocity: Point { x: 0, y: 0 },
                counts,
            },
        )
    }

    /// Apply one event; states that do not handle the event are returned
    /// unchanged. The second component is the sound the transition asks for.
    pub fn transition(self, event: Event) -> (r: (RedHatBoyStateMachine, Option<SoundCue>))
        requires
            self.wf(),
            wf_event(event),
        ensures
            r == spec_transition(self, event),
            r.0.wf(),
    {
        proof {
            lemma_transition_wf(self, event);
        }
        match (self, event) {
            (RedHatBoyStateMachine::Idle(c), Event::Run) => (
                RedHatBoyStateMachine::Running(
                    RedHatBoyContext {
                        frame: 0,
                        velocity: Point { x: c.velocity.x + RUNNING_SPEED, y: c.velocity.y },
                        ..c
                    },
                ),
                None,
            ),
            (RedHatBoyStateMachine::Running(c), Event::Jump) => (
                RedHatBoyStateMachine::Jumping(
                    RedHatBoyContext {
                        frame: 0,
                        velocity: Point { x: c.velocity.x, y: JUMP_SPEED },
                        ..c
                    },
                ),
                Some(SoundCue::Jump),
            ),
            (RedHatBoyStateMachine::Running(c), Event::Slide) => (
                RedHatBoyStateMachine::Sliding(RedHatBoyContext { frame: 0, ..c }),
                None,
            ),
            (RedHatBoyStateMachine::Running(c), Event::KnockOut) => (
                RedHatBoyStateMachine::Falling(
                    RedHatBoyContext { frame: 0, velocity: Point { x: 0, y: c.velocity.y }, ..c },
                ),
                Some(SoundCue::Die),
            ),
            (RedHatBoyStateMachine::Running(c), Event::Land(y)) => (
                RedHatBoyStateMachine::Running(
                    RedHatBoyContext {
                        position: Point { x: c.position.x, y: y - PLAYER_HEIGHT },
                        velocity: Point { x: c.velocity.x, y: 0 },
                        ..c
                    },
                ),
                None,
            ),
            (RedHatBoyStateMachine::Sliding(c), Event::KnockOut) => (
                RedHatBoyStateMachine::Falling(
                    RedHatBoyContext { frame: 0, velocity: Point { x: 0, y: c.velocity.y }, ..c },
                ),
                Some(SoundCue::Die),
            ),
            (RedHatBoyStateMachine::Jumping(c), Event::KnockOut) => (
                RedHatBoyStateMachine::Falling(
                    RedHatBoyContext { frame: 0, velocity: Point { x: 0, y: c.velocity.y }, ..c },
                ),
                Some(SoundCue::Die),
            ),
            (RedHatBoyStateMachine::Jumping(c), Event::Land(y)) => (
                RedHatBoyStateMachine::Running(
                    RedHatBoyContext {
                        frame: 0,
                        position: Point { x: c.position.x, y: y - PLAYER_HEIGHT },
                        velocity: Point { x: c.velocity.x, y: 0 },
                        ..c
                    },
                ),
                None,
            ),
            _ => (self, None),
        }
    }

    /// One simulation tick.
    pub fn update(self) -> (r: RedHatBoyStateMachine)
        requires
            self.wf(),
        ensures
            r == spec_tick(self),
            r.wf(),
    {
        proof {
            lemma_tick_wf(self);
        }
        match self {
            RedHatBoyStateMachine::Idle(c) => {
                let frame = if c.frame < c.counts.idle {
                    c.frame + 1
                } else {
                    0
                };
                RedHatBoyStateMachine::Idle(RedHatBoyContext { frame, ..c })
            },
            RedHatBoyStateMachine::Running(c) => RedHatBoyStateMachine::Running(
                Self::physics(c, c.counts.running),
            ),
            RedHatBoyStateMachine::Sliding(c) => {
                let c2 = Self::physics(c, c.counts.sliding);
                if c2.frame >= c.counts.sliding {
                    RedHatBoyStateMachine::Running(RedHatBoyContext { frame: 0, ..c2 })
                } else {
                    RedHatBoyStateMachine::Sliding(c2)
                }
            },
            RedHatBoyStateMachine::Jumping(c) => {
                let c2 = Self::physics(c, c.counts.jumping);
                if c2.position.y >= FLOOR {
                    RedHatBoyStateMachine::Running(
                        RedHatBoyContext {
                            frame: 0,
                            position: Point { x: c2.position.x, y: HEIGHT - PLAYER_HEIGHT },
                            velocity: Point { x: c2.velocity.x, y: 0 },
                            ..c2
                        },
                    )
                } else {
                    RedHatBoyStateMachine::Jumping(c2)
                }
            },
            RedHatBoyStateMachine::Falling(c) => {
                let c2 = Self::physics(c, c.counts.falling);
                if c2.frame >= c.counts.falling {
                    RedHatBoyStateMachine::KnockedOut(c2)
                } else {
                    RedHatBoyStateMachine::Falling(c2)
                }
            },
            RedHatBoyStateMachine::KnockedOut(c) => RedHatBoyStateMachine::KnockedOut(c),
        }
    }

    fn physics(c: RedHatBoyContext, count: u8) -> (r: RedHatBoyContext)
        requires
            wf_context(c),
            1 <= count <= 240,
        ensures
            r == physics_step(c, count),
    {
        proof {
            lemma_physics_step_wf(c, count);
            lemma_twice_rise_nonneg(c.velocity.y as int);
        }
        let vy = if c.velocity.y < TERMINAL_VELOCITY {
            c.velocity.y + GRAVITY
        } else {
            c.velocity.y
        };
        let frame = if c.frame < count {
            c.frame + 1
        } else {
            0
        };
        let y_raw = c.position.y + vy;
        let y = if y_raw > FLOOR {
            FLOOR
        } else {
            y_raw
        };
        RedHatBoyContext {
            frame,
            position: Point { x: c.position.x, y },
            velocity: Point { x: c.velocity.x, y: vy },
            counts: c.counts,
        }
    }

    /// The shared context.
    pub fn context(&self) -> (r: RedHatBoyContext)
        ensures
            r == self.ctx(),
    {
        match self {
            RedHatBoyStateMachine::Idle(c) => *c,
            RedHatBoyStateMachine::Running(c) => *c,
            RedHatBoyStateMachine::Sliding(c) => *c,
            RedHatBoyStateMachine::Jumping(c) => *c,
            RedHatBoyStateMachine::Falling(c) => *c,
            RedHatBoyStateMachine::KnockedOut(c) => *c,
        }
    }

    /// The animation the active state displays.
    pub fn frame_name(&self) -> (r: AnimationName)
        ensures
            r == self.spec_frame_name(),
    {
        match self {
            RedHatBoyStateMachine::Idle(_) => AnimationName::Idle,
            RedHatBoyStateMachine::Running(_) => AnimationName::Run,
            RedHatBoyStateMachine::Sliding(_) => AnimationName::Slide,
            RedHatBoyStateMachine::Jumping(_) => AnimationName::Jump,
            RedHatBoyStateMachine::Falling(_) => AnimationName::Dead,
            RedHatBoyStateMachine::KnockedOut(_) => AnimationName::Dead,
        }
    }

    /// True only in the terminal state.
    pub fn knocked_out(&self) -> (r: bool)
        ensures
            r == (self is KnockedOut),
    {
        match self {
            RedHatBoyStateMachine::KnockedOut(_) => true,
            _ => false,
        }
    }
}

} // verus!
