//! The session state machine: Ready -> Walking -> GameOver -> Ready. Each
//! transition consumes the previous phase's state by value and produces the
//! next phase's state by value, so a phase's data can never be read after
//! its transition has fired.

use vstd::prelude::*;
use crate::boy::RedHatBoy;
use crate::boy::bounding_box_of;
use crate::boy::cue_seq;
use crate::character::Event;
use crate::character::RedHatBoyStateMachine;
use crate::character::SoundCue;
use crate::character::spec_tick;
use crate::character::spec_transition;
use crate::geometry::Point;
use crate::geometry::Rect;
use crate::obstacles::Obstacle;
use crate::obstacles::first_intersecting_box;
use crate::obstacles::obstacle_event_on;
use crate::obstacles::translate_boxes;
use crate::sprites::SpriteEntry;
use crate::ui::Overlay;
use crate::ui::Ui;
use crate::ui::draw_ui;
use crate::ui::hide_ui;
use crate::walk::OBSTACLE_BUFFER;
use crate::walk::TIMELINE_MINIMUM;
use crate::walk::Walk;
use crate::walk::is_chosen_segment;
use crate::walk::rightmost_spec;
use crate::walk::spec_scroll;
use crate::walk::walk_obstacle_ok;

verus! {

/// The input snapshot one tick consumes: which keys are held and whether
/// the new-game prompt was clicked since the last tick.
#[derive(Clone, Copy, Debug, PartialEq, Eq, Structural)]
pub struct FrameInput {
    pub run_right: bool,
    pub jump: bool,
    pub slide: bool,
    pub new_game: bool,
}

/// `b` is `a` scrolled horizontally by `v`.
pub open spec fn is_moved_obstacle(a: Obstacle, b: Obstacle, v: i16) -> bool {
    match (a, b) {
        (Obstacle::Barrier(x), Obstacle::Barrier(y)) => y.image.bounding_box == (Rect {
            position: Point {
                x: (x.image.bounding_box.position.x + v) as i16,
                y: x.image.bounding_box.position.y,
            },
            ..x.image.bounding_box
        }),
        (Obstacle::Platform(p), Obstacle::Platform(q)) => {
            &&& q.position == (Point { x: (p.position.x + v) as i16, y: p.position.y })
            &&& q.sprites@ == p.sprites@
            &&& q.bounding_boxes@ == translate_boxes(p.bounding_boxes@, Point { x: v, y: 0 })
        },
        _ => false,
    }
}

/// `new` is `old` with every obstacle already past the left screen edge
/// removed and every survivor scrolled by `v`, in order.
pub open spec fn is_culled_and_moved(old: Seq<Obstacle>, new: Seq<Obstacle>, v: i16) -> bool
    decreases old.len(),
{
    if old.len() == 0 {
        new.len() == 0
    } else if old.last().spec_right() > 0 {
        &&& new.len() > 0
        &&& is_moved_obstacle(old.last(), new.last(), v)
        &&& is_culled_and_moved(old.drop_last(), new.drop_last(), v)
    } else {
        is_culled_and_moved(old.drop_last(), new, v)
    }
}

/// The event an obstacle would apply after being scrolled by `v`, computed
/// from its pre-scroll state.
pub open spec fn moved_event(
    ob: Obstacle,
    v: i16,
    entries: Seq<SpriteEntry>,
    machine: RedHatBoyStateMachine,
) -> Option<Event> {
    let probe = bounding_box_of(entries, machine);
    match ob {
        Obstacle::Barrier(b) => {
            let moved = Rect {
                position: Point {
                    x: (b.image.bounding_box.position.x + v) as i16,
                    y: b.image.bounding_box.position.y,
                },
                ..b.image.bounding_box
            };
            if probe.spec_intersects(moved) {
                Some(Event::KnockOut)
            } else {
                None
            }
        },
        Obstacle::Platform(p) => {
            let boxes = translate_boxes(p.bounding_boxes@, Point { x: v, y: 0 });
            match first_intersecting_box(boxes, probe) {
                Some(hit) => if machine.ctx().velocity.y > 0 && machine.ctx().position.y
                    < p.position.y {
                    Some(Event::Land(hit.position.y))
                } else {
                    Some(Event::KnockOut)
                },
                None => None,
            }
        },
    }
}

/// One obstacle's effect on the character during a tick: obstacles already
/// off screen are skipped; the rest are scrolled and then tested.
pub open spec fn apply_one(
    ob: Obstacle,
    v: i16,
    entries: Seq<SpriteEntry>,
    machine: RedHatBoyStateMachine,
) -> (RedHatBoyStateMachine, Seq<SoundCue>) {
    if ob.spec_right() > 0 {
        match moved_event(ob, v, entries, machine) {
            Some(event) => (
                spec_transition(machine, event).0,
                cue_seq(spec_transition(machine, event).1),
            ),
            None => (machine, Seq::empty()),
        }
    } else {
        (machine, Seq::empty())
    }
}

/// The character's state and the sounds asked for after the whole obstacle
/// list has been culled, scrolled and tested against it, in order.
pub open spec fn process_obstacles(
    obstacles: Seq<Obstacle>,
    v: i16,
    entries: Seq<SpriteEntry>,
    machine: RedHatBoyStateMachine,
) -> (RedHatBoyStateMachine, Seq<SoundCue>)
    decreases obstacles.len(),
{
    if obstacles.len() == 0 {
        (machine, Seq::empty())
    } else {
        let head = apply_one(obstacles[0], v, entries, machine);
        let rest = process_obstacles(obstacles.drop_first(), v, entries, head.0);
        (rest.0, head.1 + rest.1)
    }
}

/// A scrolled obstacle reports the event the pre-scroll computation names.
proof fn lemma_moved_event_matches(
    ob: Obstacle,
    moved: Obstacle,
    v: i16,
    entries: Seq<SpriteEntry>,
    machine: RedHatBoyStateMachine,
)
    requires
        is_moved_obstacle(ob, moved, v),
    ensures
        obstacle_event_on(moved, entries, machine) == moved_event(ob, v, entries, machine),
{
}

/// A scrolled survivor still satisfies the walk's obstacle bounds.
proof fn lemma_moved_obstacle_ok(ob: Obstacle, moved: Obstacle, v: i16)
    requires
        walk_obstacle_ok(ob),
        ob.spec_right() > 0,
        is_moved_obstacle(ob, moved, v),
        -4 <= v <= 0,
    ensures
        walk_obstacle_ok(moved),
        moved.spec_right() == ob.spec_right() + v,
{
    match (ob, moved) {
        (Obstacle::Barrier(x), Obstacle::Barrier(y)) => {
            assert(crate::segments::obstacle_boxes(ob)[0] == x.image.bounding_box);
            assert(crate::segments::obstacle_boxes(moved)[0] == y.image.bounding_box);
        },
        (Obstacle::Platform(p), Obstacle::Platform(q)) => {
            assert(q.bounding_boxes@.len() == p.bounding_boxes@.len());
            if p.bounding_boxes@.len() > 0 {
                assert(q.bounding_boxes@.last() == q.bounding_boxes@[p.bounding_boxes@.len() - 1]);
            }
            assert forall|j: int| 0 <= j < q.bounding_boxes@.len() implies moved.spec_right() - 2400
                <= (#[trigger] crate::segments::obstacle_boxes(moved)[j]).left()
                && crate::segments::obstacle_boxes(moved)[j].spec_right()
                <= moved.spec_right() by {
                assert(crate::segments::obstacle_boxes(ob)[j] == p.bounding_boxes@[j]);
                assert(crate::obstacles::wf_obstacle_rect(p.bounding_boxes@[j]));
                assert(q.bounding_boxes@[j] == (Rect {
                    position: Point {
                        x: (p.bounding_boxes@[j].position.x + v) as i16,
                        y: p.bounding_boxes@[j].position.y,
                    },
                    ..p.bounding_boxes@[j]
                }));
            }
            assert forall|j: int| 0 <= j < q.bounding_boxes@.len() implies crate::obstacles::wf_obstacle_rect(
                #[trigger] q.bounding_boxes@[j],
            ) && 0 <= q.bounding_boxes@[j].top() <= crate::character::HEIGHT by {
                assert(crate::segments::obstacle_boxes(ob)[j] == p.bounding_boxes@[j]);
                assert(crate::segments::obstacle_boxes(ob)[j].left() >= ob.spec_right() - 2400);
                assert(crate::obstacles::wf_obstacle_rect(p.bounding_boxes@[j]));
                assert(q.bounding_boxes@[j] == (Rect {
                    position: Point {
                        x: (p.bounding_boxes@[j].position.x + v) as i16,
                        y: p.bounding_boxes@[j].position.y,
                    },
                    ..p.bounding_boxes@[j]
                }));
            }
        },
        _ => {},
    }
}

/// Cull the obstacles already off screen, scroll the rest left, and test
/// each survivor against the character in order, applying the consequences.
fn advance_obstacles(obstacles: Vec<Obstacle>, velocity: i16, boy: &mut RedHatBoy) -> (r: Vec<
    Obstacle,
>)
    requires
        old(boy).wf(),
        -4 <= velocity <= 0,
        forall|i: int| 0 <= i < obstacles@.len() ==> walk_obstacle_ok(#[trigger] obstacles@[i]),
    ensures
        final(boy).wf(),
        final(boy).sprite_sheet == old(boy).sprite_sheet,
        final(boy).state_machine == process_obstacles(
            obstacles@,
            velocity,
            old(boy).sprite_sheet.frames@,
            old(boy).state_machine,
        ).0,
        final(boy).sound_cues@ == old(boy).sound_cues@ + process_obstacles(
            obstacles@,
            velocity,
            old(boy).sprite_sheet.frames@,
            old(boy).state_machine,
        ).1,
        is_culled_and_moved(obstacles@, r@, velocity),
        forall|i: int| 0 <= i < r@.len() ==> walk_obstacle_ok(#[trigger] r@[i]),
{
    let ghost orig = obstacles@;
    let ghost entries = old(boy).sprite_sheet.frames@;
    let ghost machine0 = old(boy).state_machine;
    let ghost cues0 = old(boy).sound_cues@;
    let ghost n0: int = cues0.len() as int;
    let mut remaining = obstacles;
    let mut out: Vec<Obstacle> = Vec::new();
    let ghost mut done: Seq<Obstacle> = Seq::empty();
    proof {
        assert(done + remaining@ =~= orig);
        assert(cues0.skip(n0) =~= Seq::<SoundCue>::empty());
        assert(Seq::<SoundCue>::empty() + process_obstacles(orig, velocity, entries, machine0).1
            =~= process_obstacles(orig, velocity, entries, machine0).1);
        assert(cues0.take(n0) =~= cues0);
    }
    while remaining.len() > 0
        invariant
            boy.wf(),
            boy.sprite_sheet.frames@ == entries,
            boy.sprite_sheet == old(boy).sprite_sheet,
            -4 <= velocity <= 0,
            orig == done + remaining@,
            forall|i: int| 0 <= i < remaining@.len() ==> walk_obstacle_ok(#[trigger] remaining@[i]),
            forall|i: int| 0 <= i < out@.len() ==> walk_obstacle_ok(#[trigger] out@[i]),
            is_culled_and_moved(done, out@, velocity),
            process_obstacles(orig, velocity, entries, machine0).0 == process_obstacles(
                remaining@,
                velocity,
                entries,
                boy.state_machine,
            ).0,
            0 <= n0 <= boy.sound_cues@.len(),
            boy.sound_cues@.take(n0) == cues0,
            process_obstacles(orig, velocity, entries, machine0).1 == boy.sound_cues@.skip(n0)
                + process_obstacles(remaining@, velocity, entries, boy.state_machine).1,
        decreases remaining@.len(),
    {
        let ghost rem_before = remaining@;
        let ghost machine_before = boy.state_machine;
        let ghost cues_before = boy.sound_cues@;
        let ghost done_before = done;
        let ghost out_before = out@;
        let mut ob = remaining.remove(0);
        proof {
            assert(rem_before[0] == ob);
            assert(rem_before.drop_first() =~= remaining@);
            assert(walk_obstacle_ok(rem_before[0]));
        }
        let keep = ob.right() > 0;
        if keep {
            proof {
                match rem_before[0] {
                    Obstacle::Barrier(b) => {
                        assert(crate::segments::obstacle_boxes(rem_before[0])[0]
                            == b.image.bounding_box);
                    },
                    Obstacle::Platform(p) => {
                        assert forall|j: int| 0 <= j < p.bounding_boxes@.len() implies -19000 <= (
                        #[trigger] p.bounding_boxes@[j]).left() + velocity <= 19000 by {
                            assert(crate::segments::obstacle_boxes(rem_before[0])[j]
                                == p.bounding_boxes@[j]);
                        }
                    },
                }
            }
            ob.move_horizontally(velocity);
            let ghost moved = ob;
            proof {
                lemma_moved_event_matches(rem_before[0], moved, velocity, entries, machine_before);
                lemma_moved_obstacle_ok(rem_before[0], moved, velocity);
            }
            ob.check_intersection(boy);
            out.push(ob);
            proof {
                done = done.push(rem_before[0]);
                assert(done.drop_last() =~= done_before);
                assert(done.last() == rem_before[0]);
                assert(done + remaining@ =~= orig);
                assert(out@.drop_last() =~= out_before);
                assert(out@.last() == moved);
                let head = apply_one(rem_before[0], velocity, entries, machine_before);
                assert(boy.state_machine == head.0);
                assert(boy.sound_cues@ =~= cues_before + head.1);
                assert(0 <= n0 <= cues_before.len());
                assert(boy.sound_cues@.take(n0) =~= cues_before.take(n0)) by {
                    assert(forall|i: int|
                        0 <= i < n0 ==> (cues_before + head.1)[i] == cues_before[i]);
                }
                assert forall|j: int|
                    0 <= j < cues_before.len() + head.1.len() - n0 implies #[trigger] boy.sound_cues@.skip(
                    n0,
                )[j] == (cues_before.skip(n0) + head.1)[j] by {
                    assert(boy.sound_cues@.skip(n0)[j] == (cues_before + head.1)[n0 + j]);
                    if n0 + j < cues_before.len() {
                        assert((cues_before + head.1)[n0 + j] == cues_before[n0 + j]);
                        assert((cues_before.skip(n0) + head.1)[j] == cues_before.skip(n0)[j]);
                    } else {
                        assert((cues_before + head.1)[n0 + j] == head.1[n0 + j
                            - cues_before.len()]);
                    }
                }
                assert(boy.sound_cues@.skip(n0) =~= cues_before.skip(n0) + head.1);
                assert((cues_before.skip(n0) + head.1) + process_obstacles(
                    remaining@,
                    velocity,
                    entries,
                    boy.state_machine,
                ).1 =~= cues_before.skip(n0) + (head.1 + process_obstacles(
                    remaining@,
                    velocity,
                    entries,
                    boy.state_machine,
                ).1));
            }
        } else {
            proof {
                done = done.push(rem_before[0]);
                assert(done.drop_last() =~= done_before);
                assert(done.last() == rem_before[0]);
                assert(done + remaining@ =~= orig);
                let head = apply_one(rem_before[0], velocity, entries, machine_before);
                assert(head.1 =~= Seq::<SoundCue>::empty());
                assert(head.1 + process_obstacles(
                    remaining@,
                    velocity,
                    entries,
                    boy.state_machine,
                ).1 =~= process_obstacles(remaining@, velocity, entries, boy.state_machine).1);
            }
        }
    }
    proof {
        assert(done =~= orig);
        assert(boy.sound_cues@.take(n0) + boy.sound_cues@.skip(n0) =~= boy.sound_cues@);
        assert(process_obstacles(remaining@, velocity, entries, boy.state_machine).1
            =~= Seq::<SoundCue>::empty());
        assert(boy.sound_cues@.skip(n0) + Seq::<SoundCue>::empty() =~= boy.sound_cues@.skip(n0));
        assert(cues0 + boy.sound_cues@.skip(n0) =~= boy.sound_cues@);
    }
    out
}

/// The session's phases; each carries the complete run.
pub enum WalkTheDogStateMachine {
    Ready(Walk),
    Walking(Walk),
    GameOver(Walk),
}

impl WalkTheDogStateMachine {
    /// The run the active phase carries.
    pub open spec fn walk(self) -> Walk {
        match self {
            WalkTheDogStateMachine::Ready(w) => w,
            WalkTheDogStateMachine::Walking(w) => w,
            WalkTheDogStateMachine::GameOver(w) => w,
        }
    }

    pub open spec fn wf(self) -> bool {
        self.walk().wf()
    }
}

/// What one tick in the Ready phase guarantees: the character idles in
/// place; a run-right input starts the run and hands the character the Run
/// event; nothing else changes.
pub open spec fn ready_step_ok(
    w: Walk,
    r: WalkTheDogStateMachine,
    keystate: FrameInput,
    ui0: Seq<Overlay>,
    ui1: Seq<Overlay>,
) -> bool {
    let ticked = spec_tick(w.boy.state_machine);
    let w2 = r.walk();
    &&& if keystate.run_right {
        &&& r is Walking
        &&& w2.boy.state_machine == spec_transition(ticked, Event::Run).0
        &&& w2.boy.sound_cues@ == w.boy.sound_cues@ + cue_seq(
            spec_transition(ticked, Event::Run).1,
        )
    } else {
        &&& r is Ready
        &&& w2.boy.state_machine == ticked
        &&& w2.boy.sound_cues@ == w.boy.sound_cues@
    }
    &&& w2.boy.sprite_sheet == w.boy.sprite_sheet
    &&& w2.backgrounds == w.backgrounds
    &&& w2.obstacles@ == w.obstacles@
    &&& w2.obstacle_sheet == w.obstacle_sheet
    &&& w2.stone == w.stone
    &&& w2.timeline == w.timeline
    &&& ui1 == ui0
}

/// What one tick in the Walking phase guarantees: held keys become Jump and
/// Slide events, the character ticks, the backgrounds scroll and wrap, the
/// obstacles are culled, scrolled and tested in order, the timeline either
/// advances with the scroll or a random segment is generated past it, and a
/// knocked-out character ends the phase and shows the new-game prompt.
pub open spec fn walking_step_ok(
    w: Walk,
    r: WalkTheDogStateMachine,
    keystate: FrameInput,
    ui0: Seq<Overlay>,
    ui1: Seq<Overlay>,
) -> bool {
    let m0 = w.boy.state_machine;
    let entries = w.boy.sprite_sheet.frames@;
    let m1 = if keystate.jump {
        spec_transition(m0, Event::Jump).0
    } else {
        m0
    };
    let c1 = if keystate.jump {
        cue_seq(spec_transition(m0, Event::Jump).1)
    } else {
        Seq::<SoundCue>::empty()
    };
    let m2 = if keystate.slide {
        spec_transition(m1, Event::Slide).0
    } else {
        m1
    };
    let c2 = if keystate.slide {
        cue_seq(spec_transition(m1, Event::Slide).1)
    } else {
        Seq::<SoundCue>::empty()
    };
    let m3 = spec_tick(m2);
    let v = (0 - m3.ctx().velocity.x) as i16;
    let processed = process_obstacles(w.obstacles@, v, entries, m3);
    let m4 = processed.0;
    let w2 = r.walk();
    &&& (m4 is KnockedOut ==> r is GameOver && ui1 == ui0.insert(0, Overlay::NewGameButton))
    &&& (!(m4 is KnockedOut) ==> r is Walking && ui1 == ui0)
    &&& w2.boy.state_machine == m4
    &&& w2.boy.sprite_sheet == w.boy.sprite_sheet
    &&& w2.boy.sound_cues@ == w.boy.sound_cues@ + c1 + c2 + processed.1
    &&& w2.backgrounds == spec_scroll(w.backgrounds, v)
    &&& w2.obstacle_sheet == w.obstacle_sheet
    &&& w2.stone == w.stone
    &&& if w.timeline < TIMELINE_MINIMUM {
        &&& w2.obstacles@.len() >= 2
        &&& is_culled_and_moved(w.obstacles@, w2.obstacles@.take(w2.obstacles@.len() - 2), v)
        &&& exists|choice: int|
            0 <= choice < 3 && #[trigger] is_chosen_segment(
                w2.obstacles@.skip(w2.obstacles@.len() - 2),
                w.obstacle_sheet.frames@,
                w.stone,
                w.timeline + OBSTACLE_BUFFER,
                choice,
            )
        &&& w2.timeline as int == rightmost_spec(w2.obstacles@.skip(w2.obstacles@.len() - 2))
    } else {
        &&& is_culled_and_moved(w.obstacles@, w2.obstacles@, v)
        &&& w2.timeline == w.timeline + v
    }
}

/// What one tick in the GameOver phase guarantees: a new-game click hides
/// the prompt and rebuilds the run from scratch with a reset character;
/// otherwise nothing changes.
pub open spec fn game_over_step_ok(
    w: Walk,
    r: WalkTheDogStateMachine,
    keystate: FrameInput,
    ui0: Seq<Overlay>,
    ui1: Seq<Overlay>,
) -> bool {
    let w2 = r.walk();
    if keystate.new_game {
        &&& r is Ready
        &&& w2.boy.state_machine == RedHatBoyStateMachine::Idle(
            crate::character::initial_context(w.boy.state_machine.ctx().counts),
        )
        &&& w2.boy.sprite_sheet == w.boy.sprite_sheet
        &&& w2.boy.sound_cues@ == Seq::<SoundCue>::empty()
        &&& w2.backgrounds == w.backgrounds
        &&& w2.stone == w.stone
        &&& w2.obstacle_sheet == w.obstacle_sheet
        &&& crate::segments::is_segment(
            w2.obstacles@,
            w.obstacle_sheet.frames@,
            w.stone,
            0,
            crate::segments::INITIAL_STONE_OFFSET as int,
            crate::segments::FIRST_PLATFORM as int,
            crate::segments::floating_platform_keys(),
        )
        &&& w2.timeline as int == rightmost_spec(w2.obstacles@)
        &&& (ui0.len() == 0 ==> ui1 == ui0)
        &&& (ui0.len() > 0 ==> ui1 == ui0.drop_first())
    } else {
        &&& r == WalkTheDogStateMachine::GameOver(w)
        &&& ui1 == ui0
    }
}

/// What one tick of the session machine guarantees, phase by phase.
pub open spec fn session_step_ok(
    m: WalkTheDogStateMachine,
    r: WalkTheDogStateMachine,
    keystate: FrameInput,
    ui0: Seq<Overlay>,
    ui1: Seq<Overlay>,
) -> bool {
    match m {
        WalkTheDogStateMachine::Ready(w) => ready_step_ok(w, r, keystate, ui0, ui1),
        WalkTheDogStateMachine::Walking(w) => walking_step_ok(w, r, keystate, ui0, ui1),
        WalkTheDogStateMachine::GameOver(w) => game_over_step_ok(w, r, keystate, ui0, ui1),
    }
}

impl WalkTheDogStateMachine {
    /// A new session starts in the Ready phase.
    pub fn new(walk: Walk) -> (r: Self)
        requires
            walk.wf(),
        ensures
            r == WalkTheDogStateMachine::Ready(walk),
            r.wf(),
    {
        WalkTheDogStateMachine::Ready(walk)
    }

    /// One simulation tick: consume the phase, produce the next.
    pub fn update(self, keystate: &FrameInput, ui: &mut Ui) -> (r: Self)
        requires
            self.wf(),
        ensures
            r.wf(),
            session_step_ok(self, r, *keystate, old(ui).overlays@, final(ui).overlays@),
    {
        match self {
            WalkTheDogStateMachine::Ready(mut walk) => {
                walk.boy.update();
                if keystate.run_right {
                    walk.boy.run_right();
                    WalkTheDogStateMachine::Walking(walk)
                } else {
                    WalkTheDogStateMachine::Ready(walk)
                }
            },
            WalkTheDogStateMachine::Walking(mut walk) => {
                if keystate.jump {
                    walk.boy.jump();
                }
                if keystate.slide {
                    walk.boy.slide();
                }
                walk.boy.update();
                let walking_speed = walk.velocity();
                walk.backgrounds.scroll(walking_speed);
                let mut obstacles: Vec<Obstacle> = Vec::new();
                core::mem::swap(&mut walk.obstacles, &mut obstacles);
                let advanced = advance_obstacles(obstacles, walking_speed, &mut walk.boy);
                walk.obstacles = advanced;
                if walk.timeline < TIMELINE_MINIMUM {
                    walk.generate_next_segment();
                } else {
                    walk.timeline = walk.timeline + walking_speed;
                }
                if walk.knocked_out() {
                    draw_ui(ui, Overlay::NewGameButton);
                    WalkTheDogStateMachine::GameOver(walk)
                } else {
                    WalkTheDogStateMachine::Walking(walk)
                }
            },
            WalkTheDogStateMachine::GameOver(walk) => {
                if keystate.new_game {
                    hide_ui(ui);
                    WalkTheDogStateMachine::Ready(Walk::reset(walk))
                } else {
                    WalkTheDogStateMachine::GameOver(walk)
                }
            },
        }
    }
}

/// The game as the frame driver sees it: an optional session machine (none
/// until initialization) and the UI overlay model.
pub struct WalkTheDog {
    pub machine: Option<WalkTheDogStateMachine>,
    pub ui: Ui,
}

impl WalkTheDog {
    pub open spec fn wf(self) -> bool {
        self.machine matches Some(m) ==> m.wf()
    }

    /// A game that has not been initialized yet.
    pub fn new() -> (r: WalkTheDog)
        ensures
            r.machine is None,
            r.ui.overlays@ =~= Seq::<Overlay>::empty(),
            r.wf(),
    {
        WalkTheDog { machine: None, ui: Ui::new() }
    }

    /// Hand the game its freshly built run. Fails exactly when the game was
    /// already initialized.
    pub fn initialize(self, walk: Walk) -> (r: Result<WalkTheDog, crate::boy::GameError>)
        requires
            walk.wf(),
        ensures
            self.machine is None ==> (r matches Ok(g) && g.machine == Some(
                WalkTheDogStateMachine::Ready(walk),
            ) && g.ui == self.ui && g.wf()),
            self.machine is Some ==> r == Err::<WalkTheDog, crate::boy::GameError>(
                crate::boy::GameError::AlreadyInitialized,
            ),
    {
        match self.machine {
            None => Ok(
                WalkTheDog {
                    machine: Some(WalkTheDogStateMachine::new(walk)),
                    ui: self.ui,
                },
            ),
            Some(_) => Err(crate::boy::GameError::AlreadyInitialized),
        }
    }

    /// One simulation tick: step the session machine on the input snapshot.
    /// Before initialization a tick does nothing.
    pub fn update(&mut self, keystate: &FrameInput)
        requires
            old(self).wf(),
        ensures
            final(self).wf(),
            old(self).machine is None ==> final(self).machine is None && final(self).ui
                == old(self).ui,
            old(self).machine matches Some(m) ==> (final(self).machine matches Some(m2)
                && session_step_ok(
                m,
                m2,
                *keystate,
                old(self).ui.overlays@,
                final(self).ui.overlays@,
            )),
    {
        let mut machine: Option<WalkTheDogStateMachine> = None;
        core::mem::swap(&mut self.machine, &mut machine);
        match machine {
            Some(m) => {
                self.machine = Some(m.update(keystate, &mut self.ui));
            },
            None => {},
        }
    }
}

} // verus!
