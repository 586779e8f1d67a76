//! The playable character: the action state machine together with its
//! sprite sheet, and the collision box derived from the current sprite.

use vstd::prelude::*;
use crate::character::Event;
use crate::character::FrameCounts;
use crate::character::RedHatBoyStateMachine;
use crate::character::SoundCue;
use crate::character::HEIGHT;
use crate::character::initial_context;
use crate::character::spec_tick;
use crate::character::spec_transition;
use crate::character::wf_counts;
use crate::geometry::Point;
use crate::geometry::Rect;
use crate::sprites::AnimationName;
use crate::sprites::Cell;
use crate::sprites::FrameKey;
use crate::sprites::Sheet;
use crate::sprites::SpriteEntry;
use crate::sprites::find_in;

verus! {

/// Horizontal trim inset of the collision box within the drawn sprite.
pub const BOUNDING_BOX_X_OFFSET: i16 = 18;

/// Vertical trim inset of the collision box within the drawn sprite.
pub const BOUNDING_BOX_Y_OFFSET: i16 = 14;

/// Total width trimmed off the drawn sprite for the collision box.
pub const BOUNDING_BOX_WIDTH_OFFSET: i16 = 28;

/// A failure constructing part of the game.
#[derive(Clone, Copy, Debug, PartialEq, Eq, Structural)]
pub enum GameError {
    /// The game was asked to initialize a second time.
    AlreadyInitialized,
    /// An animation length is outside the supported range.
    InvalidFrameCounts,
    /// The sprite sheet lacks a frame some character state would display.
    MissingFrame,
}

/// A sheet cell the character can be drawn and collided from: bounded
/// geometry, wide and tall enough for the trim insets.
pub open spec fn cell_ok(cell: Cell) -> bool {
    &&& 0 <= cell.frame.x <= 2000
    &&& 0 <= cell.frame.y <= 2000
    &&& BOUNDING_BOX_WIDTH_OFFSET <= cell.frame.w <= 2000
    &&& BOUNDING_BOX_Y_OFFSET <= cell.frame.h <= 2000
    &&& 0 <= cell.sprite_source_size.x <= 2000
    &&& 0 <= cell.sprite_source_size.y <= 2000
}

/// The sheet holds a usable cell for every frame index the given animation
/// can display: indices `1 ..= count / 3 + 1`, since each animation step
/// spans 3 simulation ticks.
pub open spec fn covers_animation(entries: Seq<SpriteEntry>, name: AnimationName, count: u8) -> bool {
    forall|i: u8|
        1 <= i && 3 * (i as int - 1) <= count ==> {
            &&& #[trigger] find_in(entries, FrameKey::Animation(name, i)) is Some
            &&& cell_ok(find_in(entries, FrameKey::Animation(name, i)).unwrap())
        }
}

/// The sheet covers every animation of every state, for the given lengths.
pub open spec fn covers(entries: Seq<SpriteEntry>, counts: FrameCounts) -> bool {
    &&& covers_animation(entries, AnimationName::Idle, counts.idle)
    &&& covers_animation(entries, AnimationName::Run, counts.running)
    &&& covers_animation(entries, AnimationName::Slide, counts.sliding)
    &&& covers_animation(entries, AnimationName::Jump, counts.jumping)
    &&& covers_animation(entries, AnimationName::Dead, counts.falling)
}

/// The sounds a transition asks for, as a sequence to append.
pub open spec fn cue_seq(cue: Option<SoundCue>) -> Seq<SoundCue> {
    match cue {
        Some(c) => seq![c],
        None => Seq::empty(),
    }
}

/// The key of the sprite a machine in this state displays.
pub open spec fn current_key_of(machine: RedHatBoyStateMachine) -> FrameKey {
    FrameKey::Animation(machine.spec_frame_name(), (machine.ctx().frame / 3 + 1) as u8)
}

/// The cell a machine displays, looked up in the given frame map.
pub open spec fn sprite_of(entries: Seq<SpriteEntry>, machine: RedHatBoyStateMachine) -> Option<
    Cell,
> {
    find_in(entries, current_key_of(machine))
}

/// Where the current sprite is drawn: the character's position offset by
/// the sprite's trim, at the sprite's size.
pub open spec fn destination_box_of(
    entries: Seq<SpriteEntry>,
    machine: RedHatBoyStateMachine,
) -> Rect {
    let c = machine.ctx();
    let cell = sprite_of(entries, machine).unwrap();
    Rect {
        position: Point {
            x: (c.position.x + cell.sprite_source_size.x) as i16,
            y: (c.position.y + cell.sprite_source_size.y) as i16,
        },
        width: cell.frame.w,
        height: cell.frame.h,
    }
}

/// The collision box: the destination box with fixed trim insets that
/// exclude the sprite's transparent padding.
pub open spec fn bounding_box_of(
    entries: Seq<SpriteEntry>,
    machine: RedHatBoyStateMachine,
) -> Rect {
    let dest = destination_box_of(entries, machine);
    Rect {
        position: Point {
            x: (dest.position.x + BOUNDING_BOX_X_OFFSET) as i16,
            y: (dest.position.y + BOUNDING_BOX_Y_OFFSET) as i16,
        },
        width: (dest.width - BOUNDING_BOX_WIDTH_OFFSET) as i16,
        height: (dest.height - BOUNDING_BOX_Y_OFFSET) as i16,
    }
}

/// A covering sheet holds a usable cell for whatever a well-formed machine
/// displays.
pub proof fn lemma_sprite_of_ok(entries: Seq<SpriteEntry>, machine: RedHatBoyStateMachine)
    requires
        machine.wf(),
        covers(entries, machine.ctx().counts),
    ensures
        sprite_of(entries, machine) is Some,
        cell_ok(sprite_of(entries, machine).unwrap()),
{
    let c = machine.ctx();
    let count = machine.frame_count();
    let i = (c.frame / 3 + 1) as u8;
    assert(3 * (c.frame / 3) <= c.frame);
    assert(1 <= i && 3 * (i as int - 1) <= count);
}

/// The collision box of a well-formed machine with a covering sheet has
/// edges that fit and screen-scale size.
pub proof fn lemma_bounding_box_of_fits(entries: Seq<SpriteEntry>, machine: RedHatBoyStateMachine)
    requires
        machine.wf(),
        covers(entries, machine.ctx().counts),
    ensures
        bounding_box_of(entries, machine).edges_fit(),
        -4000 <= bounding_box_of(entries, machine).left() <= 4000,
        -4000 <= bounding_box_of(entries, machine).top() <= 4000,
        0 <= bounding_box_of(entries, machine).width <= 2000,
        0 <= bounding_box_of(entries, machine).height <= 2000,
{
    lemma_sprite_of_ok(entries, machine);
}

/// The playable character: a state machine, the sprite sheet its frames are
/// drawn from, and the sounds transitions have asked for since the owner
/// last collected them.
pub struct RedHatBoy {
    pub state_machine: RedHatBoyStateMachine,
    pub sprite_sheet: Sheet,
    pub sound_cues: Vec<SoundCue>,
}

impl RedHatBoy {
    /// Well-formed: the machine is in bounds and the sheet covers every
    /// frame any state could display.
    pub open spec fn wf(self) -> bool {
        &&& self.state_machine.wf()
        &&& covers(self.sprite_sheet.frames@, self.state_machine.ctx().counts)
    }

    /// The key of the sprite the character currently displays.
    pub open spec fn current_key(self) -> FrameKey {
        current_key_of(self.state_machine)
    }

    /// The cell the character currently displays.
    pub open spec fn spec_current_sprite(self) -> Option<Cell> {
        sprite_of(self.sprite_sheet.frames@, self.state_machine)
    }

    /// Where the current sprite is drawn.
    pub open spec fn spec_destination_box(self) -> Rect {
        destination_box_of(self.sprite_sheet.frames@, self.state_machine)
    }

    /// The collision box obstacles test against.
    pub open spec fn spec_bounding_box(self) -> Rect {
        bounding_box_of(self.sprite_sheet.frames@, self.state_machine)
    }

    /// A well-formed character always has a usable current sprite.
    pub proof fn lemma_current_sprite_ok(self)
        requires
            self.wf(),
        ensures
            self.spec_current_sprite() is Some,
            cell_ok(self.spec_current_sprite().unwrap()),
    {
        lemma_sprite_of_ok(self.sprite_sheet.frames@, self.state_machine);
    }

    /// The collision box of a well-formed character has edges that fit,
    /// so it can be intersected with obstacle boxes.
    pub proof fn lemma_bounding_box_fits(self)
        requires
            self.wf(),
        ensures
            self.spec_bounding_box().edges_fit(),
            -4000 <= self.spec_bounding_box().left() <= 4000,
            -4000 <= self.spec_bounding_box().top() <= 4000,
            0 <= self.spec_bounding_box().width <= 2000,
            0 <= self.spec_bounding_box().height <= 2000,
    {
        lemma_bounding_box_of_fits(self.sprite_sheet.frames@, self.state_machine);
    }

    /// Build a character from a sprite sheet and the animation lengths that
    /// sheet was authored for. Fails exactly when a length is out of range
    /// or the sheet lacks a frame some state would display.
    pub fn new(sprite_sheet: Sheet, counts: FrameCounts) -> (r: Result<RedHatBoy, GameError>)
        ensures
            wf_counts(counts) && covers(sprite_sheet.frames@, counts) ==> (r matches Ok(boy)
                && boy.state_machine == RedHatBoyStateMachine::Idle(initial_context(counts))
                && boy.sprite_sheet == sprite_sheet && boy.sound_cues@ == Seq::<
                SoundCue,
            >::empty() && boy.wf()),
            !wf_counts(counts) ==> r == Err::<RedHatBoy, GameError>(GameError::InvalidFrameCounts),
            wf_counts(counts) && !covers(sprite_sheet.frames@, counts) ==> r == Err::<
                RedHatBoy,
                GameError,
            >(GameError::MissingFrame),
    {
        if !(1 <= counts.idle && counts.idle <= 240 && 1 <= counts.running && counts.running <= 240
            && 1 <= counts.sliding && counts.sliding <= 240 && 1 <= counts.jumping
            && counts.jumping <= 240 && 1 <= counts.falling && counts.falling <= 240) {
            return Err(GameError::InvalidFrameCounts);
        }
        let all_covered = check_animation(&sprite_sheet, AnimationName::Idle, counts.idle)
            && check_animation(&sprite_sheet, AnimationName::Run, counts.running)
            && check_animation(&sprite_sheet, AnimationName::Slide, counts.sliding)
            && check_animation(&sprite_sheet, AnimationName::Jump, counts.jumping)
            && check_animation(&sprite_sheet, AnimationName::Dead, counts.falling);
        if !all_covered {
            return Err(GameError::MissingFrame);
        }
        Ok(RedHatBoy {
            state_machine: RedHatBoyStateMachine::new(counts),
            sprite_sheet,
            sound_cues: Vec::new(),
        })
    }

    /// A fresh character sharing the same sheet and configuration, with
    /// reset physics state.
    pub fn reset(boy: Self) -> (r: Self)
        requires
            boy.wf(),
        ensures
            r.state_machine == RedHatBoyStateMachine::Idle(
                initial_context(boy.state_machine.ctx().counts),
            ),
            r.sprite_sheet == boy.sprite_sheet,
            r.sound_cues@ == Seq::<SoundCue>::empty(),
            r.wf(),
    {
        let counts = boy.state_machine.context().counts;
        RedHatBoy {
            state_machine: RedHatBoyStateMachine::new(counts),
            sprite_sheet: boy.sprite_sheet,
            sound_cues: Vec::new(),
        }
    }

    /// One simulation tick.
    pub fn update(&mut self)
        requires
            old(self).wf(),
        ensures
            final(self).state_machine == spec_tick(old(self).state_machine),
            final(self).sprite_sheet == old(self).sprite_sheet,
            final(self).sound_cues == old(self).sound_cues,
            final(self).wf(),
    {
        self.state_machine = self.state_machine.update();
    }

    fn apply(&mut self, event: Event)
        requires
            old(self).wf(),
            crate::character::wf_event(event),
        ensures
            final(self).state_machine == spec_transition(old(self).state_machine, event).0,
            final(self).sprite_sheet == old(self).sprite_sheet,
            final(self).sound_cues@ == old(self).sound_cues@ + cue_seq(
                spec_transition(old(self).state_machine, event).1,
            ),
            final(self).wf(),
    {
        let (machine, cue) = self.state_machine.transition(event);
        self.state_machine = machine;
        match cue {
            Some(c) => self.sound_cues.push(c),
            None => {},
        }
    }

    /// Start running.
    pub fn run_right(&mut self)
        requires
            old(self).wf(),
        ensures
            final(self).state_machine == spec_transition(old(self).state_machine, Event::Run).0,
            final(self).sprite_sheet == old(self).sprite_sheet,
            final(self).sound_cues@ == old(self).sound_cues@ + cue_seq(
                spec_transition(old(self).state_machine, Event::Run).1,
            ),
            final(self).wf(),
    {
        self.apply(Event::Run);
    }

    /// Start sliding.
    pub fn slide(&mut self)
        requires
            old(self).wf(),
        ensures
            final(self).state_machine == spec_transition(old(self).state_machine, Event::Slide).0,
            final(self).sprite_sheet == old(self).sprite_sheet,
            final(self).sound_cues@ == old(self).sound_cues@ + cue_seq(
                spec_transition(old(self).state_machine, Event::Slide).1,
            ),
            final(self).wf(),
    {
        self.apply(Event::Slide);
    }

    /// Start a jump.
    pub fn jump(&mut self)
        requires
            old(self).wf(),
        ensures
            final(self).state_machine == spec_transition(old(self).state_machine, Event::Jump).0,
            final(self).sprite_sheet == old(self).sprite_sheet,
            final(self).sound_cues@ == old(self).sound_cues@ + cue_seq(
                spec_transition(old(self).state_machine, Event::Jump).1,
            ),
            final(self).wf(),
    {
        self.apply(Event::Jump);
    }

    /// Seat the character's feet on `y`.
    pub fn land_on(&mut self, y: i16)
        requires
            old(self).wf(),
            0 <= y <= HEIGHT,
        ensures
            final(self).state_machine == spec_transition(old(self).state_machine, Event::Land(y)).0,
            final(self).sprite_sheet == old(self).sprite_sheet,
            final(self).sound_cues@ == old(self).sound_cues@ + cue_seq(
                spec_transition(old(self).state_machine, Event::Land(y)).1,
            ),
            final(self).wf(),
    {
        self.apply(Event::Land(y));
    }

    /// Knock the character out.
    pub fn knock_out(&mut self)
        requires
            old(self).wf(),
        ensures
            final(self).state_machine == spec_transition(old(self).state_machine, Event::KnockOut).0,
            final(self).sprite_sheet == old(self).sprite_sheet,
            final(self).sound_cues@ == old(self).sound_cues@ + cue_seq(
                spec_transition(old(self).state_machine, Event::KnockOut).1,
            ),
            final(self).wf(),
    {
        self.apply(Event::KnockOut);
    }

    /// True only once the terminal state is reached.
    pub fn knocked_out(&self) -> (r: bool)
        ensures
            r == (self.state_machine is KnockedOut),
    {
        self.state_machine.knocked_out()
    }

    /// The character's vertical position (top-left of its sprite canvas).
    pub fn pos_y(&self) -> (r: i16)
        ensures
            r == self.state_machine.ctx().position.y,
    {
        self.state_machine.context().position.y
    }

    /// The character's vertical velocity.
    pub fn velocity_y(&self) -> (r: i16)
        ensures
            r == self.state_machine.ctx().velocity.y,
    {
        self.state_machine.context().velocity.y
    }

    /// The speed the world scrolls at while the character runs.
    pub fn walking_speed(&self) -> (r: i16)
        ensures
            r == self.state_machine.ctx().velocity.x,
    {
        self.state_machine.context().velocity.x
    }

    /// The cell the character currently displays; a well-formed character
    /// always has one.
    pub fn current_sprite(&self) -> (r: Option<Cell>)
        requires
            self.wf(),
        ensures
            r == self.spec_current_sprite(),
            r is Some,
            cell_ok(r.unwrap()),
    {
        proof {
            self.lemma_current_sprite_ok();
        }
        let c = self.state_machine.context();
        let key = FrameKey::Animation(self.state_machine.frame_name(), c.frame / 3 + 1);
        self.sprite_sheet.get(key)
    }

    /// Where the current sprite is drawn on screen.
    pub fn destination_box(&self) -> (r: Rect)
        requires
            self.wf(),
        ensures
            r == self.spec_destination_box(),
    {
        proof {
            self.lemma_current_sprite_ok();
        }
        let sprite = match self.current_sprite() {
            Some(cell) => cell,
            None => unreached(),
        };
        let c = self.state_machine.context();
        Rect::new_from_x_y(
            c.position.x + sprite.sprite_source_size.x,
            c.position.y + sprite.sprite_source_size.y,
            sprite.frame.w,
            sprite.frame.h,
        )
    }

    /// The collision box obstacles test against.
    pub fn bounding_box(&self) -> (r: Rect)
        requires
            self.wf(),
        ensures
            r == self.spec_bounding_box(),
            r.edges_fit(),
    {
        proof {
            self.lemma_current_sprite_ok();
            self.lemma_bounding_box_fits();
        }
        let mut bounding_box = self.destination_box();
        bounding_box.add_x(BOUNDING_BOX_X_OFFSET);
        bounding_box.width = bounding_box.width - BOUNDING_BOX_WIDTH_OFFSET;
        bounding_box.add_y(BOUNDING_BOX_Y_OFFSET);
        bounding_box.height = bounding_box.height - BOUNDING_BOX_Y_OFFSET;
        bounding_box
    }

    /// Hand over the sounds transitions have asked for since the last call.
    pub fn take_sound_cues(&mut self) -> (r: Vec<SoundCue>)
        ensures
            r@ == old(self).sound_cues@,
            final(self).sound_cues@ == Seq::<SoundCue>::empty(),
            final(self).state_machine == old(self).state_machine,
            final(self).sprite_sheet == old(self).sprite_sheet,
    {
        let mut cues: Vec<SoundCue> = Vec::new();
        core::mem::swap(&mut self.sound_cues, &mut cues);
        cues
    }
}

/// Check that the sheet holds a usable cell for every frame index of one
/// animation.
fn check_animation(sheet: &Sheet, name: AnimationName, count: u8) -> (r: bool)
    requires
        1 <= count <= 240,
    ensures
        r == covers_animation(sheet.frames@, name, count),
{
    let last: u8 = count / 3 + 1;
    let mut i: u8 = 1;
    while i <= last
        invariant
            1 <= i <= last + 1,
            last == count / 3 + 1,
            1 <= count <= 240,
            forall|j: u8|
                1 <= j < i ==> {
                    &&& #[trigger] find_in(sheet.frames@, FrameKey::Animation(name, j)) is Some
                    &&& cell_ok(find_in(sheet.frames@, FrameKey::Animation(name, j)).unwrap())
                },
        decreases last + 1 - i,
    {
        match sheet.get(FrameKey::Animation(name, i)) {
            Some(cell) => {
                let ok = 0 <= cell.frame.x && cell.frame.x <= 2000 && 0 <= cell.frame.y
                    && cell.frame.y <= 2000 && BOUNDING_BOX_WIDTH_OFFSET <= cell.frame.w
                    && cell.frame.w <= 2000 && BOUNDING_BOX_Y_OFFSET <= cell.frame.h
                    && cell.frame.h <= 2000 && 0 <= cell.sprite_source_size.x
                    && cell.sprite_source_size.x <= 2000 && 0 <= cell.sprite_source_size.y
                    && cell.sprite_source_size.y <= 2000;
                if !ok {
                    assert(!covers_animation(sheet.frames@, name, count)) by {
                        assert(3 * (i as int - 1) <= count);
                    }
                    return false;
                }
            },
            None => {
                assert(!covers_animation(sheet.frames@, name, count)) by {
                    assert(3 * (i as int - 1) <= count);
                }
                return false;
            },
        }
        i = i + 1;
    }
    assert forall|j: u8| 1 <= j && 3 * (j as int - 1) <= count implies {
        &&& #[trigger] find_in(sheet.frames@, FrameKey::Animation(name, j)) is Some
        &&& cell_ok(find_in(sheet.frames@, FrameKey::Animation(name, j)).unwrap())
    } by {
        assert(j as int - 1 <= count / 3);
    }
    true
}

} // verus!
