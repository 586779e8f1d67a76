//! The complete in-progress run: the character, the looping background
//! pair, the obstacle list, the shared tile sheet, the stone size, and the
//! timeline (rightmost placed extent) that decides when to generate more.

use vstd::prelude::*;
use crate::boy::RedHatBoy;
use crate::geometry::Point;
use crate::geometry::Rect;
use crate::obstacles::Image;
use crate::obstacles::Obstacle;
use crate::segments::ImageSize;
use crate::segments::boxes_left_of;
use crate::segments::boxes_right_of;
use crate::segments::is_segment;
use crate::segments::max_int;
use crate::segments::obstacle_boxes;
use crate::segments::platform_and_stone;
use crate::segments::segment_common;
use crate::segments::segment_rightmost;
use crate::segments::stone_and_platform;
use crate::segments::weird_platform_and_stone;
use crate::segments::floating_platform_keys;
use crate::segments::watery_platform_keys;
use crate::segments::FIRST_PLATFORM;
use crate::segments::INITIAL_STONE_OFFSET;
use crate::sprites::Sheet;

verus! {

/// Generation fires once the timeline falls below this look-ahead, so
/// obstacles always exist before they could scroll into view.
pub const TIMELINE_MINIMUM: i16 = 1000;

/// Gap kept between one segment's rightmost extent and the next segment.
pub const OBSTACLE_BUFFER: i16 = 20;

/// The two-element looping background pair; whichever image falls fully off
/// screen to the left is repositioned immediately to the right of the other.
#[derive(Clone, Copy, Debug, PartialEq, Eq, Structural)]
pub struct Backgrounds {
    pub first: Image,
    pub second: Image,
}

impl Backgrounds {
    /// The shared width of the two images.
    pub open spec fn width(self) -> int {
        self.first.bounding_box.width as int
    }

    /// The smaller of the two left edges.
    pub open spec fn min_x(self) -> int {
        if self.first.bounding_box.left() <= self.second.bounding_box.left() {
            self.first.bounding_box.left()
        } else {
            self.second.bounding_box.left()
        }
    }

    /// Well-formed: equal, screen-scale sizes at height zero; the two images
    /// exactly adjacent; and the pair never drifts: the left image hangs at
    /// most one scroll step off screen and never past the origin.
    pub open spec fn wf(self) -> bool {
        let w = self.width();
        &&& 16 <= w <= 2000
        &&& self.second.bounding_box.width == w
        &&& 0 <= self.first.bounding_box.height <= 2000
        &&& 0 <= self.second.bounding_box.height <= 2000
        &&& self.first.bounding_box.position.y == 0
        &&& self.second.bounding_box.position.y == 0
        &&& (self.second.bounding_box.left() == self.first.bounding_box.left() + w
            || self.first.bounding_box.left() == self.second.bounding_box.left() + w)
        &&& -(w + 4) <= self.min_x() <= 0
    }

    /// A fresh pair: one image at the origin, the other immediately right.
    pub fn new(size: ImageSize) -> (r: Backgrounds)
        requires
            16 <= size.width <= 2000,
            0 <= size.height <= 2000,
        ensures
            r.first.bounding_box == (Rect {
                position: Point { x: 0, y: 0 },
                width: size.width,
                height: size.height,
            }),
            r.second.bounding_box == (Rect {
                position: Point { x: size.width, y: 0 },
                width: size.width,
                height: size.height,
            }),
            r.wf(),
    {
        Backgrounds {
            first: Image::new(Point { x: 0, y: 0 }, size.width, size.height),
            second: Image::new(Point { x: size.width, y: 0 }, size.width, size.height),
        }
    }
}

/// One scroll step of the background pair: both images move left by the
/// scroll velocity, then whichever has fully left the screen is placed
/// immediately to the right of the other (checked for each image in turn).
pub open spec fn spec_scroll(bg: Backgrounds, velocity: i16) -> Backgrounds {
    let f1 = Rect {
        position: Point {
            x: (bg.first.bounding_box.position.x + velocity) as i16,
            y: bg.first.bounding_box.position.y,
        },
        ..bg.first.bounding_box
    };
    let s1 = Rect {
        position: Point {
            x: (bg.second.bounding_box.position.x + velocity) as i16,
            y: bg.second.bounding_box.position.y,
        },
        ..bg.second.bounding_box
    };
    let f2 = if f1.spec_right() < 0 {
        Rect { position: Point { x: s1.spec_right() as i16, y: f1.position.y }, ..f1 }
    } else {
        f1
    };
    let s2 = if s1.spec_right() < 0 {
        Rect { position: Point { x: f2.spec_right() as i16, y: s1.position.y }, ..s1 }
    } else {
        s1
    };
    Backgrounds { first: Image { bounding_box: f2 }, second: Image { bounding_box: s2 } }
}

impl Backgrounds {
    /// Scroll both images left and wrap whichever fell off screen.
    pub fn scroll(&mut self, velocity: i16)
        requires
            old(self).wf(),
            -4 <= velocity <= 0,
        ensures
            *final(self) == spec_scroll(*old(self), velocity),
            final(self).wf(),
    {
        self.first.move_horizontally(velocity);
        self.second.move_horizontally(velocity);
        if self.first.right() < 0 {
            let x = self.second.right();
            self.first.set_x(x);
        }
        if self.second.right() < 0 {
            let x = self.first.right();
            self.second.set_x(x);
        }
    }
}

/// The rightmost extent among the obstacles, or zero with none placed.
pub open spec fn rightmost_spec(obstacles: Seq<Obstacle>) -> int {
    if obstacles.len() == 0 {
        0
    } else {
        max_of_rights(obstacles)
    }
}

/// The largest right edge of a non-empty obstacle list.
pub open spec fn max_of_rights(obstacles: Seq<Obstacle>) -> int
    recommends
        obstacles.len() > 0,
    decreases obstacles.len(),
{
    if obstacles.len() <= 1 {
        obstacles[0].spec_right()
    } else {
        max_int(max_of_rights(obstacles.drop_last()), obstacles.last().spec_right())
    }
}

/// The maximum dominates every element.
pub proof fn lemma_max_of_rights_ge(obstacles: Seq<Obstacle>, i: int)
    requires
        0 <= i < obstacles.len(),
    ensures
        max_of_rights(obstacles) >= obstacles[i].spec_right(),
    decreases obstacles.len(),
{
    if obstacles.len() > 1 && i < obstacles.len() - 1 {
        lemma_max_of_rights_ge(obstacles.drop_last(), i);
    }
}

/// The maximum is bounded by any bound on the elements.
pub proof fn lemma_max_of_rights_le(obstacles: Seq<Obstacle>, bound: int)
    requires
        obstacles.len() > 0,
        forall|i: int| 0 <= i < obstacles.len() ==> (#[trigger] obstacles[i]).spec_right() <= bound,
    ensures
        max_of_rights(obstacles) <= bound,
    decreases obstacles.len(),
{
    if obstacles.len() > 1 {
        lemma_max_of_rights_le(obstacles.drop_last(), bound);
    }
}

/// The rightmost extent among the obstacles, used to decide where the next
/// segment is placed; zero when the list is empty.
pub fn rightmost(obstacle_list: &Vec<Obstacle>) -> (r: i16)
    requires
        forall|i: int| 0 <= i < obstacle_list@.len() ==> (#[trigger] obstacle_list@[i]).wf(),
    ensures
        r as int == rightmost_spec(obstacle_list@),
{
    let n = obstacle_list.len();
    if n == 0 {
        return 0;
    }
    let mut best = obstacle_list[0].right();
    let mut i: usize = 1;
    proof {
        assert(obstacle_list@.take(1).drop_last() =~= Seq::<Obstacle>::empty());
        assert(obstacle_list@.take(1)[0] == obstacle_list@[0]);
    }
    while i < n
        invariant
            1 <= i <= n,
            n == obstacle_list@.len(),
            forall|k: int| 0 <= k < n ==> (#[trigger] obstacle_list@[k]).wf(),
            best as int == max_of_rights(obstacle_list@.take(i as int)),
            -22000 <= best <= 22000,
        decreases n - i,
    {
        let right = obstacle_list[i].right();
        proof {
            assert(obstacle_list@.take(i as int + 1).drop_last() =~= obstacle_list@.take(i as int));
            assert(obstacle_list@.take(i as int + 1).last() == obstacle_list@[i as int]);
        }
        if right > best {
            best = right;
        }
        i = i + 1;
    }
    proof {
        assert(obstacle_list@.take(n as int) =~= obstacle_list@);
    }
    best
}

/// Relies on rand's `Rng::gen_range` through `thread_rng`: it returns a
/// value uniformly drawn from the given range, so `0..3` yields one of
/// 0, 1, 2; the range is non-empty, so the call does not panic.
#[verifier::external_body]
fn random_segment_index() -> (r: u32)
    ensures
        r < 3,
{
    rand::Rng::gen_range(&mut rand::thread_rng(), 0u32..3u32)
}

/// A bound every obstacle carried by a walk satisfies. The bounds are
/// stated relative to the obstacle's rightmost extent, which culling keeps
/// near the screen, so scrolling left preserves them.
pub open spec fn walk_obstacle_ok(ob: Obstacle) -> bool {
    &&& ob.wf()
    &&& -10 <= ob.spec_right() <= 10000
    &&& forall|j: int|
        0 <= j < obstacle_boxes(ob).len() ==> ob.spec_right() - 2400 <= (
        #[trigger] obstacle_boxes(ob)[j]).left() && obstacle_boxes(ob)[j].spec_right()
            <= ob.spec_right()
    &&& (ob matches Obstacle::Platform(p) ==> ob.spec_right() - 2400 <= p.position.x
        <= ob.spec_right())
}

/// The complete in-progress run.
pub struct Walk {
    pub boy: RedHatBoy,
    pub backgrounds: Backgrounds,
    pub obstacles: Vec<Obstacle>,
    pub obstacle_sheet: Sheet,
    pub stone: ImageSize,
    pub timeline: i16,
}

/// One of the three segment layouts, as placed at `offset`: which
/// in-segment offsets the stone and platform get, and which tiles the
/// platform draws.
pub open spec fn is_chosen_segment(
    obstacles: Seq<Obstacle>,
    sheet: Seq<crate::sprites::SpriteEntry>,
    stone: ImageSize,
    offset: int,
    choice: int,
) -> bool {
    if choice == 0 {
        is_segment(
            obstacles,
            sheet,
            stone,
            offset,
            INITIAL_STONE_OFFSET as int,
            FIRST_PLATFORM as int,
            floating_platform_keys(),
        )
    } else if choice == 1 {
        is_segment(
            obstacles,
            sheet,
            stone,
            offset,
            FIRST_PLATFORM as int,
            INITIAL_STONE_OFFSET as int,
            floating_platform_keys(),
        )
    } else {
        is_segment(
            obstacles,
            sheet,
            stone,
            offset,
            FIRST_PLATFORM as int,
            INITIAL_STONE_OFFSET as int,
            watery_platform_keys(),
        )
    }
}

impl Walk {
    /// Well-formed: every part in bounds.
    pub open spec fn wf(self) -> bool {
        &&& self.boy.wf()
        &&& self.backgrounds.wf()
        &&& forall|i: int| 0 <= i < self.obstacles@.len() ==> walk_obstacle_ok(#[trigger] self.obstacles@[i])
        &&& 1 <= self.stone.width <= 2000
        &&& 1 <= self.stone.height <= 2000
        &&& 0 <= self.timeline <= 6000
    }

    /// A fresh run: the starting segment is placed at the origin and the
    /// timeline starts at its rightmost extent.
    pub fn new(
        boy: RedHatBoy,
        stone: ImageSize,
        backgrounds: Backgrounds,
        obstacle_sheet: Sheet,
    ) -> (r: Walk)
        requires
            boy.wf(),
            backgrounds.wf(),
            1 <= stone.width <= 2000,
            1 <= stone.height <= 2000,
        ensures
            r.boy == boy,
            r.backgrounds == backgrounds,
            r.stone == stone,
            r.obstacle_sheet == obstacle_sheet,
            is_segment(
                r.obstacles@,
                obstacle_sheet.frames@,
                stone,
                0,
                INITIAL_STONE_OFFSET as int,
                FIRST_PLATFORM as int,
                floating_platform_keys(),
            ),
            r.timeline as int == rightmost_spec(r.obstacles@),
            r.wf(),
    {
        let starting_obstacles = stone_and_platform(stone, &obstacle_sheet, 0);
        let timeline = rightmost(&starting_obstacles);
        proof {
            lemma_segment_obstacles_in_walk_bounds(
                starting_obstacles@,
                stone,
                0,
                INITIAL_STONE_OFFSET as int,
                FIRST_PLATFORM as int,
            );
            lemma_max_of_rights_ge(starting_obstacles@, 1);
            lemma_timeline_from_segment(
                starting_obstacles@,
                stone,
                0,
                INITIAL_STONE_OFFSET as int,
                FIRST_PLATFORM as int,
            );
        }
        Walk { boy, backgrounds, obstacles: starting_obstacles, obstacle_sheet, stone, timeline }
    }

    /// Rebuild the run from scratch: a freshly reset character sharing the
    /// same assets, the starting segment placed at the origin again; only
    /// the background scroll position carries over.
    pub fn reset(walk: Self) -> (r: Self)
        requires
            walk.wf(),
        ensures
            r.boy.state_machine == crate::character::RedHatBoyStateMachine::Idle(
                crate::character::initial_context(walk.boy.state_machine.ctx().counts),
            ),
            r.boy.sprite_sheet == walk.boy.sprite_sheet,
            r.boy.sound_cues@ == Seq::<crate::character::SoundCue>::empty(),
            r.backgrounds == walk.backgrounds,
            r.stone == walk.stone,
            r.obstacle_sheet == walk.obstacle_sheet,
            is_segment(
                r.obstacles@,
                walk.obstacle_sheet.frames@,
                walk.stone,
                0,
                INITIAL_STONE_OFFSET as int,
                FIRST_PLATFORM as int,
                floating_platform_keys(),
            ),
            r.timeline as int == rightmost_spec(r.obstacles@),
            r.wf(),
    {
        Walk::new(
            RedHatBoy::reset(walk.boy),
            walk.stone,
            walk.backgrounds,
            walk.obstacle_sheet,
        )
    }

    /// The velocity the world scrolls at: opposite the character's walking
    /// speed.
    pub fn velocity(&self) -> (r: i16)
        requires
            self.wf(),
        ensures
            r as int == -(self.boy.state_machine.ctx().velocity.x as int),
            -4 <= r <= 0,
    {
        0 - self.boy.walking_speed()
    }

    /// Whether the character has been knocked out.
    pub fn knocked_out(&self) -> (r: bool)
        ensures
            r == (self.boy.state_machine is KnockedOut),
    {
        self.boy.knocked_out()
    }

    /// Pick one of the three segment layouts at random and place it one
    /// buffer past the current timeline; the timeline moves to the new
    /// segment's rightmost extent.
    pub fn generate_next_segment(&mut self)
        requires
            old(self).wf(),
            old(self).timeline < TIMELINE_MINIMUM,
        ensures
            final(self).wf(),
            final(self).boy == old(self).boy,
            final(self).backgrounds == old(self).backgrounds,
            final(self).stone == old(self).stone,
            final(self).obstacle_sheet == old(self).obstacle_sheet,
            final(self).obstacles@.len() == old(self).obstacles@.len() + 2,
            final(self).obstacles@.take(old(self).obstacles@.len() as int) == old(self).obstacles@,
            exists|choice: int|
                0 <= choice < 3 && #[trigger] is_chosen_segment(
                    final(self).obstacles@.skip(old(self).obstacles@.len() as int),
                    old(self).obstacle_sheet.frames@,
                    old(self).stone,
                    old(self).timeline + OBSTACLE_BUFFER,
                    choice,
                ),
            final(self).timeline as int == rightmost_spec(
                final(self).obstacles@.skip(old(self).obstacles@.len() as int),
            ),
            boxes_right_of(
                final(self).obstacles@.skip(old(self).obstacles@.len() as int),
                old(self).timeline + OBSTACLE_BUFFER,
            ),
            boxes_left_of(
                final(self).obstacles@.skip(old(self).obstacles@.len() as int),
                final(self).timeline as int,
            ),
    {
        let next_segment = random_segment_index();
        let offset_x = self.timeline + OBSTACLE_BUFFER;
        let ghost choice: int = next_segment as int;
        let mut next_obstacles = if next_segment == 0 {
            stone_and_platform(self.stone, &self.obstacle_sheet, offset_x)
        } else if next_segment == 1 {
            platform_and_stone(self.stone, &self.obstacle_sheet, offset_x)
        } else {
            weird_platform_and_stone(self.stone, &self.obstacle_sheet, offset_x)
        };
        let ghost stone_offset: int = if choice == 0 {
            INITIAL_STONE_OFFSET as int
        } else {
            FIRST_PLATFORM as int
        };
        let ghost platform_offset: int = if choice == 0 {
            FIRST_PLATFORM as int
        } else {
            INITIAL_STONE_OFFSET as int
        };
        proof {
            lemma_segment_obstacles_in_walk_bounds(
                next_obstacles@,
                self.stone,
                offset_x as int,
                stone_offset,
                platform_offset,
            );
            lemma_timeline_from_segment(
                next_obstacles@,
                self.stone,
                offset_x as int,
                stone_offset,
                platform_offset,
            );
            lemma_max_of_rights_ge(next_obstacles@, 1);
        }
        self.timeline = rightmost(&next_obstacles);
        let ghost appended = next_obstacles@;
        let ghost previous = self.obstacles@;
        self.obstacles.append(&mut next_obstacles);
        proof {
            assert(self.obstacles@.take(previous.len() as int) =~= previous);
            assert(self.obstacles@.skip(previous.len() as int) =~= appended);
            assert(is_chosen_segment(
                appended,
                self.obstacle_sheet.frames@,
                self.stone,
                offset_x as int,
                choice,
            ));
            lemma_segment_boxes_left_of_rightmost(
                appended,
                self.stone,
                offset_x as int,
                stone_offset,
                platform_offset,
            );
        }
    }
}

/// Every box of a segment ends at or before the segment's own rightmost
/// extent, so the timeline bounds everything placed so far.
proof fn lemma_segment_boxes_left_of_rightmost(
    obstacles: Seq<Obstacle>,
    stone: ImageSize,
    offset: int,
    stone_offset: int,
    platform_offset: int,
)
    requires
        0 <= offset <= 1020,
        1 <= stone.width <= 2000,
        1 <= stone.height <= 2000,
        stone_offset == INITIAL_STONE_OFFSET as int || stone_offset == FIRST_PLATFORM as int,
        platform_offset == INITIAL_STONE_OFFSET as int || platform_offset == FIRST_PLATFORM as int,
        exists|keys: Seq<crate::sprites::FrameKey>, sheet: Seq<crate::sprites::SpriteEntry>|
            is_segment(obstacles, sheet, stone, offset, stone_offset, platform_offset, keys),
    ensures
        boxes_left_of(obstacles, rightmost_spec(obstacles)),
{
    let keys = choose|keys: Seq<crate::sprites::FrameKey>, sheet: Seq<crate::sprites::SpriteEntry>|
        is_segment(obstacles, sheet, stone, offset, stone_offset, platform_offset, keys);
    assert forall|i: int, j: int|
        0 <= i < obstacles.len() && 0 <= j < obstacle_boxes(obstacles[i]).len() implies #[trigger] obstacle_boxes(
        obstacles[i],
    )[j].spec_right() <= rightmost_spec(obstacles) by {
        lemma_max_of_rights_ge(obstacles, i);
        if i == 1 {
            let p = obstacles[1]->Platform_0;
            assert(p.bounding_boxes@.len() == 3);
            assert(obstacle_boxes(obstacles[1])[j] == p.bounding_boxes@[j]);
            assert(obstacles[1].spec_right() == p.bounding_boxes@[2].spec_right());
        } else {
            assert(obstacle_boxes(obstacles[0])[0] == obstacles[0]->Barrier_0.image.bounding_box);
        }
    }
}

/// A segment's obstacles satisfy the bounds a walk keeps, when placed at a
/// walk-generated offset.
proof fn lemma_segment_obstacles_in_walk_bounds(
    obstacles: Seq<Obstacle>,
    stone: ImageSize,
    offset: int,
    stone_offset: int,
    platform_offset: int,
)
    requires
        0 <= offset <= 1020,
        1 <= stone.width <= 2000,
        1 <= stone.height <= 2000,
        stone_offset == INITIAL_STONE_OFFSET as int || stone_offset == FIRST_PLATFORM as int,
        platform_offset == INITIAL_STONE_OFFSET as int || platform_offset == FIRST_PLATFORM as int,
        exists|keys: Seq<crate::sprites::FrameKey>, sheet: Seq<crate::sprites::SpriteEntry>|
            is_segment(obstacles, sheet, stone, offset, stone_offset, platform_offset, keys),
        segment_common(obstacles, stone, offset, stone_offset, platform_offset),
    ensures
        forall|i: int| 0 <= i < obstacles.len() ==> walk_obstacle_ok(#[trigger] obstacles[i]),
        forall|i: int|
            0 <= i < obstacles.len() ==> (#[trigger] obstacles[i]).spec_right() <= segment_rightmost(
                stone,
                offset,
                stone_offset,
                platform_offset,
            ),
{
    let keys = choose|keys: Seq<crate::sprites::FrameKey>, sheet: Seq<crate::sprites::SpriteEntry>|
        is_segment(obstacles, sheet, stone, offset, stone_offset, platform_offset, keys);
    assert forall|i: int| 0 <= i < obstacles.len() implies walk_obstacle_ok(
        #[trigger] obstacles[i],
    ) && obstacles[i].spec_right() <= segment_rightmost(
        stone,
        offset,
        stone_offset,
        platform_offset,
    ) by {
        if i == 1 {
            let p = obstacles[1]->Platform_0;
            assert(p.bounding_boxes@.len() == 3);
            assert forall|j: int| 0 <= j < 3 implies -2500 <= (#[trigger] p.bounding_boxes@[j]).left()
                <= 10000 by {
                assert(obstacle_boxes(obstacles[1])[j] == p.bounding_boxes@[j]);
            }
            assert(p.bounding_boxes@[2] == obstacle_boxes(obstacles[1])[2]);
        } else {
            assert(obstacle_boxes(obstacles[0])[0] == obstacles[0]->Barrier_0.image.bounding_box);
        }
    }
}

/// A segment's rightmost extent lies between its platform's right edge and
/// the segment bound, so the timeline stays within the walk's range.
proof fn lemma_timeline_from_segment(
    obstacles: Seq<Obstacle>,
    stone: ImageSize,
    offset: int,
    stone_offset: int,
    platform_offset: int,
)
    requires
        0 <= offset <= 1020,
        1 <= stone.width <= 2000,
        1 <= stone.height <= 2000,
        stone_offset == INITIAL_STONE_OFFSET as int || stone_offset == FIRST_PLATFORM as int,
        platform_offset == INITIAL_STONE_OFFSET as int || platform_offset == FIRST_PLATFORM as int,
        exists|keys: Seq<crate::sprites::FrameKey>, sheet: Seq<crate::sprites::SpriteEntry>|
            is_segment(obstacles, sheet, stone, offset, stone_offset, platform_offset, keys),
        segment_common(obstacles, stone, offset, stone_offset, platform_offset),
    ensures
        0 <= rightmost_spec(obstacles) <= 6000,
        rightmost_spec(obstacles) >= offset,
{
    lemma_segment_obstacles_in_walk_bounds(obstacles, stone, offset, stone_offset, platform_offset);
    lemma_max_of_rights_ge(obstacles, 1);
    lemma_max_of_rights_le(obstacles, segment_rightmost(stone, offset, stone_offset, platform_offset));
    let keys = choose|keys: Seq<crate::sprites::FrameKey>, sheet: Seq<crate::sprites::SpriteEntry>|
        is_segment(obstacles, sheet, stone, offset, stone_offset, platform_offset, keys);
    let p = obstacles[1]->Platform_0;
    assert(p.bounding_boxes@.len() == 3);
    assert(obstacles[1].spec_right() == p.bounding_boxes@[2].spec_right());
    assert(p.bounding_boxes@[2].spec_right() == offset + platform_offset + 384);
}

} // verus!
