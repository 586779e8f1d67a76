//! Fixed obstacle layouts ("segments"): each places a stone barrier and a
//! floating platform at fixed offsets past a supplied `offset_x`, so every
//! extent of the segment lies at or after `offset_x` and at or before the
//! segment's rightmost extent.

use vstd::prelude::*;
use crate::character::HEIGHT;
use crate::geometry::Point;
use crate::geometry::Rect;
use crate::obstacles::Barrier;
use crate::obstacles::Image;
use crate::obstacles::Obstacle;
use crate::obstacles::Platform;
use crate::obstacles::resolve_sprites;
use crate::obstacles::translate_boxes;
use crate::sprites::FrameKey;
use crate::sprites::Sheet;

verus! {

/// Vertical position of a stone sitting on the ground.
pub const STONE_ON_GROUND: i16 = 546;

/// Vertical position of a low floating platform.
pub const LOW_PLATFORM: i16 = 420;

/// Horizontal offset of the farther feature within a segment.
pub const FIRST_PLATFORM: i16 = 370;

/// Horizontal offset of the nearer feature within a segment.
pub const INITIAL_STONE_OFFSET: i16 = 150;

/// Width of a floating platform's sprite row.
pub const PLATFORM_WIDTH: i16 = 384;

/// Width of a platform's outer edge pieces.
pub const PLATFORM_EDGE_WIDTH: i16 = 60;

/// Height of a platform's walkable edge pieces.
pub const PLATFORM_EDGE_HEIGHT: i16 = 54;

/// Height of a platform's taller middle piece.
pub const PLATFORM_MIDDLE_HEIGHT: i16 = 93;

/// The size of a decoded image, as the renderer reports it.
#[derive(Clone, Copy, Debug, PartialEq, Eq, Structural)]
pub struct ImageSize {
    pub width: i16,
    pub height: i16,
}

/// The sub-boxes of a floating platform, in platform-local coordinates:
/// two low edges around a taller middle.
pub open spec fn floating_platform_boxes() -> Seq<Rect> {
    seq![
        Rect {
            position: Point { x: 0, y: 0 },
            width: PLATFORM_EDGE_WIDTH,
            height: PLATFORM_EDGE_HEIGHT,
        },
        Rect {
            position: Point { x: PLATFORM_EDGE_WIDTH, y: 0 },
            width: (PLATFORM_WIDTH - 2 * PLATFORM_EDGE_WIDTH) as i16,
            height: PLATFORM_MIDDLE_HEIGHT,
        },
        Rect {
            position: Point { x: (PLATFORM_WIDTH - PLATFORM_EDGE_WIDTH) as i16, y: 0 },
            width: PLATFORM_EDGE_WIDTH,
            height: PLATFORM_EDGE_HEIGHT,
        },
    ]
}

/// Tile keys of the ordinary floating platform.
pub open spec fn floating_platform_keys() -> Seq<FrameKey> {
    seq![FrameKey::Tile(13), FrameKey::Tile(14), FrameKey::Tile(15)]
}

/// Tile keys of the "weird" (watery) platform variant.
pub open spec fn watery_platform_keys() -> Seq<FrameKey> {
    seq![FrameKey::Tile(1), FrameKey::Tile(18), FrameKey::Tile(3)]
}

/// Every box of every obstacle starts at or after `bound`.
pub open spec fn boxes_right_of(obstacles: Seq<Obstacle>, bound: int) -> bool {
    forall|i: int, j: int|
        0 <= i < obstacles.len() && 0 <= j < obstacle_boxes(obstacles[i]).len()
            ==> #[trigger] obstacle_boxes(obstacles[i])[j].left() >= bound
}

/// Every box of every obstacle ends at or before `bound`.
pub open spec fn boxes_left_of(obstacles: Seq<Obstacle>, bound: int) -> bool {
    forall|i: int, j: int|
        0 <= i < obstacles.len() && 0 <= j < obstacle_boxes(obstacles[i]).len()
            ==> #[trigger] obstacle_boxes(obstacles[i])[j].spec_right() <= bound
}

/// The collision boxes an obstacle occupies.
pub open spec fn obstacle_boxes(ob: Obstacle) -> Seq<Rect> {
    match ob {
        Obstacle::Barrier(b) => seq![b.image.bounding_box],
        Obstacle::Platform(p) => p.bounding_boxes@,
    }
}

/// Segment generation never lets two segments overlap: when one segment's
/// boxes all end at or before a bound and the next segment's boxes all
/// start at or after it, no box of the first intersects any box of the
/// second.
pub proof fn lemma_consecutive_segments_disjoint(
    first: Seq<Obstacle>,
    second: Seq<Obstacle>,
    bound: int,
)
    requires
        boxes_left_of(first, bound),
        boxes_right_of(second, bound),
    ensures
        forall|i: int, j: int, a: int, b: int|
            0 <= i < first.len() && 0 <= j < second.len() && 0 <= a < obstacle_boxes(
                first[i],
            ).len() && 0 <= b < obstacle_boxes(second[j]).len() ==> !#[trigger] obstacle_boxes(
                first[i],
            )[a].spec_intersects(#[trigger] obstacle_boxes(second[j])[b]),
{
    assert forall|i: int, j: int, a: int, b: int|
        0 <= i < first.len() && 0 <= j < second.len() && 0 <= a < obstacle_boxes(first[i]).len()
            && 0 <= b < obstacle_boxes(second[j]).len() implies !#[trigger] obstacle_boxes(
        first[i],
    )[a].spec_intersects(#[trigger] obstacle_boxes(second[j])[b]) by {
        crate::geometry::lemma_separated_boxes_do_not_intersect(
            obstacle_boxes(first[i])[a],
            obstacle_boxes(second[j])[b],
        );
    }
}

/// The larger of two integers.
pub open spec fn max_int(a: int, b: int) -> int {
    if a >= b {
        a
    } else {
        b
    }
}

/// The shape every segment template produces: a stone barrier of the given
/// size and a three-piece floating platform, the stone at
/// `offset_x + stone_offset`, the platform anchored at
/// `offset_x + platform_offset`, drawing the given tiles.
pub open spec fn is_segment(
    obstacles: Seq<Obstacle>,
    sheet: Seq<crate::sprites::SpriteEntry>,
    stone: ImageSize,
    offset_x: int,
    stone_offset: int,
    platform_offset: int,
    keys: Seq<FrameKey>,
) -> bool {
    &&& obstacles.len() == 2
    &&& obstacles[0] matches Obstacle::Barrier(b) && b.image.bounding_box == (Rect {
        position: Point { x: (offset_x + stone_offset) as i16, y: STONE_ON_GROUND },
        width: stone.width,
        height: stone.height,
    })
    &&& obstacles[1] matches Obstacle::Platform(p) && p.position == (Point {
        x: (offset_x + platform_offset) as i16,
        y: LOW_PLATFORM,
    }) && p.bounding_boxes@ == translate_boxes(
        floating_platform_boxes(),
        Point { x: (offset_x + platform_offset) as i16, y: LOW_PLATFORM },
    ) && p.sprites@ == resolve_sprites(sheet, keys)
}

/// The rightmost extent of a segment whose stone sits at
/// `offset_x + stone_offset` and whose platform starts at
/// `offset_x + platform_offset`.
pub open spec fn segment_rightmost(
    stone: ImageSize,
    offset_x: int,
    stone_offset: int,
    platform_offset: int,
) -> int {
    max_int(offset_x + stone_offset + stone.width, offset_x + platform_offset + PLATFORM_WIDTH)
}

/// Bounds every template requires of its inputs: the offset is where the
/// previous content ended, the stone is a decoded image of screen scale.
pub open spec fn segment_inputs_ok(stone: ImageSize, offset_x: i16) -> bool {
    &&& 0 <= offset_x <= 8000
    &&& 1 <= stone.width <= 2000
    &&& 1 <= stone.height <= 2000
}

/// What every template guarantees beyond its exact contents.
pub open spec fn segment_common(
    obstacles: Seq<Obstacle>,
    stone: ImageSize,
    offset_x: int,
    stone_offset: int,
    platform_offset: int,
) -> bool {
    &&& forall|i: int| 0 <= i < obstacles.len() ==> (#[trigger] obstacles[i]).wf()
    &&& boxes_right_of(obstacles, offset_x)
    &&& boxes_left_of(obstacles, segment_rightmost(stone, offset_x, stone_offset, platform_offset))
}

fn floating_platform_box_list() -> (r: Vec<Rect>)
    ensures
        r@ == floating_platform_boxes(),
{
    let mut boxes: Vec<Rect> = Vec::new();
    boxes.push(
        Rect {
            position: Point { x: 0, y: 0 },
            width: PLATFORM_EDGE_WIDTH,
            height: PLATFORM_EDGE_HEIGHT,
        },
    );
    boxes.push(
        Rect {
            position: Point { x: PLATFORM_EDGE_WIDTH, y: 0 },
            width: PLATFORM_WIDTH - 2 * PLATFORM_EDGE_WIDTH,
            height: PLATFORM_MIDDLE_HEIGHT,
        },
    );
    boxes.push(
        Rect {
            position: Point { x: PLATFORM_WIDTH - PLATFORM_EDGE_WIDTH, y: 0 },
            width: PLATFORM_EDGE_WIDTH,
            height: PLATFORM_EDGE_HEIGHT,
        },
    );
    proof {
        assert(boxes@ =~= floating_platform_boxes());
    }
    boxes
}

/// Build one segment: a stone barrier and a floating platform at the given
/// in-segment offsets.
fn build_segment(
    stone: ImageSize,
    sprite_sheet: &Sheet,
    offset_x: i16,
    stone_offset: i16,
    platform_offset: i16,
    keys: Vec<FrameKey>,
) -> (r: Vec<Obstacle>)
    requires
        segment_inputs_ok(stone, offset_x),
        stone_offset == INITIAL_STONE_OFFSET || stone_offset == FIRST_PLATFORM,
        platform_offset == INITIAL_STONE_OFFSET || platform_offset == FIRST_PLATFORM,
    ensures
        is_segment(
            r@,
            sprite_sheet.frames@,
            stone,
            offset_x as int,
            stone_offset as int,
            platform_offset as int,
            keys@,
        ),
        segment_common(r@, stone, offset_x as int, stone_offset as int, platform_offset as int),
{
    let stone_position = Point { x: offset_x + stone_offset, y: STONE_ON_GROUND };
    let barrier = Barrier::new(Image::new(stone_position, stone.width, stone.height));
    let platform_position = Point { x: offset_x + platform_offset, y: LOW_PLATFORM };
    let boxes = floating_platform_box_list();
    let platform = Platform::new(sprite_sheet, &keys, &boxes, platform_position);
    let mut obstacles: Vec<Obstacle> = Vec::new();
    obstacles.push(Obstacle::Barrier(barrier));
    obstacles.push(Obstacle::Platform(platform));
    proof {
        let obs = obstacles@;
        let rm = segment_rightmost(
            stone,
            offset_x as int,
            stone_offset as int,
            platform_offset as int,
        );
        assert forall|i: int, j: int|
            0 <= i < obs.len() && 0 <= j < obstacle_boxes(obs[i]).len() implies #[trigger] obstacle_boxes(
            obs[i],
        )[j].left() >= offset_x as int && #[trigger] obstacle_boxes(obs[i])[j].spec_right()
            <= rm by {
            if i == 1 {
                assert(obstacle_boxes(obs[1]) == translate_boxes(
                    floating_platform_boxes(),
                    platform_position,
                ));
                assert(0 <= j < 3);
            }
        }
    }
    obstacles
}

fn tile_keys(a: u16, b: u16, c: u16) -> (r: Vec<FrameKey>)
    ensures
        r@ == seq![FrameKey::Tile(a), FrameKey::Tile(b), FrameKey::Tile(c)],
{
    let mut keys: Vec<FrameKey> = Vec::new();
    keys.push(FrameKey::Tile(a));
    keys.push(FrameKey::Tile(b));
    keys.push(FrameKey::Tile(c));
    proof {
        assert(keys@ =~= seq![FrameKey::Tile(a), FrameKey::Tile(b), FrameKey::Tile(c)]);
    }
    keys
}

/// A stone close by, then a floating platform farther out.
pub fn stone_and_platform(stone: ImageSize, sprite_sheet: &Sheet, offset_x: i16) -> (r: Vec<
    Obstacle,
>)
    requires
        segment_inputs_ok(stone, offset_x),
    ensures
        is_segment(
            r@,
            sprite_sheet.frames@,
            stone,
            offset_x as int,
            INITIAL_STONE_OFFSET as int,
            FIRST_PLATFORM as int,
            floating_platform_keys(),
        ),
        segment_common(
            r@,
            stone,
            offset_x as int,
            INITIAL_STONE_OFFSET as int,
            FIRST_PLATFORM as int,
        ),
{
    build_segment(
        stone,
        sprite_sheet,
        offset_x,
        INITIAL_STONE_OFFSET,
        FIRST_PLATFORM,
        tile_keys(13, 14, 15),
    )
}

/// A floating platform close by, then a stone farther out.
pub fn platform_and_stone(stone: ImageSize, sprite_sheet: &Sheet, offset_x: i16) -> (r: Vec<
    Obstacle,
>)
    requires
        segment_inputs_ok(stone, offset_x),
    ensures
        is_segment(
            r@,
            sprite_sheet.frames@,
            stone,
            offset_x as int,
            FIRST_PLATFORM as int,
            INITIAL_STONE_OFFSET as int,
            floating_platform_keys(),
        ),
        segment_common(
            r@,
            stone,
            offset_x as int,
            FIRST_PLATFORM as int,
            INITIAL_STONE_OFFSET as int,
        ),
{
    build_segment(
        stone,
        sprite_sheet,
        offset_x,
        FIRST_PLATFORM,
        INITIAL_STONE_OFFSET,
        tile_keys(13, 14, 15),
    )
}

/// The platform-and-stone layout drawn with the watery platform tiles.
pub fn weird_platform_and_stone(stone: ImageSize, sprite_sheet: &Sheet, offset_x: i16) -> (r: Vec<
    Obstacle,
>)
    requires
        segment_inputs_ok(stone, offset_x),
    ensures
        is_segment(
            r@,
            sprite_sheet.frames@,
            stone,
            offset_x as int,
            FIRST_PLATFORM as int,
            INITIAL_STONE_OFFSET as int,
            watery_platform_keys(),
        ),
        segment_common(
            r@,
            stone,
            offset_x as int,
            FIRST_PLATFORM as int,
            INITIAL_STONE_OFFSET as int,
        ),
{
    build_segment(
        stone,
        sprite_sheet,
        offset_x,
        FIRST_PLATFORM,
        INITIAL_STONE_OFFSET,
        tile_keys(1, 18, 3),
    )
}

} // verus!
