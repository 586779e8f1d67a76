use walk_the_dog::obstacles::Obstacle;
use walk_the_dog::segments::ImageSize;
use walk_the_dog::segments::platform_and_stone;
use walk_the_dog::segments::stone_and_platform;
use walk_the_dog::segments::weird_platform_and_stone;
use walk_the_dog::sprites::Cell;
use walk_the_dog::sprites::FrameKey;
use walk_the_dog::sprites::Sheet;
use walk_the_dog::sprites::SheetRect;
use walk_the_dog::walk::rightmost;

fn tile_cell(x: i16) -> Cell {
    Cell {
        frame: SheetRect { x, y: 0, w: 128, h: 93 },
        sprite_source_size: SheetRect { x: 0, y: 0, w: 128, h: 93 },
    }
}

fn tiles_sheet() -> Sheet {
    let mut sheet = Sheet::new();
    for tile in [1u16, 3, 13, 14, 15, 18] {
        sheet.push_frame(FrameKey::Tile(tile), tile_cell(tile as i16 * 10));
    }
    sheet
}

fn stone() -> ImageSize {
    ImageSize { width: 146, height: 54 }
}

#[test]
fn stone_and_platform_places_the_stone_near_and_the_platform_far() {
    let obstacles = stone_and_platform(stone(), &tiles_sheet(), 0);
    assert_eq!(obstacles.len(), 2);
    match &obstacles[0] {
        Obstacle::Barrier(barrier) => {
            let b = barrier.image.bounding_box();
            assert_eq!(b.x(), 150);
            assert_eq!(b.y(), 546);
            assert_eq!(b.width, 146);
            assert_eq!(b.height, 54);
        },
        _ => panic!("expected a barrier first"),
    }
    match &obstacles[1] {
        Obstacle::Platform(platform) => {
            assert_eq!(platform.position.x, 370);
            assert_eq!(platform.position.y, 420);
            let boxes = &platform.bounding_boxes;
            assert_eq!(boxes.len(), 3);
            assert_eq!((boxes[0].x(), boxes[0].y(), boxes[0].width, boxes[0].height), (370, 420, 60, 54));
            assert_eq!((boxes[1].x(), boxes[1].y(), boxes[1].width, boxes[1].height), (430, 420, 264, 93));
            assert_eq!((boxes[2].x(), boxes[2].y(), boxes[2].width, boxes[2].height), (694, 420, 60, 54));
            assert_eq!(platform.sprites.len(), 3);
            assert_eq!(platform.sprites[0].frame.x, 130);
            assert_eq!(platform.sprites[1].frame.x, 140);
            assert_eq!(platform.sprites[2].frame.x, 150);
        },
        _ => panic!("expected a platform second"),
    }
}

#[test]
fn platform_and_stone_swaps_the_two_offsets() {
    let obstacles = platform_and_stone(stone(), &tiles_sheet(), 100);
    match &obstacles[0] {
        Obstacle::Barrier(barrier) => {
            assert_eq!(barrier.image.bounding_box().x(), 100 + 370);
        },
        _ => panic!("expected a barrier first"),
    }
    match &obstacles[1] {
        Obstacle::Platform(platform) => {
            assert_eq!(platform.position.x, 100 + 150);
            assert_eq!(platform.sprites[0].frame.x, 130);
        },
        _ => panic!("expected a platform second"),
    }
}

#[test]
fn the_weird_variant_draws_the_watery_tiles() {
    let obstacles = weird_platform_and_stone(stone(), &tiles_sheet(), 0);
    match &obstacles[1] {
        Obstacle::Platform(platform) => {
            assert_eq!(platform.sprites.len(), 3);
            assert_eq!(platform.sprites[0].frame.x, 10);
            assert_eq!(platform.sprites[1].frame.x, 180);
            assert_eq!(platform.sprites[2].frame.x, 30);
        },
        _ => panic!("expected a platform second"),
    }
}

#[test]
fn missing_tiles_are_skipped_when_resolving_sprites() {
    let mut sparse = Sheet::new();
    sparse.push_frame(FrameKey::Tile(14), tile_cell(140));
    let obstacles = stone_and_platform(stone(), &sparse, 0);
    match &obstacles[1] {
        Obstacle::Platform(platform) => {
            assert_eq!(platform.sprites.len(), 1);
            assert_eq!(platform.sprites[0].frame.x, 140);
            assert_eq!(platform.bounding_boxes.len(), 3);
        },
        _ => panic!("expected a platform second"),
    }
}

#[test]
fn consecutive_segments_never_overlap() {
    let sheet = tiles_sheet();
    let first = stone_and_platform(stone(), &sheet, 0);
    let first_rightmost = rightmost(&first);
    assert_eq!(first_rightmost, 754);
    let offset = first_rightmost + 20;
    let second = platform_and_stone(stone(), &sheet, offset);
    for a in &first {
        assert!(a.right() <= offset);
    }
    let second_leftmost = match &second[1] {
        Obstacle::Platform(p) => p.position.x,
        _ => panic!("expected a platform second"),
    };
    assert!(second_leftmost >= offset);
    for a in &first {
        for b in &second {
            let boxes_a = obstacle_boxes(a);
            let boxes_b = obstacle_boxes(b);
            for ra in &boxes_a {
                for rb in &boxes_b {
                    assert!(!ra.intersects(rb));
                }
            }
        }
    }
}

fn obstacle_boxes(ob: &Obstacle) -> Vec<walk_the_dog::geometry::Rect> {
    match ob {
        Obstacle::Barrier(b) => vec![b.image.bounding_box()],
        Obstacle::Platform(p) => p.bounding_boxes.clone(),
    }
}

#[test]
fn a_wide_stone_pushes_the_rightmost_extent_out() {
    let wide = ImageSize { width: 700, height: 54 };
    let obstacles = stone_and_platform(wide, &tiles_sheet(), 0);
    assert_eq!(rightmost(&obstacles), 850);
}
