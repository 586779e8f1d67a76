use walk_the_dog::sprites::AnimationName;
use walk_the_dog::sprites::Cell;
use walk_the_dog::sprites::FrameKey;
use walk_the_dog::sprites::Sheet;
use walk_the_dog::sprites::SheetRect;

fn cell(x: i16, y: i16, w: i16, h: i16) -> Cell {
    Cell {
        frame: SheetRect { x, y, w, h },
        sprite_source_size: SheetRect { x: 0, y: 0, w, h },
    }
}

#[test]
fn sheet_lookup_finds_a_stored_frame() {
    let mut sheet = Sheet::new();
    sheet.push_frame(FrameKey::Tile(13), cell(0, 0, 128, 93));
    sheet.push_frame(FrameKey::Animation(AnimationName::Idle, 1), cell(10, 0, 100, 121));
    let found = sheet.get(FrameKey::Animation(AnimationName::Idle, 1)).unwrap();
    assert_eq!(found.frame.x, 10);
    let tile = sheet.get(FrameKey::Tile(13)).unwrap();
    assert_eq!(tile.frame.w, 128);
}

#[test]
fn sheet_lookup_misses_an_absent_frame() {
    let mut sheet = Sheet::new();
    sheet.push_frame(FrameKey::Tile(13), cell(0, 0, 128, 93));
    assert!(sheet.get(FrameKey::Tile(14)).is_none());
    assert!(sheet.get(FrameKey::Animation(AnimationName::Idle, 1)).is_none());
}

#[test]
fn sheet_lookup_returns_the_first_match() {
    let mut sheet = Sheet::new();
    sheet.push_frame(FrameKey::Tile(7), cell(1, 0, 64, 64));
    sheet.push_frame(FrameKey::Tile(7), cell(2, 0, 64, 64));
    assert_eq!(sheet.get(FrameKey::Tile(7)).unwrap().frame.x, 1);
}

#[test]
fn frame_keys_distinguish_animation_and_tile() {
    let mut sheet = Sheet::new();
    sheet.push_frame(FrameKey::Animation(AnimationName::Run, 3), cell(5, 0, 100, 121));
    assert!(sheet.get(FrameKey::Animation(AnimationName::Slide, 3)).is_none());
    assert!(sheet.get(FrameKey::Animation(AnimationName::Run, 2)).is_none());
    assert!(sheet.get(FrameKey::Animation(AnimationName::Run, 3)).is_some());
}
