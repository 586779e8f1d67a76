use walk_the_dog::boy::GameError;
use walk_the_dog::boy::RedHatBoy;
use walk_the_dog::character::FrameCounts;
use walk_the_dog::character::RedHatBoyStateMachine;
use walk_the_dog::segments::ImageSize;
use walk_the_dog::session::FrameInput;
use walk_the_dog::session::WalkTheDog;
use walk_the_dog::session::WalkTheDogStateMachine;
use walk_the_dog::sprites::AnimationName;
use walk_the_dog::sprites::Cell;
use walk_the_dog::sprites::FrameKey;
use walk_the_dog::sprites::Sheet;
use walk_the_dog::sprites::SheetRect;
use walk_the_dog::ui::Overlay;
use walk_the_dog::ui::Ui;
use walk_the_dog::ui::draw_ui;
use walk_the_dog::ui::hide_ui;
use walk_the_dog::walk::Backgrounds;
use walk_the_dog::walk::Walk;

fn counts() -> FrameCounts {
    FrameCounts { idle: 29, running: 23, sliding: 14, jumping: 35, falling: 29 }
}

fn boy_cell() -> Cell {
    Cell {
        frame: SheetRect { x: 0, y: 0, w: 100, h: 121 },
        sprite_source_size: SheetRect { x: 0, y: 0, w: 100, h: 121 },
    }
}

fn character_sheet() -> Sheet {
    let mut sheet = Sheet::new();
    let animations = [
        (AnimationName::Idle, 29u8),
        (AnimationName::Run, 23),
        (AnimationName::Slide, 14),
        (AnimationName::Jump, 35),
        (AnimationName::Dead, 29),
    ];
    for (name, count) in animations {
        let mut i: u8 = 1;
        while i <= count / 3 + 1 {
            sheet.push_frame(FrameKey::Animation(name, i), boy_cell());
            i += 1;
        }
    }
    sheet
}

fn tiles_sheet() -> Sheet {
    let mut sheet = Sheet::new();
    for tile in [1u16, 3, 13, 14, 15, 18] {
        sheet.push_frame(
            FrameKey::Tile(tile),
            Cell {
                frame: SheetRect { x: tile as i16 * 10, y: 0, w: 128, h: 93 },
                sprite_source_size: SheetRect { x: 0, y: 0, w: 128, h: 93 },
            },
        );
    }
    sheet
}

fn fresh_walk() -> Walk {
    let boy = RedHatBoy::new(character_sheet(), counts()).unwrap();
    let backgrounds = Backgrounds::new(ImageSize { width: 600, height: 600 });
    Walk::new(boy, ImageSize { width: 20, height: 20 }, backgrounds, tiles_sheet())
}

fn no_input() -> FrameInput {
    FrameInput { run_right: false, jump: false, slide: false, new_game: false }
}

fn boy_of(game: &WalkTheDog) -> &RedHatBoy {
    match game.machine.as_ref().unwrap() {
        WalkTheDogStateMachine::Ready(w) => &w.boy,
        WalkTheDogStateMachine::Walking(w) => &w.boy,
        WalkTheDogStateMachine::GameOver(w) => &w.boy,
    }
}

fn walk_of(game: &WalkTheDog) -> &Walk {
    match game.machine.as_ref().unwrap() {
        WalkTheDogStateMachine::Ready(w) => w,
        WalkTheDogStateMachine::Walking(w) => w,
        WalkTheDogStateMachine::GameOver(w) => w,
    }
}

#[test]
fn a_fresh_walk_starts_with_the_first_segment_at_the_origin() {
    let walk = fresh_walk();
    assert_eq!(walk.timeline, 754);
    assert_eq!(walk.obstacles.len(), 2);
    match &walk.obstacles[0] {
        walk_the_dog::obstacles::Obstacle::Barrier(b) => {
            assert_eq!(b.image.bounding_box().x(), 150);
        },
        _ => panic!("expected a barrier first"),
    }
    assert_eq!(walk.backgrounds.first.bounding_box().x(), 0);
    assert_eq!(walk.backgrounds.second.bounding_box().x(), 600);
}

#[test]
fn initializing_twice_is_an_error() {
    let game = WalkTheDog::new();
    assert!(game.machine.is_none());
    let game = game.initialize(fresh_walk()).unwrap();
    assert!(game.machine.is_some());
    assert_eq!(
        game.initialize(fresh_walk()).map(|_| ()),
        Err(GameError::AlreadyInitialized)
    );
}

#[test]
fn ready_waits_for_the_run_input() {
    let mut game = WalkTheDog::new().initialize(fresh_walk()).unwrap();
    for _ in 0..5 {
        game.update(&no_input());
        assert!(matches!(
            game.machine,
            Some(WalkTheDogStateMachine::Ready(_))
        ));
    }
    assert!(matches!(
        boy_of(&game).state_machine,
        RedHatBoyStateMachine::Idle(_)
    ));
    game.update(&FrameInput { run_right: true, ..no_input() });
    assert!(matches!(
        game.machine,
        Some(WalkTheDogStateMachine::Walking(_))
    ));
    assert_eq!(boy_of(&game).walking_speed(), 4);
}

#[test]
fn the_backgrounds_scroll_and_loop_seamlessly() {
    let mut game = WalkTheDog::new().initialize(fresh_walk()).unwrap();
    game.update(&FrameInput { run_right: true, ..no_input() });
    for i in 1..=400 {
        game.update(&FrameInput { jump: i == 10 || i == 65, ..no_input() });
        let walk = walk_of(&game);
        let first = walk.backgrounds.first.bounding_box();
        let second = walk.backgrounds.second.bounding_box();
        assert_eq!(first.width, 600);
        assert_eq!(second.width, 600);
        let adjacent = second.x() == first.x() + 600 || first.x() == second.x() + 600;
        assert!(adjacent, "backgrounds drifted apart at tick {}", i);
        let leftmost = first.x().min(second.x());
        assert!(leftmost <= 0 && leftmost >= -604);
    }
}

#[test]
fn running_into_the_stone_ends_the_session() {
    let mut game = WalkTheDog::new().initialize(fresh_walk()).unwrap();
    game.update(&FrameInput { run_right: true, ..no_input() });
    let mut became_game_over_at = None;
    for i in 1..=120 {
        game.update(&no_input());
        if matches!(game.machine, Some(WalkTheDogStateMachine::GameOver(_))) {
            became_game_over_at = Some(i);
            break;
        }
    }
    // The stone reaches the character's collision box after 21 ticks, and
    // the terminal animation takes 29 more before the phase ends.
    assert_eq!(became_game_over_at, Some(50));
    assert!(boy_of(&game).knocked_out());
    assert_eq!(game.ui.overlays, vec![Overlay::NewGameButton]);
}

#[test]
fn jumping_over_the_stone_and_landing_on_the_platform() {
    let mut game = WalkTheDog::new().initialize(fresh_walk()).unwrap();
    game.update(&FrameInput { run_right: true, ..no_input() });
    let mut landed_on_platform = false;
    for i in 1..=110 {
        game.update(&FrameInput { jump: i == 10 || i == 65, ..no_input() });
        assert!(
            matches!(game.machine, Some(WalkTheDogStateMachine::Walking(_))),
            "knocked out unexpectedly at tick {}",
            i
        );
        if boy_of(&game).pos_y() == 420 - 121 && boy_of(&game).velocity_y() == 0 {
            landed_on_platform = true;
        }
    }
    assert!(landed_on_platform);
    assert!(!boy_of(&game).knocked_out());
}

#[test]
fn a_full_session_returns_to_ready_with_a_reset_character() {
    let mut game = WalkTheDog::new().initialize(fresh_walk()).unwrap();
    game.update(&FrameInput { run_right: true, ..no_input() });
    // Clear the first stone and ride the platform, then let the following
    // obstacles knock the character out.
    let mut game_over = false;
    for i in 1..=600 {
        game.update(&FrameInput { jump: i == 10 || i == 65, ..no_input() });
        if matches!(game.machine, Some(WalkTheDogStateMachine::GameOver(_))) {
            game_over = true;
            break;
        }
    }
    assert!(game_over);
    assert_eq!(game.ui.overlays, vec![Overlay::NewGameButton]);
    for _ in 0..3 {
        game.update(&no_input());
        assert!(matches!(
            game.machine,
            Some(WalkTheDogStateMachine::GameOver(_))
        ));
    }
    game.update(&FrameInput { new_game: true, ..no_input() });
    assert!(matches!(
        game.machine,
        Some(WalkTheDogStateMachine::Ready(_))
    ));
    assert!(game.ui.overlays.is_empty());
    let boy = boy_of(&game);
    assert!(matches!(boy.state_machine, RedHatBoyStateMachine::Idle(_)));
    assert_eq!(boy.pos_y(), 479);
    assert_eq!(boy.velocity_y(), 0);
    assert_eq!(boy.walking_speed(), 0);
    let walk = walk_of(&game);
    assert_eq!(walk.timeline, 754);
    assert_eq!(walk.obstacles.len(), 2);
}

#[test]
fn generated_segments_always_land_past_the_timeline() {
    // The segment layout is drawn at random, so try it repeatedly: whatever
    // was drawn, the new obstacles must start past the old timeline plus
    // the buffer and the timeline must move to their rightmost extent.
    for _ in 0..50 {
        let mut walk = fresh_walk();
        assert!(walk.timeline < 1000);
        let offset = walk.timeline + 20;
        walk.generate_next_segment();
        assert_eq!(walk.obstacles.len(), 4);
        let new_rights: Vec<i16> = walk.obstacles[2..].iter().map(|ob| ob.right()).collect();
        let stone_x = match &walk.obstacles[2] {
            walk_the_dog::obstacles::Obstacle::Barrier(b) => b.image.bounding_box().x(),
            _ => panic!("expected a barrier first in the new segment"),
        };
        let platform_x = match &walk.obstacles[3] {
            walk_the_dog::obstacles::Obstacle::Platform(p) => p.position.x,
            _ => panic!("expected a platform second in the new segment"),
        };
        // One of the three fixed layouts: stone near and platform far, or
        // the other way round.
        assert!(
            (stone_x == offset + 150 && platform_x == offset + 370)
                || (stone_x == offset + 370 && platform_x == offset + 150)
        );
        assert_eq!(walk.timeline, *new_rights.iter().max().unwrap());
        for right in new_rights {
            assert!(right <= walk.timeline);
        }
        // The old segment lies entirely before the new one.
        assert!(walk.obstacles[0].right() <= offset);
        assert!(walk.obstacles[1].right() <= offset);
    }
}

#[test]
fn a_background_that_leaves_the_screen_wraps_to_the_right() {
    let mut backgrounds = Backgrounds::new(ImageSize { width: 20, height: 20 });
    // After five steps of four pixels the first image sits at -20 with its
    // right edge at zero: still on screen, no wrap yet.
    for _ in 0..5 {
        backgrounds.scroll(-4);
    }
    assert_eq!(backgrounds.first.bounding_box().x(), -20);
    assert_eq!(backgrounds.second.bounding_box().x(), 0);
    // One more step pushes it fully off screen, so it wraps to the right
    // of the second image.
    backgrounds.scroll(-4);
    assert_eq!(backgrounds.second.bounding_box().x(), -4);
    assert_eq!(backgrounds.first.bounding_box().x(), 16);
}

#[test]
fn updating_before_initialization_does_nothing() {
    let mut game = WalkTheDog::new();
    game.update(&FrameInput { run_right: true, ..no_input() });
    assert!(game.machine.is_none());
    assert!(game.ui.overlays.is_empty());
}

#[test]
fn overlays_stack_in_front_and_hide_from_the_front() {
    let mut ui = Ui::new();
    assert!(ui.overlays.is_empty());
    draw_ui(&mut ui, Overlay::NewGameButton);
    draw_ui(&mut ui, Overlay::NewGameButton);
    assert_eq!(ui.overlays.len(), 2);
    hide_ui(&mut ui);
    assert_eq!(ui.overlays, vec![Overlay::NewGameButton]);
    hide_ui(&mut ui);
    assert!(ui.overlays.is_empty());
    hide_ui(&mut ui);
    assert!(ui.overlays.is_empty());
}
