use walk_the_dog::boy::GameError;
use walk_the_dog::boy::RedHatBoy;
use walk_the_dog::character::FrameCounts;
use walk_the_dog::character::RedHatBoyStateMachine;
use walk_the_dog::character::SoundCue;
use walk_the_dog::sprites::AnimationName;
use walk_the_dog::sprites::Cell;
use walk_the_dog::sprites::FrameKey;
use walk_the_dog::sprites::Sheet;
use walk_the_dog::sprites::SheetRect;

fn counts() -> FrameCounts {
    FrameCounts { idle: 29, running: 23, sliding: 14, jumping: 35, falling: 29 }
}

fn boy_cell() -> Cell {
    Cell {
        frame: SheetRect { x: 0, y: 0, w: 100, h: 121 },
        sprite_source_size: SheetRect { x: 0, y: 0, w: 100, h: 121 },
    }
}

fn character_sheet() -> Sheet {
    let mut sheet = Sheet::new();
    let animations = [
        (AnimationName::Idle, 29u8),
        (AnimationName::Run, 23),
        (AnimationName::Slide, 14),
        (AnimationName::Jump, 35),
        (AnimationName::Dead, 29),
    ];
    for (name, count) in animations {
        let mut i: u8 = 1;
        while i <= count / 3 + 1 {
            sheet.push_frame(FrameKey::Animation(name, i), boy_cell());
            i += 1;
        }
    }
    sheet
}

fn running_boy() -> RedHatBoy {
    let mut boy = RedHatBoy::new(character_sheet(), counts()).unwrap();
    boy.run_right();
    boy
}

fn is_running(boy: &RedHatBoy) -> bool {
    matches!(boy.state_machine, RedHatBoyStateMachine::Running(_))
}

#[test]
fn a_fresh_character_idles_on_the_floor() {
    let boy = RedHatBoy::new(character_sheet(), counts()).unwrap();
    assert!(matches!(boy.state_machine, RedHatBoyStateMachine::Idle(_)));
    assert_eq!(boy.pos_y(), 479);
    assert_eq!(boy.velocity_y(), 0);
    assert_eq!(boy.walking_speed(), 0);
    assert!(!boy.knocked_out());
}

#[test]
fn construction_fails_without_every_animation_frame() {
    let empty = Sheet::new();
    assert_eq!(RedHatBoy::new(empty, counts()).map(|_| ()), Err(GameError::MissingFrame));
    let mut partial = Sheet::new();
    partial.push_frame(FrameKey::Animation(AnimationName::Idle, 1), boy_cell());
    assert_eq!(RedHatBoy::new(partial, counts()).map(|_| ()), Err(GameError::MissingFrame));
}

#[test]
fn construction_fails_on_zero_animation_lengths() {
    let bad = FrameCounts { idle: 0, running: 23, sliding: 14, jumping: 35, falling: 29 };
    assert_eq!(
        RedHatBoy::new(character_sheet(), bad).map(|_| ()),
        Err(GameError::InvalidFrameCounts)
    );
}

#[test]
fn running_keeps_horizontal_velocity_and_position() {
    let mut boy = running_boy();
    assert_eq!(boy.walking_speed(), 4);
    let x0 = boy.state_machine.context().position.x;
    for _ in 0..40 {
        boy.update();
        assert_eq!(boy.walking_speed(), 4);
        assert_eq!(boy.state_machine.context().position.x, x0);
        assert_eq!(boy.pos_y(), 479);
        assert!(is_running(&boy));
    }
}

#[test]
fn idling_keeps_velocity_zero() {
    let mut boy = RedHatBoy::new(character_sheet(), counts()).unwrap();
    for _ in 0..40 {
        boy.update();
        assert_eq!(boy.walking_speed(), 0);
        assert_eq!(boy.velocity_y(), 0);
        assert_eq!(boy.pos_y(), 479);
        assert!(matches!(boy.state_machine, RedHatBoyStateMachine::Idle(_)));
    }
}

#[test]
fn gravity_accumulates_strictly_while_airborne() {
    let mut boy = running_boy();
    boy.jump();
    assert_eq!(boy.velocity_y(), -25);
    let mut previous = boy.velocity_y();
    for _ in 0..40 {
        boy.update();
        if matches!(boy.state_machine, RedHatBoyStateMachine::Jumping(_)) && previous < 20 {
            assert_eq!(boy.velocity_y(), previous + 1);
            assert!(boy.velocity_y() > previous);
        }
        previous = boy.velocity_y();
    }
}

#[test]
fn jump_then_land_restores_running_on_the_landing_coordinate() {
    let mut boy = running_boy();
    boy.jump();
    for _ in 0..5 {
        boy.update();
    }
    assert!(matches!(boy.state_machine, RedHatBoyStateMachine::Jumping(_)));
    boy.land_on(420);
    assert!(is_running(&boy));
    assert_eq!(boy.pos_y(), 420 - 121);
    assert_eq!(boy.velocity_y(), 0);
}

#[test]
fn a_jump_left_alone_returns_to_the_floor() {
    let mut boy = running_boy();
    boy.jump();
    let mut landed = false;
    for _ in 0..80 {
        boy.update();
        if is_running(&boy) {
            landed = true;
            break;
        }
    }
    assert!(landed);
    assert_eq!(boy.pos_y(), 479);
    assert_eq!(boy.velocity_y(), 0);
}

#[test]
fn landing_while_already_grounded_is_a_harmless_snap() {
    let mut boy = running_boy();
    boy.land_on(600);
    assert!(is_running(&boy));
    assert_eq!(boy.pos_y(), 479);
    assert_eq!(boy.velocity_y(), 0);
}

#[test]
fn knock_out_falls_then_reaches_the_terminal_state() {
    for start in 0..3 {
        let mut boy = running_boy();
        match start {
            0 => {},
            1 => boy.slide(),
            _ => boy.jump(),
        }
        boy.knock_out();
        assert!(matches!(boy.state_machine, RedHatBoyStateMachine::Falling(_)));
        assert_eq!(boy.walking_speed(), 0);
        for _ in 0..28 {
            boy.update();
            assert!(!boy.knocked_out());
        }
        boy.update();
        assert!(boy.knocked_out());
        boy.update();
        assert!(boy.knocked_out());
    }
}

#[test]
fn jumping_while_sliding_does_nothing() {
    let mut boy = running_boy();
    boy.slide();
    assert!(matches!(boy.state_machine, RedHatBoyStateMachine::Sliding(_)));
    boy.jump();
    assert!(matches!(boy.state_machine, RedHatBoyStateMachine::Sliding(_)));
    assert_eq!(boy.take_sound_cues(), Vec::<SoundCue>::new());
}

#[test]
fn a_finished_slide_stands_back_up() {
    let mut boy = running_boy();
    boy.slide();
    for _ in 0..13 {
        boy.update();
        assert!(matches!(boy.state_machine, RedHatBoyStateMachine::Sliding(_)));
    }
    boy.update();
    assert!(is_running(&boy));
}

#[test]
fn transitions_ask_for_their_sounds_in_order() {
    let mut boy = running_boy();
    assert_eq!(boy.take_sound_cues(), Vec::<SoundCue>::new());
    boy.jump();
    boy.knock_out();
    assert_eq!(boy.take_sound_cues(), vec![SoundCue::Jump, SoundCue::Die]);
    assert_eq!(boy.take_sound_cues(), Vec::<SoundCue>::new());
}

#[test]
fn the_displayed_sprite_tracks_the_state_and_frame() {
    let mut boy = running_boy();
    assert!(matches!(
        boy.state_machine.frame_name(),
        AnimationName::Run
    ));
    let destination = boy.destination_box();
    assert_eq!(destination.x(), -20);
    assert_eq!(destination.y(), 479);
    assert_eq!(destination.width, 100);
    assert_eq!(destination.height, 121);
    let bounding = boy.bounding_box();
    assert_eq!(bounding.x(), -2);
    assert_eq!(bounding.y(), 493);
    assert_eq!(bounding.width, 72);
    assert_eq!(bounding.height, 107);
    boy.knock_out();
    assert!(matches!(
        boy.state_machine.frame_name(),
        AnimationName::Dead
    ));
}

#[test]
fn reset_restores_the_initial_physics_state() {
    let mut boy = running_boy();
    boy.jump();
    for _ in 0..10 {
        boy.update();
    }
    let boy = RedHatBoy::reset(boy);
    assert!(matches!(boy.state_machine, RedHatBoyStateMachine::Idle(_)));
    assert_eq!(boy.pos_y(), 479);
    assert_eq!(boy.velocity_y(), 0);
    assert_eq!(boy.walking_speed(), 0);
}
