use robotica_backend::lights::{copy_colors_to_pos, Colors, MergeError, MergeLightConfig, MergedLight, PowerColor, SplitLightConfig};
use robotica_backend::lights::{light_command_plan, LightCommand, LightPlan};
use robotica_backend::lights::{next_rainbow_step, rainbow_hues};
use robotica_backend::lights::busy_frame;

#[test]
fn lights_copy_single_and_sequence() {
    let mut colors = vec![0u32; 8];
    copy_colors_to_pos(&PowerColor::On(Colors::Single(7)), &mut colors, 2, 3);
    assert_eq!(colors, vec![0, 0, 7, 7, 7, 0, 0, 0]);
    copy_colors_to_pos(&PowerColor::On(Colors::Sequence(vec![1, 2])), &mut colors, 5, 10);
    assert_eq!(colors, vec![0, 0, 7, 7, 7, 1, 2, 1]);
    copy_colors_to_pos(&PowerColor::Off, &mut colors, 0, 8);
    assert_eq!(colors, vec![0, 0, 7, 7, 7, 1, 2, 1]);
    copy_colors_to_pos(&PowerColor::On(Colors::Sequence(vec![])), &mut colors, 0, 8);
    assert_eq!(colors, vec![0, 0, 7, 7, 7, 1, 2, 1]);
    copy_colors_to_pos(&PowerColor::On(Colors::Single(9)), &mut colors, 20, 8);
    assert_eq!(colors, vec![0, 0, 7, 7, 7, 1, 2, 1]);
}

#[test]
fn lights_merge_segments() {
    let config = MergeLightConfig {
        number_of_lights: 32,
        splits: vec![SplitLightConfig { begin: 0, number: 2 }, SplitLightConfig { begin: 2, number: 3 }],
    };
    let mut m: MergedLight<u32> = MergedLight::new(&config);
    let out = m.update(&config, 1, PowerColor::On(Colors::Single(5)), 0).unwrap();
    match out {
        PowerColor::On(Colors::Sequence(c)) => {
            assert_eq!(c.len(), 32);
            assert_eq!(&c[0..6], &[0, 0, 5, 5, 5, 0]);
        },
        _ => panic!("expected colors"),
    }
    let out = m.update(&config, 1, PowerColor::Off, 0).unwrap();
    assert!(matches!(out, PowerColor::Off));
    assert_eq!(m.update(&config, 5, PowerColor::Off, 0).err(), Some(MergeError::PriorityOutOfRange(5)));
    assert_eq!(m.update(&config, 2, PowerColor::Off, 0).err(), Some(MergeError::PriorityOutOfRange(2)));
}

#[test]
fn lights_command_plan_scenes_and_flash() {
    let scenes = vec!["auto".to_string(), "off".to_string()];
    let last: Option<PowerColor<u32>> = Some(PowerColor::On(Colors::Single(3)));
    let flash = PowerColor::On(Colors::Single(9));
    match light_command_plan(&LightCommand::TurnOn("auto".to_string()), &scenes, &last, &flash) {
        LightPlan::SetScene(n) => assert_eq!(n, "auto"),
        _ => panic!("expected a scene"),
    }
    match light_command_plan(&LightCommand::TurnOn("party".to_string()), &scenes, &last, &flash) {
        LightPlan::UnknownScene(n) => assert_eq!(n, "party"),
        _ => panic!("expected an unknown scene"),
    }
    match light_command_plan(&LightCommand::TurnOff, &scenes, &last, &flash) {
        LightPlan::SetScene(n) => assert_eq!(n, "off"),
        _ => panic!("expected the off scene"),
    }
    match light_command_plan(&LightCommand::TurnOff, &vec![], &last, &flash) {
        LightPlan::UnknownScene(n) => assert_eq!(n, "off"),
        _ => panic!("expected an unknown scene"),
    }
    match light_command_plan(&LightCommand::Flash, &scenes, &last, &flash) {
        LightPlan::Show(v) => {
            assert_eq!(v.len(), 4);
            assert!(matches!(v[0], PowerColor::On(Colors::Single(9))));
            assert!(matches!(v[1], PowerColor::On(Colors::Single(3))));
            assert!(matches!(v[2], PowerColor::On(Colors::Single(9))));
            assert!(matches!(v[3], PowerColor::On(Colors::Single(3))));
        },
        _ => panic!("expected a flash"),
    }
    match light_command_plan(&LightCommand::Flash, &scenes, &None, &flash) {
        LightPlan::Show(v) => {
            assert!(matches!(v[1], PowerColor::Off));
            assert!(matches!(v[3], PowerColor::Off));
        },
        _ => panic!("expected a flash"),
    }
}

#[test]
fn lights_rainbow_frames() {
    assert_eq!(rainbow_hues(0), vec![0, 36, 72, 108, 144, 180, 216, 252, 288, 324]);
    assert_eq!(rainbow_hues(9), vec![324, 0, 36, 72, 108, 144, 180, 216, 252, 288]);
    assert_eq!(next_rainbow_step(3), 4);
    assert_eq!(next_rainbow_step(9), 0);
}

#[test]
fn lights_busy_frames_alternate() {
    match busy_frame(false, 1u8, 2u8) {
        PowerColor::On(Colors::Sequence(v)) => assert_eq!(v, vec![1, 2]),
        _ => panic!("expected colors"),
    }
    match busy_frame(true, 1u8, 2u8) {
        PowerColor::On(Colors::Sequence(v)) => assert_eq!(v, vec![2, 1]),
        _ => panic!("expected colors"),
    }
}
