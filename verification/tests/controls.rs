use rasterm::controls::{camera_action, command_for, Advance, CameraAction, CameraMode, Command, Key};

#[test]
fn quit_keys_quit_in_every_mode() {
    assert_eq!(command_for(Key::Char('q'), false, true, 0, 5), Command::Quit);
    assert_eq!(command_for(Key::Char('q'), true, false, 3, 5), Command::Quit);
    assert_eq!(command_for(Key::Char('c'), true, false, 0, 5), Command::Quit);
    assert_eq!(command_for(Key::Char('c'), false, true, 0, 5), Command::Ignore);
}

#[test]
fn tab_cycles_demos_in_demo_mode() {
    assert_eq!(command_for(Key::Tab, false, true, 0, 5), Command::LoadDemo(1));
    assert_eq!(command_for(Key::Tab, false, true, 4, 5), Command::LoadDemo(0));
    assert_eq!(command_for(Key::Tab, false, false, 4, 5), Command::Ignore);
}

#[test]
fn digits_pick_demos() {
    assert_eq!(command_for(Key::Char('1'), false, true, 2, 5), Command::LoadDemo(0));
    assert_eq!(command_for(Key::Char('5'), false, true, 0, 5), Command::LoadDemo(4));
    assert_eq!(command_for(Key::Char('5'), false, true, 0, 3), Command::Ignore);
    assert_eq!(command_for(Key::Char('6'), false, true, 0, 5), Command::Ignore);
    assert_eq!(command_for(Key::Char('0'), false, true, 0, 5), Command::Ignore);
    assert_eq!(command_for(Key::Char('3'), false, false, 0, 5), Command::Ignore);
}

#[test]
fn other_keys_drive_the_camera() {
    assert_eq!(command_for(Key::Char('w'), false, true, 0, 5), Command::Camera(CameraAction::PitchUp));
    assert_eq!(command_for(Key::Down, false, false, 0, 5), Command::Camera(CameraAction::PitchDown));
    assert_eq!(command_for(Key::Char(' '), false, true, 0, 5), Command::Camera(CameraAction::TogglePause));
    assert_eq!(command_for(Key::Other, false, true, 0, 5), Command::Ignore);
}

#[test]
fn camera_key_bindings() {
    assert_eq!(camera_action(Key::Char('w')), Some(CameraAction::PitchUp));
    assert_eq!(camera_action(Key::Up), Some(CameraAction::PitchUp));
    assert_eq!(camera_action(Key::Char('s')), Some(CameraAction::PitchDown));
    assert_eq!(camera_action(Key::Char('a')), Some(CameraAction::YawLeft));
    assert_eq!(camera_action(Key::Left), Some(CameraAction::YawLeft));
    assert_eq!(camera_action(Key::Char('d')), Some(CameraAction::YawRight));
    assert_eq!(camera_action(Key::Right), Some(CameraAction::YawRight));
    assert_eq!(camera_action(Key::Char('+')), Some(CameraAction::ZoomIn));
    assert_eq!(camera_action(Key::Char('=')), Some(CameraAction::ZoomIn));
    assert_eq!(camera_action(Key::Char('-')), Some(CameraAction::ZoomOut));
    assert_eq!(camera_action(Key::Char(' ')), Some(CameraAction::TogglePause));
    assert_eq!(camera_action(Key::Char('x')), None);
    assert_eq!(camera_action(Key::Tab), None);
}

#[test]
fn camera_mode_flags() {
    let mode = CameraMode::new();
    assert_eq!(mode.advance(), Advance::Animate);
    assert!(!mode.orbits(true));
    assert!(mode.orbits(false));

    let paused = mode.apply(CameraAction::TogglePause);
    assert!(paused.paused && !paused.manual_override);
    assert_eq!(paused.advance(), Advance::Hold);
    assert_eq!(paused.apply(CameraAction::TogglePause), mode);

    let manual = mode.apply(CameraAction::YawLeft);
    assert!(manual.manual_override && !manual.paused);
    assert_eq!(manual.advance(), Advance::Rotate);
    assert!(manual.orbits(true));

    let rescripted = manual.scripted();
    assert_eq!(rescripted, mode);
}
