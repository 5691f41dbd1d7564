use jb_gfx::game::{
    editor_actions, handles_to_remove, toggle_debug_ui, Editor, EditorActions, TracerCounter,
    KEY_1, KEY_2, KEY_A, KEY_D, KEY_ESCAPE, KEY_F1, KEY_F5, KEY_S, KEY_SPACE, KEY_W,
};
use jb_gfx::handles::RenderModelHandle;
use jb_gfx::input::{Input, KEY_COUNT};
use jb_gfx::particle::{first_unused_particle, ParticleSystemState};
use winit::event::VirtualKeyCode;

#[test]
fn key_codes_are_winit_codes() {
    assert_eq!(KEY_1, VirtualKeyCode::Key1 as usize);
    assert_eq!(KEY_2, VirtualKeyCode::Key2 as usize);
    assert_eq!(KEY_A, VirtualKeyCode::A as usize);
    assert_eq!(KEY_D, VirtualKeyCode::D as usize);
    assert_eq!(KEY_S, VirtualKeyCode::S as usize);
    assert_eq!(KEY_W, VirtualKeyCode::W as usize);
    assert_eq!(KEY_ESCAPE, VirtualKeyCode::Escape as usize);
    assert_eq!(KEY_F1, VirtualKeyCode::F1 as usize);
    assert_eq!(KEY_F5, VirtualKeyCode::F5 as usize);
    assert_eq!(KEY_SPACE, VirtualKeyCode::Space as usize);
    assert!((VirtualKeyCode::Cut as usize) < KEY_COUNT);
}

#[test]
fn key_press_hold_release_cycle() {
    let mut input = Input::default();
    assert!(!input.is_just_pressed(KEY_W));
    input.key_event(KEY_W, true);
    assert!(input.is_just_pressed(KEY_W));
    assert!(!input.is_held(KEY_W));
    input.new_frame();
    assert!(!input.is_just_pressed(KEY_W));
    assert!(input.is_held(KEY_W));
    input.key_event(KEY_W, false);
    assert!(input.was_released(KEY_W));
    input.new_frame();
    assert!(!input.was_released(KEY_W));
    assert!(!input.is_held(KEY_W));
}

#[test]
fn key_states_are_exclusive() {
    let mut input = Input::default();
    input.key_event(KEY_A, true);
    input.new_frame();
    input.key_event(KEY_D, true);
    input.key_event(KEY_A, false);
    for key in [KEY_A, KEY_D, KEY_S] {
        let states = [input.is_just_pressed(key), input.is_held(key), input.was_released(key)];
        assert!(states.iter().filter(|s| **s).count() <= 1);
    }
    assert!(input.was_released(KEY_A));
    assert!(input.is_just_pressed(KEY_D));
}

#[test]
fn editor_new_and_top_bar_toggles() {
    let mut editor = Editor::new();
    assert_eq!(
        editor,
        Editor { camera_controls_show: false, light_controls_show: false, engine_utils_show: false }
    );
    editor.top_bar(true, false, true);
    assert!(editor.camera_controls_show);
    assert!(!editor.light_controls_show);
    assert!(editor.engine_utils_show);
    editor.top_bar(true, true, false);
    assert!(!editor.camera_controls_show);
    assert!(editor.light_controls_show);
    assert!(editor.engine_utils_show);
}

#[test]
fn editor_keys_pick_cameras_and_reload() {
    let mut input = Input::default();
    input.key_event(KEY_1, true);
    input.key_event(KEY_F5, true);
    assert_eq!(editor_actions(&input, 2), EditorActions { reload_shaders: true, camera: Some(0) });
    assert_eq!(editor_actions(&input, 0), EditorActions { reload_shaders: true, camera: None });
    input.key_event(KEY_2, true);
    assert_eq!(editor_actions(&input, 2).camera, Some(1));
    assert_eq!(editor_actions(&input, 1).camera, Some(0));
    input.new_frame();
    assert_eq!(editor_actions(&input, 2), EditorActions { reload_shaders: false, camera: None });
}

#[test]
fn f1_toggles_debug_ui() {
    let mut input = Input::default();
    assert!(toggle_debug_ui(&input, true));
    input.key_event(KEY_F1, true);
    assert!(!toggle_debug_ui(&input, true));
    assert!(toggle_debug_ui(&input, false));
}

#[test]
fn every_fourth_shot_is_a_tracer() {
    let mut counter = TracerCounter::new();
    assert_eq!(counter.tracer_bullet_rate, 3);
    let shots: Vec<bool> = (0..9).map(|_| counter.fire()).collect();
    assert_eq!(shots, vec![false, false, false, true, false, false, true, false, false]);
}

#[test]
fn removed_handles_are_those_not_kept() {
    let h = |k: u64| RenderModelHandle { key: k };
    let old = vec![h(1), h(2), h(3), h(4)];
    let kept = vec![h(4), h(2)];
    assert_eq!(handles_to_remove(&old, &kept), vec![h(1), h(3)]);
    assert!(handles_to_remove(&old, &old).is_empty());
    assert_eq!(handles_to_remove(&old, &Vec::new()), old);
}

#[test]
fn particle_slot_choice() {
    assert_eq!(first_unused_particle(&vec![false, true, true]), 1);
    assert_eq!(first_unused_particle(&vec![true, false]), 0);
    assert_eq!(first_unused_particle(&vec![false, false, false]), 0);
    assert_eq!(first_unused_particle(&Vec::new()), 0);
    assert_ne!(ParticleSystemState::Running, ParticleSystemState::Stopped);
}
