use jb_gfx::handles::LightHandle;
use jb_gfx::light::{LightError, LightStore, MAX_LIGHTS};

#[test]
fn lights_stop_at_the_cap() {
    let mut store = LightStore::new();
    let mut handles = Vec::new();
    for _ in 0..MAX_LIGHTS {
        handles.push(store.create_light().expect("below the cap"));
    }
    assert_eq!(store.light_count(), 64);
    assert_eq!(store.create_light(), None);
    assert_eq!(store.light_count(), 64);
    for i in 0..handles.len() {
        for j in i + 1..handles.len() {
            assert_ne!(handles[i], handles[j]);
        }
    }
}

#[test]
fn setting_a_light_needs_a_known_handle() {
    let mut store = LightStore::new();
    let light = store.create_light().unwrap();
    assert_eq!(store.set_light(light), Ok(()));
    let unknown = LightHandle { key: 0x1_0000_0005 };
    assert_eq!(store.set_light(unknown), Err(LightError::NoLight));
}
