use daktilo_engine::device::{resolve_device, first_match, find_default, DeviceDescriptor, DeviceError};
use daktilo_engine::engine::{Command, Engine, EngineError, EngineStatus};
use daktilo_engine::keys::{classify, slot_of, KeyCategory, RawKeyEvent, Transition};
use daktilo_engine::preset::{Catalog, CatalogError, SoundClip, SoundPreset};

const KEY_A: u32 = 0x04;
const KEY_B: u32 = 0x05;
const KEY_C: u32 = 0x06;
const KEY_ENTER: u32 = 0x28;
const KEY_SPACE: u32 = 0x2C;

fn clip(id: u64) -> SoundClip {
    SoundClip { id }
}

fn press(code: u32, t: u64) -> RawKeyEvent {
    RawKeyEvent { key_code: code, transition: Transition::Press, timestamp: t }
}

fn release(code: u32, t: u64) -> RawKeyEvent {
    RawKeyEvent { key_code: code, transition: Transition::Release, timestamp: t }
}

/// A preset whose press sets hold `alpha` for letters and one clip
/// `base + slot` elsewhere; release sets are silent except Enter's.
fn preset(name: &str, alpha: Vec<SoundClip>, base: u64) -> SoundPreset {
    let mut press_sets = vec![alpha];
    for slot in 1..6u64 {
        press_sets.push(vec![clip(base + slot)]);
    }
    let mut release_sets: Vec<Vec<SoundClip>> = vec![vec![]; 6];
    release_sets[2] = vec![clip(base + 100)];
    SoundPreset::new(name.to_string(), press_sets, release_sets).unwrap()
}

fn catalog() -> Catalog {
    Catalog::load_all(vec![
        preset("default", vec![clip(1), clip(2)], 10),
        preset("soft", vec![clip(50)], 60),
    ])
    .unwrap()
}

fn devices() -> Option<Vec<DeviceDescriptor>> {
    Some(vec![
        DeviceDescriptor { name: "Speakers".to_string(), is_default: true },
        DeviceDescriptor { name: "USB Headset".to_string(), is_default: false },
    ])
}

fn running(cat: &Catalog, preset_name: &str, device: &str) -> Engine {
    let mut e = Engine::new(true);
    let plan = Engine::plan_config(cat, &preset_name.to_string(), &device.to_string(), &devices()).unwrap();
    e.finish_config(cat, plan, true).unwrap();
    e
}

#[test]
fn classify_known_keys() {
    assert_eq!(classify(KEY_A), KeyCategory::AlphaNumeric);
    assert_eq!(classify(0x1D), KeyCategory::AlphaNumeric);
    assert_eq!(classify(0x27), KeyCategory::AlphaNumeric);
    assert_eq!(classify(0x59), KeyCategory::AlphaNumeric);
    assert_eq!(classify(KEY_SPACE), KeyCategory::Whitespace);
    assert_eq!(classify(0x2B), KeyCategory::Whitespace);
    assert_eq!(classify(KEY_ENTER), KeyCategory::Enter);
    assert_eq!(classify(0x58), KeyCategory::Enter);
    assert_eq!(classify(0x2A), KeyCategory::Backspace);
    assert_eq!(classify(0xE0), KeyCategory::Modifier);
    assert_eq!(classify(0xE7), KeyCategory::Modifier);
    assert_eq!(classify(0x39), KeyCategory::Modifier);
}

#[test]
fn classify_unknown_keys_is_other() {
    assert_eq!(classify(0), KeyCategory::Other);
    assert_eq!(classify(0x2D), KeyCategory::Other);
    assert_eq!(classify(0xE8), KeyCategory::Other);
    assert_eq!(classify(u32::MAX), KeyCategory::Other);
}

#[test]
fn slots_split_press_and_release() {
    assert_eq!(slot_of(KeyCategory::AlphaNumeric, Transition::Press), 0);
    assert_eq!(slot_of(KeyCategory::Other, Transition::Press), 5);
    assert_eq!(slot_of(KeyCategory::AlphaNumeric, Transition::Release), 6);
    assert_eq!(slot_of(KeyCategory::Other, Transition::Release), 11);
}

#[test]
fn preset_rejects_incomplete_tables() {
    let full = || vec![vec![clip(1)]; 6];
    let mut empty_set = full();
    empty_set[3] = vec![];
    assert_eq!(SoundPreset::new("x".to_string(), empty_set, full()).err(), Some(CatalogError::IncompletePreset));
    assert_eq!(SoundPreset::new("x".to_string(), vec![vec![clip(1)]; 5], full()).err(), Some(CatalogError::IncompletePreset));
    assert_eq!(SoundPreset::new("x".to_string(), full(), vec![vec![]; 7]).err(), Some(CatalogError::IncompletePreset));
    let p = SoundPreset::new("x".to_string(), full(), vec![vec![]; 6]).unwrap();
    assert_eq!(p.name(), "x");
    assert_eq!(p.set_len(0), 1);
    assert_eq!(p.set_len(6), 0);
    assert_eq!(p.clip(5, 0), clip(1));
}

#[test]
fn catalog_rejects_duplicate_names() {
    let r = Catalog::load_all(vec![preset("a", vec![clip(1)], 0), preset("a", vec![clip(2)], 0)]);
    assert_eq!(r.err().map(|_| ()), Some(()));
    let r = Catalog::load_all(vec![preset("a", vec![clip(1)], 0), preset("a", vec![clip(2)], 0)]);
    assert!(matches!(r, Err(CatalogError::DuplicatePresetName)));
}

#[test]
fn catalog_find_and_list() {
    let cat = catalog();
    assert_eq!(cat.len(), 2);
    assert_eq!(cat.find(&"soft".to_string()), Some(1));
    assert_eq!(cat.find(&"default".to_string()), Some(0));
    assert_eq!(cat.find(&"Default".to_string()), None);
    assert_eq!(cat.list_presets(), vec!["default".to_string(), "soft".to_string()]);
    assert_eq!(cat.get(1).name(), "soft");
}

#[test]
fn device_names_match_ignoring_case() {
    let d = devices();
    assert_eq!(resolve_device(d.as_ref(), Some(&"usb headset".to_string())), Ok(1));
    assert_eq!(resolve_device(d.as_ref(), Some(&"SPEAKERS".to_string())), Ok(0));
    assert_eq!(resolve_device(d.as_ref(), Some(&"Headphones".to_string())), Err(DeviceError::DeviceUnavailable));
}

#[test]
fn device_default_and_enumeration_failure() {
    let d = devices();
    assert_eq!(resolve_device(d.as_ref(), None), Ok(0));
    let none_default = Some(vec![DeviceDescriptor { name: "Line Out".to_string(), is_default: false }]);
    assert_eq!(resolve_device(none_default.as_ref(), None), Err(DeviceError::DeviceUnavailable));
    assert_eq!(resolve_device(None, Some(&"Speakers".to_string())), Err(DeviceError::DeviceEnumerationFailed));
    assert_eq!(find_default(&vec![]), None);
    let names = vec!["a".to_string(), "b".to_string(), "b".to_string()];
    assert_eq!(first_match(&"b".to_string(), &names), Some(1));
    assert_eq!(first_match(&"B".to_string(), &names), None);
}

#[test]
fn scenario_alternating_clips_in_event_order() {
    let cat = catalog();
    let mut e = running(&cat, "default", "speakers");
    let played: Vec<Option<SoundClip>> =
        [KEY_A, KEY_B, KEY_C].iter().enumerate().map(|(t, k)| e.key_event(&cat, press(*k, t as u64))).collect();
    assert_eq!(played, vec![Some(clip(1)), Some(clip(2)), Some(clip(1))]);
}

#[test]
fn scenario_unknown_preset_keeps_previous() {
    let cat = catalog();
    let mut e = running(&cat, "default", "Speakers");
    let r = Engine::plan_config(&cat, &"nonexistent".to_string(), &"Speakers".to_string(), &devices());
    assert_eq!(r.err(), Some(EngineError::UnknownPreset));
    assert_eq!(e.active_preset(), 0);
    assert_eq!(e.key_event(&cat, press(KEY_A, 1)), Some(clip(1)));
}

#[test]
fn scenario_unplugged_device_keeps_previous() {
    let cat = catalog();
    let mut e = running(&cat, "default", "Speakers");
    let r = Engine::plan_config(&cat, &"default".to_string(), &"Unplugged Headphones".to_string(), &devices());
    assert_eq!(r.err(), Some(EngineError::DeviceUnavailable));
    assert_eq!(e.active_device().name, "Speakers");
    assert_eq!(e.status(), EngineStatus::Running);
    assert_eq!(e.key_event(&cat, press(KEY_SPACE, 1)), Some(clip(11)));
}

#[test]
fn enumeration_failure_is_reported() {
    let cat = catalog();
    let r = Engine::plan_config(&cat, &"default".to_string(), &"Speakers".to_string(), &None);
    assert_eq!(r.err(), Some(EngineError::DeviceEnumerationFailed));
    let r = Engine::plan_config(&cat, &"nope".to_string(), &"Speakers".to_string(), &None);
    assert_eq!(r.err(), Some(EngineError::UnknownPreset));
}

#[test]
fn failed_sink_open_leaves_state_unchanged() {
    let cat = catalog();
    let mut e = running(&cat, "default", "Speakers");
    assert_eq!(e.key_event(&cat, press(KEY_A, 0)), Some(clip(1)));
    let plan = Engine::plan_config(&cat, &"soft".to_string(), &"usb HEADSET".to_string(), &devices()).unwrap();
    assert_eq!(plan.preset, 1);
    assert_eq!(plan.device.name, "USB Headset");
    assert_eq!(e.finish_config(&cat, plan, false), Err(EngineError::DeviceUnavailable));
    assert_eq!(e.active_preset(), 0);
    assert_eq!(e.active_device().name, "Speakers");
    assert_eq!(e.key_event(&cat, press(KEY_A, 1)), Some(clip(2)));
}

#[test]
fn successful_reconfiguration_switches_preset_and_device() {
    let cat = catalog();
    let mut e = running(&cat, "default", "Speakers");
    assert_eq!(e.key_event(&cat, press(KEY_A, 0)), Some(clip(1)));
    let plan = Engine::plan_config(&cat, &"soft".to_string(), &"usb headset".to_string(), &devices()).unwrap();
    assert_eq!(e.finish_config(&cat, plan, true), Ok(()));
    assert_eq!(e.active_preset(), 1);
    assert_eq!(e.active_device().name, "USB Headset");
    assert!(!e.active_device().is_default);
    assert_eq!(e.key_event(&cat, press(KEY_A, 1)), Some(clip(50)));
    assert_eq!(e.key_event(&cat, press(KEY_ENTER, 2)), Some(clip(62)));
}

#[test]
fn reconfiguration_restarts_rotation() {
    let cat = catalog();
    let mut e = running(&cat, "default", "Speakers");
    assert_eq!(e.key_event(&cat, press(KEY_A, 0)), Some(clip(1)));
    let plan = Engine::plan_config(&cat, &"default".to_string(), &"Speakers".to_string(), &devices()).unwrap();
    e.finish_config(&cat, plan, true).unwrap();
    assert_eq!(e.key_event(&cat, press(KEY_A, 1)), Some(clip(1)));
}

#[test]
fn disabled_engine_mutes_and_resumes_without_replay() {
    let cat = catalog();
    let mut e = running(&cat, "default", "Speakers");
    let cmds = vec![
        Command::SetEnabled(false),
        Command::Key(press(KEY_A, 0)),
        Command::Key(press(KEY_B, 1)),
        Command::Key(press(KEY_ENTER, 2)),
        Command::SetEnabled(true),
        Command::Key(press(KEY_C, 3)),
    ];
    assert_eq!(e.process_all(&cat, &cmds), vec![clip(1)]);
    assert!(e.enabled());
}

#[test]
fn disabled_engine_plays_nothing() {
    let cat = catalog();
    let mut e = running(&cat, "default", "Speakers");
    e.set_enabled(false);
    for t in 0..50u64 {
        assert_eq!(e.key_event(&cat, press(KEY_A, t)), None);
    }
    e.set_enabled(true);
    assert_eq!(e.key_event(&cat, press(KEY_A, 50)), Some(clip(1)));
}

#[test]
fn playback_follows_command_order() {
    let cat = catalog();
    let mut e = running(&cat, "default", "Speakers");
    let cmds = vec![
        Command::Key(press(KEY_SPACE, 0)),
        Command::Key(press(KEY_A, 1)),
        Command::Key(release(KEY_A, 2)),
        Command::Key(press(KEY_ENTER, 3)),
        Command::Key(release(KEY_ENTER, 4)),
        Command::Key(press(KEY_A, 5)),
    ];
    assert_eq!(e.process_all(&cat, &cmds), vec![clip(11), clip(1), clip(12), clip(110), clip(2)]);
}

#[test]
fn round_robin_over_three_clips() {
    let cat = Catalog::load_all(vec![preset("three", vec![clip(7), clip(8), clip(9)], 0)]).unwrap();
    let mut e = running(&cat, "three", "Speakers");
    let played: Vec<u64> = (0..7u64).map(|t| e.key_event(&cat, press(KEY_A, t)).unwrap().id).collect();
    assert_eq!(played, vec![7, 8, 9, 7, 8, 9, 7]);
}

#[test]
fn single_clip_repeats() {
    let cat = catalog();
    let mut e = running(&cat, "soft", "Speakers");
    assert_eq!(e.key_event(&cat, press(KEY_A, 0)), Some(clip(50)));
    assert_eq!(e.key_event(&cat, press(KEY_A, 1)), Some(clip(50)));
}

#[test]
fn silent_release_plays_nothing() {
    let cat = catalog();
    let mut e = running(&cat, "default", "Speakers");
    assert_eq!(e.key_event(&cat, release(KEY_A, 0)), None);
    assert_eq!(e.key_event(&cat, release(KEY_ENTER, 1)), Some(clip(110)));
}

#[test]
fn idle_engine_plays_nothing() {
    let cat = catalog();
    let mut e = Engine::new(true);
    assert_eq!(e.status(), EngineStatus::Idle);
    assert_eq!(e.key_event(&cat, press(KEY_A, 0)), None);
    assert_eq!(e.process(&cat, Command::SetEnabled(false)), None);
    assert!(!e.enabled());
}

#[test]
fn shutdown_is_terminal() {
    let cat = catalog();
    let mut e = running(&cat, "default", "Speakers");
    assert!(e.shutdown());
    assert_eq!(e.status(), EngineStatus::ShuttingDown);
    assert_eq!(e.key_event(&cat, press(KEY_A, 0)), None);
    assert!(!e.shutdown());
    let mut idle = Engine::new(false);
    assert!(!idle.shutdown());
}
