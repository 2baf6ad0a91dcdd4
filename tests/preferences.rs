use daktilo_engine::device::DeviceDescriptor;
use daktilo_engine::prefs::{initial_preferences, reconcile_preferences, Preferences};

fn devices() -> Vec<DeviceDescriptor> {
    vec![
        DeviceDescriptor { name: "HDMI Output".to_string(), is_default: false },
        DeviceDescriptor { name: "Built-in Speakers".to_string(), is_default: true },
    ]
}

fn saved(device: &str) -> Preferences {
    Preferences { enabled: false, preset_name: "soft".to_string(), device_name: device.to_string() }
}

#[test]
fn first_run_uses_default_preset_and_device() {
    let p = initial_preferences(&devices()).unwrap();
    assert!(p.enabled);
    assert_eq!(p.preset_name, "default");
    assert_eq!(p.device_name, "Built-in Speakers");
}

#[test]
fn first_run_without_default_device() {
    let d = vec![DeviceDescriptor { name: "HDMI Output".to_string(), is_default: false }];
    assert!(initial_preferences(&d).is_none());
}

#[test]
fn saved_device_kept_when_present_in_other_case() {
    let p = reconcile_preferences(saved("hdmi output"), &devices());
    assert!(!p.enabled);
    assert_eq!(p.preset_name, "soft");
    assert_eq!(p.device_name, "hdmi output");
}

#[test]
fn missing_saved_device_falls_back_to_default() {
    let p = reconcile_preferences(saved("usb headset"), &devices());
    assert!(!p.enabled);
    assert_eq!(p.preset_name, "soft");
    assert_eq!(p.device_name, "Built-in Speakers");
}

#[test]
fn missing_saved_device_without_default_is_kept() {
    let d = vec![DeviceDescriptor { name: "HDMI Output".to_string(), is_default: false }];
    let p = reconcile_preferences(saved("usb headset"), &d);
    assert_eq!(p.device_name, "usb headset");
}
