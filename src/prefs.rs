//! The preferences a front end keeps between runs, and how they are brought
//! in line with the devices present at startup.
use vstd::prelude::*;
use crate::device::{DeviceDescriptor, find_default, first_default, first_equal, folded_names, lower_of, resolve_device};

verus! {

/// The last-used settings: whether sound is on, the preset and the device.
pub struct Preferences {
    pub enabled: bool,
    pub preset_name: String,
    pub device_name: String,
}

/// Name of the preset chosen when nothing was saved.
pub open spec fn default_preset_name() -> Seq<char> {
    "default"@
}

/// Some device of `d` is called `name`, ignoring case.
pub open spec fn device_present(d: Seq<DeviceDescriptor>, name: Seq<char>) -> bool {
    exists|i: int| first_equal(folded_names(d), lower_of(name), i)
}

/// The settings of a first run: sound on, the "default" preset and the first
/// default device; `None` when no device is the default.
pub fn initial_preferences(devices: &Vec<DeviceDescriptor>) -> (r: Option<Preferences>)
    ensures
        match r {
            Some(p) => p.enabled && p.preset_name@ == default_preset_name() && exists|i: int|
                first_default(devices@, i) && #[trigger] devices@[i].name@ == p.device_name@,
            None => forall|k: int| 0 <= k < devices@.len() ==> !(#[trigger] devices@[k].is_default),
        },
{
    match find_default(devices) {
        Some(i) => {
            let preset_name = String::from_str("default");
            proof {
                reveal_strlit("default");
            }
            assert(preset_name@ == default_preset_name());
            let device_name = devices[i].name.clone();
            assert(first_default(devices@, i as int) && devices@[i as int].name@ == device_name@);
            Some(Preferences { enabled: true, preset_name, device_name })
        },
        None => None,
    }
}

/// Keeps the saved device when it is still present (ignoring case), and
/// otherwise falls back to the first default device; with no default device
/// the preferences are kept as they are.
pub fn reconcile_preferences(saved: Preferences, devices: &Vec<DeviceDescriptor>) -> (r: Preferences)
    ensures
        r.enabled == saved.enabled,
        r.preset_name@ == saved.preset_name@,
        device_present(devices@, saved.device_name@) ==> r.device_name@ == saved.device_name@,
        !device_present(devices@, saved.device_name@) ==> (exists|i: int|
            first_default(devices@, i) && #[trigger] devices@[i].name@ == r.device_name@) || ((
        forall|k: int| 0 <= k < devices@.len() ==> !(#[trigger] devices@[k].is_default))
            && r.device_name@ == saved.device_name@),
{
    let listed = Some(devices);
    let found = resolve_device(listed, Some(&saved.device_name));
    assert(listed->Some_0@ == devices@);
    match found {
        Ok(_) => saved,
        Err(_) => {
            match find_default(devices) {
                Some(i) => {
                    let device_name = devices[i].name.clone();
                    assert(first_default(devices@, i as int) && devices@[i as int].name@ == device_name@);
                    Preferences { enabled: saved.enabled, preset_name: saved.preset_name, device_name }
                },
                None => saved,
            }
        },
    }
}

} // verus!
