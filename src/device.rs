//! Output devices and the resolution of a requested device name.
use vstd::prelude::*;

verus! {

/// An output device as the platform audio subsystem enumerates it.
pub struct DeviceDescriptor {
    pub name: String,
    pub is_default: bool,
}

/// Why a requested output device could not be resolved.
#[derive(Clone, Copy, Debug, PartialEq, Eq, Structural)]
pub enum DeviceError {
    /// No enumerated device carries the requested name (or, with no name
    /// given, none is the default).
    DeviceUnavailable,
    /// The platform audio subsystem could not be queried.
    DeviceEnumerationFailed,
}

/// The lower-case form of a string, as Rust's `str::to_lowercase` gives it.
pub uninterp spec fn lower_of(s: Seq<char>) -> Seq<char>;

/// Relies on `str::to_lowercase`: its result depends on the characters of the
/// input alone.
#[verifier::external_body]
fn lowercase(s: &str) -> (r: String)
    ensures
        r@ == lower_of(s@),
{
    s.to_lowercase()
}

impl DeviceDescriptor {
    /// A copy of this descriptor.
    pub fn duplicate(&self) -> (r: DeviceDescriptor)
        ensures
            r.name@ == self.name@,
            r.is_default == self.is_default,
    {
        DeviceDescriptor { name: self.name.clone(), is_default: self.is_default }
    }
}

/// `i` is the first position of `names` that holds `wanted`.
pub open spec fn first_equal(names: Seq<Seq<char>>, wanted: Seq<char>, i: int) -> bool {
    &&& 0 <= i < names.len()
    &&& names[i] == wanted
    &&& forall|k: int| 0 <= k < i ==> #[trigger] names[k] != wanted
}

/// The views of a sequence of strings.
pub open spec fn string_views(v: Seq<String>) -> Seq<Seq<char>> {
    v.map_values(|s: String| s@)
}

/// The lower-case names of a sequence of devices.
pub open spec fn folded_names(d: Seq<DeviceDescriptor>) -> Seq<Seq<char>> {
    d.map_values(|x: DeviceDescriptor| lower_of(x.name@))
}

/// `i` is the first default device of `d`.
pub open spec fn first_default(d: Seq<DeviceDescriptor>, i: int) -> bool {
    &&& 0 <= i < d.len()
    &&& d[i].is_default
    &&& forall|k: int| 0 <= k < i ==> !(#[trigger] d[k].is_default)
}

/// Position of the first name equal to `wanted`; names are compared as given,
/// so a caller that wants a case-insensitive match hands in folded names.
pub fn first_match(wanted: &String, names: &Vec<String>) -> (r: Option<usize>)
    ensures
        match r {
            Some(i) => first_equal(string_views(names@), wanted@, i as int),
            None => forall|k: int| 0 <= k < names@.len() ==> #[trigger] names@[k]@ != wanted@,
        },
{
    let ghost v = string_views(names@);
    let mut i: usize = 0;
    while i < names.len()
        invariant
            i <= names@.len(),
            v == string_views(names@),
            forall|k: int| 0 <= k < i ==> #[trigger] names@[k]@ != wanted@,
        decreases names@.len() - i,
    {
        if names[i].eq(wanted) {
            proof {
                assert forall|k: int| 0 <= k < i implies #[trigger] v[k] != wanted@ by {
                    assert(v[k] == names@[k]@);
                }
            }
            return Some(i);
        }
        i = i + 1;
    }
    None
}

/// Position of the first default device, if any.
pub fn find_default(devices: &Vec<DeviceDescriptor>) -> (r: Option<usize>)
    ensures
        match r {
            Some(i) => first_default(devices@, i as int),
            None => forall|k: int| 0 <= k < devices@.len() ==> !(#[trigger] devices@[k].is_default),
        },
{
    let mut i: usize = 0;
    while i < devices.len()
        invariant
            i <= devices@.len(),
            forall|k: int| 0 <= k < i ==> !(#[trigger] devices@[k].is_default),
        decreases devices@.len() - i,
    {
        if devices[i].is_default {
            return Some(i);
        }
        i = i + 1;
    }
    None
}

/// Resolves the device to open: the first device whose name equals
/// `wanted` ignoring case, or, with no name, the first default device.
/// `devices` is `None` when enumeration failed.
pub fn resolve_device(devices: Option<&Vec<DeviceDescriptor>>, wanted: Option<&String>) -> (r:
    Result<usize, DeviceError>)
    ensures
        match devices {
            None => r matches Err(DeviceError::DeviceEnumerationFailed),
            Some(d) => match wanted {
                Some(w) => match r {
                    Ok(i) => first_equal(folded_names(d@), lower_of(w@), i as int),
                    Err(e) => e == DeviceError::DeviceUnavailable && forall|k: int|
                        0 <= k < d@.len() ==> #[trigger] lower_of(d@[k].name@) != lower_of(w@),
                },
                None => match r {
                    Ok(i) => first_default(d@, i as int),
                    Err(e) => e == DeviceError::DeviceUnavailable && forall|k: int|
                        0 <= k < d@.len() ==> !(#[trigger] d@[k].is_default),
                },
            },
        },
{
    match devices {
        None => Err(DeviceError::DeviceEnumerationFailed),
        Some(d) => match wanted {
            None => match find_default(d) {
                Some(i) => Ok(i),
                None => Err(DeviceError::DeviceUnavailable),
            },
            Some(w) => {
                let folded_wanted = lowercase(w.as_str());
                let mut names: Vec<String> = Vec::new();
                let mut i: usize = 0;
                while i < d.len()
                    invariant
                        i <= d@.len(),
                        names@.len() == i,
                        forall|k: int| 0 <= k < i ==> #[trigger] names@[k]@ == lower_of(d@[k].name@),
                    decreases d@.len() - i,
                {
                    names.push(lowercase(d[i].name.as_str()));
                    i = i + 1;
                }
                let ghost f = folded_names(d@);
                proof {
                    assert(string_views(names@) =~= f);
                }
                match first_match(&folded_wanted, &names) {
                    Some(i) => Ok(i),
                    None => {
                        proof {
                            assert forall|k: int| 0 <= k < d@.len() implies #[trigger] lower_of(
                                d@[k].name@,
                            ) != lower_of(w@) by {
                                assert(names@[k]@ == lower_of(d@[k].name@));
                            }
                        }
                        Err(DeviceError::DeviceUnavailable)
                    },
                }
            },
        },
    }
}

} // verus!
