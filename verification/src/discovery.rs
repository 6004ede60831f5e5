//! The choice of devices among those that an enumeration found: by exact
//! name, by a regular expression on the name, or by a predicate.
//!
//! The caller enumerates, describes each device as an `EventDevice`, and
//! gets back positions in its own list.
use crate::event_device::EventDevice;
use crate::text::same_text;
use vstd::prelude::*;

verus! {

/// Why no device was chosen.
#[derive(Clone, Copy, Debug, PartialEq, Eq, Structural)]
pub enum DeviceError {
    /// No device answers the description.
    NotFound,
    /// The regular expression was not accepted.
    InvalidPattern,
}

#[verifier::external_type_specification]
#[verifier::external_body]
pub struct ExRegexError(regex::Error);

/// Whether the regex crate accepts `pattern` as a regular expression: what
/// `regex::Regex::new` decides.
pub uninterp spec fn pattern_compiles(pattern: Seq<char>) -> bool;

/// Whether the regular expression `pattern` has a match anywhere in
/// `text`: what `regex::Regex::is_match` returns.
pub uninterp spec fn pattern_matches(pattern: Seq<char>, text: Seq<char>) -> bool;

/// Compiles `pattern` with `regex::Regex::new` and, where that succeeds,
/// searches `text` with `regex::Regex::is_match`. The error is the one that
/// compiling gave. Both outcomes depend on the two texts alone, and the
/// contract gives them their names without saying more of them.
#[verifier::external_body]
fn search(pattern: &str, text: &str) -> (found: Result<bool, regex::Error>)
    ensures
        found is Ok <==> pattern_compiles(pattern@),
        found matches Ok(matched) ==> matched == pattern_matches(pattern@, text@),
{
    match regex::Regex::new(pattern) {
        Ok(compiled) => Ok(compiled.is_match(text)),
        Err(e) => Err(e),
    }
}

/// `list` holds, in ascending order, exactly the positions that are
/// marked.
pub open spec fn selects(list: Seq<usize>, marked: Seq<bool>) -> bool {
    &&& forall|a: int, b: int| 0 <= a < b < list.len() ==> list[a] < list[b]
    &&& forall|k: int| 0 <= k < list.len() ==> list[k] < marked.len() && marked[list[k] as int]
    &&& forall|i: int| 0 <= i < marked.len() && marked[i] ==> list.contains(i as usize)
}

impl DeviceError {
    pub fn message(&self) -> (text: &'static str)
        ensures
            text@ == match *self {
                DeviceError::NotFound => "Device not found"@,
                DeviceError::InvalidPattern => "Invalid device name pattern"@,
            },
    {
        match self {
            DeviceError::NotFound => "Device not found",
            DeviceError::InvalidPattern => "Invalid device name pattern",
        }
    }
}

/// The first device whose name is exactly `name`. A device without a name
/// counts as named by the empty text.
pub fn get_device_by_name(devices: &Vec<EventDevice>, name: &str) -> (found: Result<
    usize,
    DeviceError,
>)
    ensures
        match found {
            Ok(at) => at < devices@.len() && devices@[at as int].name_text() == name@ && forall|
                j: int,
            | 0 <= j < at ==> devices@[j].name_text() != name@,
            Err(e) => e == DeviceError::NotFound && forall|i: int|
                0 <= i < devices@.len() ==> devices@[i].name_text() != name@,
        },
{
    let mut i: usize = 0;
    while i < devices.len()
        invariant
            i <= devices@.len(),
            forall|j: int| 0 <= j < i ==> devices@[j].name_text() != name@,
        decreases devices@.len() - i,
    {
        if same_text(devices[i].name_or_empty(), name) {
            return Ok(i);
        }
        i += 1;
    }
    Err(DeviceError::NotFound)
}

/// The positions that are marked, in ascending order.
pub fn marked_positions(marked: &Vec<bool>) -> (list: Vec<usize>)
    ensures
        selects(list@, marked@),
{
    let mut list: Vec<usize> = Vec::new();
    let mut i: usize = 0;
    while i < marked.len()
        invariant
            i <= marked@.len(),
            forall|a: int, b: int| 0 <= a < b < list@.len() ==> list@[a] < list@[b],
            forall|k: int| 0 <= k < list@.len() ==> list@[k] < i && marked@[list@[k] as int],
            forall|j: int| 0 <= j < i && marked@[j] ==> list@.contains(j as usize),
        decreases marked@.len() - i,
    {
        if marked[i] {
            let ghost before = list@;
            list.push(i);
            assert forall|j: int| 0 <= j < i + 1 && marked@[j] implies list@.contains(
                j as usize,
            ) by {
                if j < i {
                    let k = choose|k: int| 0 <= k < before.len() && before[k] == j as usize;
                    assert(list@[k] == j as usize);
                } else {
                    assert(list@[list@.len() - 1] == j as usize);
                }
            }
        }
        i += 1;
    }
    list
}

/// Every device whose name the regular expression `regex` matches
/// somewhere, in the order of `devices`. A device without a name counts as
/// named by the empty text. Fails if and only if the pattern does not
/// compile.
pub fn get_devices_by_regex(devices: &Vec<EventDevice>, regex: &str) -> (found: Result<
    Vec<usize>,
    DeviceError,
>)
    ensures
        found is Ok <==> pattern_compiles(regex@),
        found matches Err(e) ==> e == DeviceError::InvalidPattern,
        found matches Ok(list) ==> selects(
            list@,
            Seq::new(devices@.len(), |i: int| pattern_matches(regex@, devices@[i].name_text())),
        ),
{
    proof {
        reveal_strlit("");
    }
    match search(regex, "") {
        Ok(_) => {},
        Err(_) => {
            return Err(DeviceError::InvalidPattern);
        },
    }
    let mut marked: Vec<bool> = Vec::new();
    let mut i: usize = 0;
    while i < devices.len()
        invariant
            i <= devices@.len(),
            pattern_compiles(regex@),
            marked@.len() == i,
            forall|j: int|
                0 <= j < i ==> marked@[j] == pattern_matches(regex@, devices@[j].name_text()),
        decreases devices@.len() - i,
    {
        match search(regex, devices[i].name_or_empty()) {
            Ok(matched) => {
                marked.push(matched);
            },
            Err(_) => {
                return Err(DeviceError::InvalidPattern);
            },
        }
        i += 1;
    }
    assert(marked@ =~= Seq::new(
        devices@.len(),
        |i: int| pattern_matches(regex@, devices@[i].name_text()),
    ));
    Ok(marked_positions(&marked))
}

/// The first device of which `predicate` says yes. The predicate is asked
/// about the devices in order and no further than the first yes.
pub fn get_device_by_predicate<F: Fn(&EventDevice) -> bool>(
    devices: &Vec<EventDevice>,
    predicate: F,
) -> (found: Result<usize, DeviceError>)
    requires
        forall|i: int| 0 <= i < devices@.len() ==> call_requires(predicate, (&devices@[i],)),
    ensures
        match found {
            Ok(at) => at < devices@.len() && call_ensures(
                predicate,
                (&devices@[at as int],),
                true,
            ) && forall|j: int| 0 <= j < at ==> call_ensures(predicate, (&devices@[j],), false),
            Err(e) => e == DeviceError::NotFound && forall|i: int|
                0 <= i < devices@.len() ==> call_ensures(predicate, (&devices@[i],), false),
        },
{
    let mut i: usize = 0;
    while i < devices.len()
        invariant
            i <= devices@.len(),
            forall|j: int| 0 <= j < devices@.len() ==> call_requires(predicate, (&devices@[j],)),
            forall|j: int| 0 <= j < i ==> call_ensures(predicate, (&devices@[j],), false),
        decreases devices@.len() - i,
    {
        if predicate(&devices[i]) {
            return Ok(i);
        }
        i += 1;
    }
    Err(DeviceError::NotFound)
}

/// The properties of a device followed by the kinds of event it supports.
pub fn get_combined_properties(device: &EventDevice) -> (combined: Vec<String>)
    ensures
        combined@ == device.properties@ + device.supported_events@,
{
    let mut combined: Vec<String> = Vec::new();
    let mut i: usize = 0;
    while i < device.properties.len()
        invariant
            i <= device.properties@.len(),
            combined@ == device.properties@.take(i as int),
        decreases device.properties@.len() - i,
    {
        combined.push(device.properties[i].clone());
        assert(device.properties@.take(i + 1) == device.properties@.take(i as int).push(
            device.properties@[i as int],
        ));
        i += 1;
    }
    assert(device.properties@.take(i as int) == device.properties@);
    let mut j: usize = 0;
    while j < device.supported_events.len()
        invariant
            j <= device.supported_events@.len(),
            combined@ == device.properties@ + device.supported_events@.take(j as int),
        decreases device.supported_events@.len() - j,
    {
        combined.push(device.supported_events[j].clone());
        assert(device.supported_events@.take(j + 1) == device.supported_events@.take(
            j as int,
        ).push(device.supported_events@[j as int]));
        j += 1;
    }
    assert(device.supported_events@.take(j as int) == device.supported_events@);
    combined
}

} // verus!
