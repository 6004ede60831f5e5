//! A physical input device as the library describes it, and the choice of
//! devices among those that an enumeration found.
use crate::text::{occurs_at, starts_with};
use vstd::prelude::*;
use vstd::string::StringExecFns;

verus! {

/// The directory in which the kernel lists event devices.
pub const INPUT_PATH: &'static str = "/dev/input/";

/// How a device is claimed when it is opened.
#[derive(Debug, PartialEq, Eq, Clone, Copy)]
pub enum LockType {
    /// The device is only listened to.
    NoLock,
    /// Exclusive delivery of all its events is requested.
    Lock,
    /// Exclusive delivery is requested for the sake of remapped keys.
    MapKeys,
}

/// One input device: who it is, how it is held, and what it can do.
#[derive(Debug, PartialEq)]
pub struct EventDevice {
    /// The name the device reports; some devices report none.
    pub name: Option<String>,
    /// The device's file name below `INPUT_PATH`.
    pub path: String,
    pub lock_type: LockType,
    /// The descriptor the device was last opened under, or -1.
    pub file_device: i32,
    /// The device's properties, by name.
    pub properties: Vec<String>,
    /// The kinds of event the device supports, by name.
    pub supported_events: Vec<String>,
    /// The codes of the keys the device has.
    pub supported_keys: Vec<u16>,
}

impl LockType {
    /// Whether opening under this lock type asks for exclusive delivery.
    pub open spec fn grabs(self) -> bool {
        self is Lock || self is MapKeys
    }
}

impl EventDevice {
    /// The name to compare by: the reported name, or the empty text for
    /// a device without one.
    pub open spec fn name_text(self) -> Seq<char> {
        match self.name {
            Some(name) => name@,
            None => Seq::empty(),
        }
    }

    /// A device that is not claimed, known by its file name, the name it
    /// reports and the descriptor it answered on.
    pub fn new(file_name: &str, name: Option<String>, fd: i32) -> (device: EventDevice)
        ensures
            device.name == name,
            device.path@ == file_name@,
            device.lock_type == LockType::NoLock,
            device.file_device == fd,
            device.properties@.len() == 0,
            device.supported_events@.len() == 0,
            device.supported_keys@.len() == 0,
    {
        EventDevice {
            name,
            path: String::from_str(file_name),
            lock_type: LockType::NoLock,
            file_device: fd,
            properties: Vec::new(),
            supported_events: Vec::new(),
            supported_keys: Vec::new(),
        }
    }

    /// Records that the device was opened under `fd` to be held as
    /// `lock_type` says. Returns whether exclusive delivery is to be
    /// requested.
    pub fn open(&mut self, lock_type: LockType, fd: i32) -> (grab: bool)
        ensures
            grab == lock_type.grabs(),
            final(self).lock_type == lock_type,
            final(self).file_device == fd,
            final(self).name == old(self).name,
            final(self).path == old(self).path,
            final(self).properties == old(self).properties,
            final(self).supported_events == old(self).supported_events,
            final(self).supported_keys == old(self).supported_keys,
    {
        let grab = match lock_type {
            LockType::NoLock => false,
            LockType::Lock => true,
            LockType::MapKeys => true,
        };
        self.lock_type = lock_type;
        self.file_device = fd;
        grab
    }

    pub fn is_open(&self) -> (open: bool)
        ensures
            open == (self.file_device != -1),
    {
        self.file_device != -1
    }

    /// Where the device's file is: `INPUT_PATH` followed by the file name.
    pub fn get_path(&self) -> (path: String)
        ensures
            path@ == INPUT_PATH@ + self.path@,
    {
        String::from_str(INPUT_PATH).concat(self.path.as_str())
    }

    /// The reported name, or the empty text.
    pub fn name_or_empty(&self) -> (name: &str)
        ensures
            name@ == self.name_text(),
    {
        match &self.name {
            Some(name) => name.as_str(),
            None => {
                proof {
                    reveal_strlit("");
                }
                ""
            },
        }
    }

    /// Whether the device has a key with this code.
    pub fn supports_key(&self, code: u16) -> (has: bool)
        ensures
            has == self.supported_keys@.contains(code),
    {
        let mut i: usize = 0;
        while i < self.supported_keys.len()
            invariant
                i <= self.supported_keys@.len(),
                forall|j: int| 0 <= j < i ==> self.supported_keys@[j] != code,
            decreases self.supported_keys@.len() - i,
        {
            if self.supported_keys[i] == code {
                return true;
            }
            i += 1;
        }
        false
    }
}

/// Whether an entry of the input directory is a device rather than one of
/// the directories of links, which begin with `by-id` and `by-path`.
pub fn is_event_device(file_name: &str) -> (device: bool)
    ensures
        device == !(occurs_at(file_name@, "by-id"@, 0) || occurs_at(file_name@, "by-path"@, 0)),
{
    !starts_with(file_name, "by-id") && !starts_with(file_name, "by-path")
}

} // verus!
