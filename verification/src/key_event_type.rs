//! The meaning of the `value` field of a key event.
use vstd::prelude::*;

verus! {

/// What a key event's value says about the key.
#[allow(non_camel_case_types)]
#[derive(Clone, Copy, Debug)]
pub enum KeyEventType {
    RELEASED,
    PRESSED,
    REPEAT,
    UNKNOWN(i32),
}

impl KeyEventType {
    /// The variant that stands for a raw value.
    pub open spec fn of(value: i32) -> Self {
        if value == 0 {
            KeyEventType::RELEASED
        } else if value == 1 {
            KeyEventType::PRESSED
        } else if value == 2 {
            KeyEventType::REPEAT
        } else {
            KeyEventType::UNKNOWN(value)
        }
    }

    /// The raw value that a variant stands for.
    pub open spec fn raw(self) -> i32 {
        match self {
            KeyEventType::RELEASED => 0,
            KeyEventType::PRESSED => 1,
            KeyEventType::REPEAT => 2,
            KeyEventType::UNKNOWN(n) => n,
        }
    }

    /// No named variant is hidden inside `UNKNOWN`.
    pub open spec fn canonical(self) -> bool {
        self matches KeyEventType::UNKNOWN(n) ==> !(0 <= n <= 2)
    }

    pub fn from_value(value: i32) -> (kind: Self)
        ensures
            kind == Self::of(value),
            kind.raw() == value,
            kind.canonical(),
    {
        match value {
            0 => KeyEventType::RELEASED,
            1 => KeyEventType::PRESSED,
            2 => KeyEventType::REPEAT,
            _ => KeyEventType::UNKNOWN(value),
        }
    }

    pub fn value(&self) -> (value: i32)
        ensures
            value == self.raw(),
            self.canonical() ==> Self::of(value) == *self,
    {
        match self {
            Self::RELEASED => 0,
            Self::PRESSED => 1,
            Self::REPEAT => 2,
            Self::UNKNOWN(n) => *n,
        }
    }
}

impl PartialEq<i32> for KeyEventType {
    fn eq(&self, other: &i32) -> (r: bool) {
        self.value() == *other
    }
}

impl vstd::std_specs::cmp::PartialEqSpecImpl<i32> for KeyEventType {
    open spec fn obeys_eq_spec() -> bool {
        true
    }

    open spec fn eq_spec(&self, other: &i32) -> bool {
        self.raw() == *other
    }
}

impl PartialEq<KeyEventType> for i32 {
    fn eq(&self, other: &KeyEventType) -> (r: bool) {
        *self == other.value()
    }
}

impl vstd::std_specs::cmp::PartialEqSpecImpl<KeyEventType> for i32 {
    open spec fn obeys_eq_spec() -> bool {
        true
    }

    open spec fn eq_spec(&self, other: &KeyEventType) -> bool {
        *self == other.raw()
    }
}

impl From<KeyEventType> for i32 {
    fn from(kind: KeyEventType) -> (value: i32) {
        kind.value()
    }
}

impl vstd::std_specs::convert::FromSpecImpl<KeyEventType> for i32 {
    open spec fn obeys_from_spec() -> bool {
        true
    }

    open spec fn from_spec(kind: KeyEventType) -> i32 {
        kind.raw()
    }
}

} // verus!
