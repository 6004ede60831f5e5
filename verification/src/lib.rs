//! Decision logic for an input-event interceptor: modifier tracking,
//! key-repeat emulation and remote-control remapping.
//!
//! Everything here works on plain values. The program around this library
//! reads raw events from the capture devices, hands them to the state
//! machines below, and performs the actions they return (spawning or
//! aborting repeat timers, sending events to the virtual output device).
pub mod auto_repeat;
pub mod capture;
pub mod codes;
pub mod discovery;
pub mod event;
pub mod event_device;
pub mod hotkeys;
pub mod key_event_type;
pub mod modifiers;
pub mod remap;
pub mod remote;
pub mod repeat_proofs;
pub mod repeat_timer;
pub mod supervisor;
pub mod text;
pub mod virtual_device;
