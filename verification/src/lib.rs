//! A small in-memory model of a smart home: a home owns named rooms, each
//! room owns named devices (switchable power outlets and read-only
//! thermometers), with name-keyed lookup, controlled mutable access, and
//! deterministic sorted reporting.

pub mod registry;
pub mod smart_devices;
pub mod smart_home;
pub mod smart_room;
pub mod text;
