//! A packet hook for an Android Auto proxy.
//!
//! The hook watches the packets that pass between the phone and the head unit. A long press of
//! one steering wheel button brings back the car's native screen; a short press keeps its usual
//! meaning; everything else passes through.

pub mod behaviour;
pub mod component;
pub mod encoding;
pub mod focus;
pub mod input;
pub mod messages;
pub mod packet;
pub mod promises;
pub mod reading;
pub mod session;
pub mod wire;
