//! Verified core of a USB HID self-rebootor.
//!
//! A small firmware exposes a HID endpoint whose only job is to receive a
//! fixed command from the host and reboot the device into its bootloader.
//! This crate holds the decision logic of that firmware: the command
//! matcher, the configuration state machine that tracks USB enumeration and
//! fires the one-time bus configure action on each entry edge, and the
//! descriptor constants.  The hardware driver around it performs the USB
//! transactions and the final reboot trap, asking this crate what to do at
//! each poll step.

pub mod channel;
pub mod command;
pub mod config;
