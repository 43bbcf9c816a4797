//! Andremul core: the decisions, parsers and command builders behind a desktop
//! host that boots an Android emulator, adopts a running one, hardens it for
//! kiosk use and mirrors it with scrcpy.

pub mod text;
pub mod order;
pub mod host;
pub mod paths;
pub mod sdk;
pub mod proc;
pub mod adb;
pub mod emulator;
pub mod scrcpy;
pub mod bootstrap;
pub mod session;
