//! Generates the hardware configuration of a NixOS system.
//!
//! The library performs no I/O. What depends on the machine takes the
//! [`host::Facts`] gathered so far and either gives a result or names the
//! [`host::Probe`] whose answer is missing; the caller performs the probe,
//! records the answer and calls again. [`knowledge`] proves that this gives the
//! result that a look at the whole machine would.
//!
//! [`generate`] leads from the arguments to the files that are written. It rests
//! on [`config_file`] for the defaults, on [`scan`] for the hardware, on
//! [`mount`] and [`mountinfo`] for the file systems and on [`atomic`] for the
//! way a file is replaced; what the user is told of on the way is a [`warning`].
//! [`disk`] proves what a plan does to the files. [`monitor`] runs a build while
//! its progress is drawn.
//!
//! What the results promise, told from the answers of the machine and from the
//! arguments, is proved in [`plan_laws`], [`config_laws`], [`scan_laws`],
//! [`mount_laws`], [`device_laws`], [`monitor_laws`] and [`text_laws`].
#![allow(unused_imports)]

pub mod args;
pub mod atomic;
pub mod bytes;
pub mod config_file;
pub mod config_laws;
pub mod device;
pub mod device_laws;
pub mod disk;
pub mod error;
pub mod generate;
pub mod host;
pub mod knowledge;
pub mod monitor;
pub mod monitor_laws;
pub mod mount;
pub mod mount_laws;
pub mod mountinfo;
pub mod order;
pub mod path;
pub mod plan_laws;
pub mod scan;
pub mod scan_laws;
pub mod template;
pub mod text;
pub mod text_laws;
pub mod warning;
