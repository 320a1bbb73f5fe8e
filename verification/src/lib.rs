//! A verified model of a GPU texture-array driver probe.
//!
//! Certain mobile GPU drivers mishandle texture-array layer addressing:
//! a staged-buffer upload aimed at layer 1 lands in layer 0, or a
//! framebuffer blit aimed at one layer spills into the layers above it.
//! This crate models the three probe procedures that detect those bugs.
//! Each probe builds solid-color fixtures, runs one device operation,
//! reads a single pixel back, and reports pass or fail; every resource a
//! probe creates is released before it returns, on both outcomes.
//!
//! The device itself is a verified in-memory model whose behavior is
//! selectable: architecturally correct, or one of the known driver bugs.
//! The probes are proved to pass exactly when the device does not have
//! the bug they look for.

pub mod device;
pub mod fixture;
pub mod pixel;
pub mod probes;
