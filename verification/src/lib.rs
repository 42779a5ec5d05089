//! Verified core of a serial measurement studio.
//!
//! The library holds the acquisition and recording pipeline: the
//! wire-format codec ([`data`]), the per-channel fan-out, the bounded
//! time-windowed history buffers ([`window`]), the connection state
//! machine that owns the serial link ([`ylab`]), the recording state
//! machines that keep the on-disk log ([`yldest`], [`ystore`]), the
//! validity rules for the display helpers ([`signal`]), and the text
//! utilities they all rest on ([`text`], [`helpers`]). Times are counts
//! of milliseconds and readings are raw integer counts; the loops that
//! do the serial and file work live outside and feed their outcomes
//! into the transition functions here.

pub mod data;
pub mod helpers;
pub mod signal;
pub mod text;
pub mod ui;
pub mod window;
pub mod ylab;
pub mod yldest;
pub mod ystore;
