//! A modulated multi-tap delay audio effect engine, together with the
//! recursive filter primitives it is built from: a low-frequency rotation
//! oscillator, one-pole low-pass and high-pass filters, a multi-head
//! fractional-delay ring buffer, an all-pass diffuser stage, and a
//! 2x-oversampled state-variable filter.
//!
//! All signal values are Q16 fixed-point integers (the constant
//! [`fixed::ONE`] stands for 1.0). Every arithmetic step saturates at
//! [`fixed::SAT_LIMIT`], far outside the nominal signal range, so that the
//! engine is total: no operation can overflow, and every state update is
//! pinned down exactly by its contract.

pub mod fixed;
pub mod osc;
pub mod filter;
pub mod delay;
pub mod allpass;
pub mod svf;
pub mod convert;
pub mod effect;
pub mod laws;
