//! Scheduler core of a spectral path tracer.
//!
//! Images are computed by a large number of independent stochastic
//! light-transport simulations whose results flow through four stages:
//! simulate, bin, accumulate, convert to a display image.  A small,
//! fixed set of reusable buffer objects ("units") cycles between an
//! idle pool and in-flight tasks.  This crate holds the part of that
//! design worth proving: the pool bookkeeping, the task model, and the
//! priority rule that decides which unit of work an idle worker gets
//! next, together with the laws the scheduler obeys (pool
//! conservation, exclusive ownership of units, downstream-first
//! priority, and progress towards a finished image).

pub mod units;
pub mod task;
pub mod scheduler;
pub mod laws;
pub mod facade;
