//! The core of a live analog acquisition monitor.
//!
//! An acquisition loop reads fixed-size blocks of voltage samples from a
//! hardware channel, reduces each block to its mean and publishes both. A
//! presentation loop, once per display refresh, takes whatever is newest and
//! shows it. The two loops never wait for each other.
//!
//! - [`statistic`]: the reduction of a block to its mean.
//! - [`transport`]: the channel between the loops, on which the latest value
//!   wins.
//! - [`acquirer`]: what the acquisition loop does with the outcome of a read.
//! - [`presenter`]: what the presentation loop does on a refresh.
//!
//! Reading the hardware and drawing the display are left to the caller.

pub mod acquirer;
pub mod presenter;
pub mod statistic;
pub mod transport;
