//! A virtual compute device for a tensor runtime's pluggable-device interface.
//!
//! The crate holds what the plugin decides, as verified functions on plain
//! values. Calls across the host boundary are not made here: where a
//! decision rests on what the host answers, the library names the request,
//! takes the answer as a value and says what follows from it.
//!
//! - [`status`]: the host's status convention, and the contract violations.
//! - [`layout`]: addresses in a four-dimensional tensor under any axis order.
//! - [`registry`]: the description of a kernel and its registration.
//! - [`lifecycle`]: the life of a kernel instance.
//! - [`attr`]: reading a string attribute of a kernel.
//! - [`context`]: what a kernel and its per-call context say to each other.
//! - [`kernels`]: BiasAdd and Relu.
//! - [`device`]: the device backend.
//! - [`text`], [`find`]: names that end with a NUL, and first occurrences.
pub mod attr;
pub mod context;
pub mod device;
pub mod find;
pub mod kernels;
pub mod layout;
pub mod lifecycle;
pub mod registry;
pub mod status;
pub mod text;
