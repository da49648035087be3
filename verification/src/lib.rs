//! Native primitives offered to a host runtime across a foreign-function
//! boundary.
//!
//! Every primitive is stateless. What computes lives here and carries a
//! contract; reading from the operating system and writing to the console is
//! left to the adapter that exports the primitives to the host.

pub mod cpus;
pub mod listing;
pub mod number;
pub mod text;

pub use cpus::get_num_cpus;
pub use number::plus_100;
pub use text::greet;
