//! The one-shot commands of the command line, each reporting its
//! result in the chosen output format.

pub mod regen_map;
pub mod reload;
pub mod spawn;
pub mod tp;
