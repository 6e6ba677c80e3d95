//! Rendezvous cells: the latest value passed from producers to a consumer, without history.
mod coupler;
mod datacell;
mod triplecoupler;

pub use coupler::Coupler;
pub use datacell::DataCell;
pub use triplecoupler::TripleCoupler;
