//! Small runtime modules with machine-checked contracts: a kitty ownership
//! and marketplace ledger with escrow accounting, the balance book and the
//! entropy source it leans on, and a few self-contained utilities.

pub mod balances;
pub mod entropy;
pub mod erc20;
pub mod kitties;
pub mod poe;
pub mod set_sum;
pub mod traffic_light;
