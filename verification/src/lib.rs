//! Staking and pool-economics engine for a multi-subnet network.
//!
//! The library keeps, per subnet, a constant-product liquidity pool that
//! prices the network's native asset (tao) against the subnet token (alpha),
//! a fractional-ownership share ledger per hotkey, an exponential moving
//! average of the pool's spot price, a stake-inheritance calculator over
//! parent/child delegation edges, pre-mutation validation checks, and a
//! deterministic scheduler for staking jobs deferred by one block.
//!
//! All arithmetic is fixed point over integer bit patterns and saturates
//! instead of trapping, so that replaying the same block always produces
//! bit-identical state.

pub mod fixed;
pub mod inherit;
pub mod pallet;
pub mod price;
pub mod scheduler;
pub mod share_pool;
pub mod store;
pub mod swap;
pub mod validate;
