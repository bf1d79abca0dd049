//! Items shared by the driver and the plugins: the bit masks with which a
//! plugin describes the features, hooks and filters it uses, and the loaded
//! plugin record.

pub mod feature;
pub mod filter;
pub mod hook;
pub mod plugin;
