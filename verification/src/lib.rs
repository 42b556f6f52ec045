//! Temperature and utilisation of an AMD GPU, as the Linux kernel publishes
//! them in sysfs.
//!
//! The crate holds the rules: which entry of the hardware-monitor tree and
//! which PCI device belong to the GPU, where their readings are found, and
//! how the text of a reading becomes a number. It opens no file itself. A
//! caller reads the files named here and hands over what they contain.

pub mod decimal;
pub mod discovery;
pub mod gpu;
pub mod temperature;
pub mod text;

pub use decimal::ParseError;
pub use discovery::PciDevice;
pub use gpu::{DiscoveryError, Gpu};
