//! Bridges that convert between the representations used by ternary
//! subsystems: protocol messages, wire formats, memory entries and skill
//! descriptors, together with a registry of named bridges.

pub mod bridge;
pub mod codec;
pub mod error;
pub mod memory;
pub mod protocol;
pub mod registry;
pub mod skill;
pub mod ternary;
pub mod text;

pub use bridge::Bridge;
pub use codec::{CodecBridge, WireFormat};
pub use error::BridgeError;
pub use memory::{LtmEntry, MemoryBridge, StmEntry};
pub use protocol::{OracleMessage, ProtocolBridge, ProtocolMessage};
pub use registry::BridgeRegistry;
pub use skill::{RustSkill, SkillBridge, TsSkill};
pub use ternary::TernaryValue;
