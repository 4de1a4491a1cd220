//! Python binding generation for a component interface: the type-marshaling
//! rules, the buffer codec they rely on, and the emitter that puts them together.

pub mod buffer;
pub mod codec;
pub mod constructs;
pub mod emitter;
pub mod error;
pub mod interface;
pub mod marshal;
pub mod resolve;
pub mod type_mapper;
