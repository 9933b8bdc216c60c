//! Building blocks for name-service resolver plugins: a bump allocator over a
//! caller-supplied scratch buffer, an encoder that lays a host entry out in
//! that buffer in the host runtime's record format, and the status/error
//! model that reports outcomes through the two error channels.

pub mod sys;
pub mod errors;
pub mod words;
pub mod arena;
pub mod interfaces;
pub mod glue;
pub mod readback;
pub mod retry;

pub use errors::{Error, ErrorParts, HostError, NssStatus, Report, NETDB_INTERNAL};
pub use arena::{ArenaView, BumpAllocator, ByteOrder};
pub use interfaces::{AddressFamily, HostAddressList, HostEntry, IpAddress, NameService};
pub use glue::{HostRecord, LookupReply};
