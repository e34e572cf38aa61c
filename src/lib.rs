//! Wire codec for routed messages: addresses, routes, a variable-width
//! 16-bit integer and the message frame, each with a proved encoder and a
//! proved, non-panicking decoder.
use vstd::prelude::*;

pub mod address;
pub mod bytes;
pub mod codec;
pub mod message;
pub mod route;
pub mod varuint;

pub use address::{Address, AddressType, HostAddressType, IpHostAddress, LocalAddress};
pub use codec::{Codec, CodecError};
pub use message::{BodyError, Message, WireProtocolVersion, WIRE_PROTOCOL_VERSION};
pub use route::{Route, ROUTE_CAPACITY};
pub use varuint::VARUINT_LIMIT;

verus! {

} // verus!
