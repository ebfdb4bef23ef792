//! Wire-format codec for IPv4 and TCP headers: structured header values,
//! byte-exact big-endian encoding and decoding, and the Internet checksum
//! (RFC 1071) applied to the IPv4 header and, via the pseudo-header, to a
//! whole TCP segment.

pub mod big_endian;
pub mod checksum;
pub mod internet_protocol;
pub mod transmission_control_protocol;
