//! Decoder for NetBIOS Name Service packets (RFC 1002).
//!
//! The decoder reads a raw UDP payload into a header, a list of questions and
//! three lists of resource records. It never reads past the end of the buffer
//! and reports a short buffer as `NetbiosError::Incomplete`, kept distinct from
//! malformed data.

mod error;
mod nbss_parser;
mod nbss_types;

pub use error::NetbiosError;
pub use nbss_parser::{
    parse_nbss_header, parse_nbss_packet, parse_question_body, parse_rdata, parse_resource_body,
};
pub use nbss_types::{
    EncodedName, NMFlags, NbssHeader, NbssPacket, NetbiosName, NetbiosNameType, NetbiosQuestion,
    NetbiosResource, NodeName, NodeStatistics, QType, RClass, RCode, RData, RType,
};
