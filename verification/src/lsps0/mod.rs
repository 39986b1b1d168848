//! What the LSPS protocols have in common: request identifiers, error
//! responses and the envelope of an outbound message.
pub mod msgs;
