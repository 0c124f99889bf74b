//! Conversion of JPK_V7(1) / JPK_V7(2) tax documents to the JPK_V7(3) layout.
//!
//! The library works on a stream of XML events of its own ([`event::XmlEvent`]);
//! reading and writing the bytes of the document is left to the caller.
pub mod form;
pub mod text;
pub mod names;
pub mod event;
pub mod group;
pub mod row;
pub mod mapped;
pub mod header;
pub mod subject;
pub mod control;
pub mod root;
pub mod converter;
pub mod laws;
