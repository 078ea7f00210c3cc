//! Request middleware: every request is extracted before its handler runs,
//! and the handler's work runs inside the request span until it ends.

pub mod actix;
pub mod lifecycle;
pub mod tower;
