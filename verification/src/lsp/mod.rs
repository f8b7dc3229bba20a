pub mod completion;
pub mod documents;
pub mod framing;
pub mod handlers;
pub mod position;
pub mod structs;
