//! What holds of the library as a whole, stated over what goes in and what comes
//! out.

pub mod ranking;
pub mod registries;
pub mod replies;
pub mod scoring;
pub mod texts;
