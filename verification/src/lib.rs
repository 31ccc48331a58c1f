//! Remote desktop: the rules that both ends follow.

pub mod app;
pub mod binary32;
pub mod capture;
mod clock;
pub mod codec;
pub mod input;
pub mod net;
pub mod number;
pub mod protocol;
pub mod session;
pub mod text;
