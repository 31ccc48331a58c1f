//! A session as the user sees it: chat, files, and how fast the video runs.
//!
//! No sockets and no waiting here. What is hard about chat and files is who waits for whom: an
//! offer may be turned down, taken, cut off halfway, or carry a number that the other end used.

pub mod chat;
pub mod rate;
pub mod transfer;
