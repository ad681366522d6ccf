//! Normalisation of chat-room events into renderable timeline items.

pub mod message;
pub mod profile;
pub mod reactions;
pub mod render;
pub mod room_list;
pub mod text_order;
pub mod timeline;
