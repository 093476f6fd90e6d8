//! The client-side logic of a classic-era game client: the battleground and meeting-stone
//! wire formats, the outbound world-packet queue, the chat-channel and social verbs the UI
//! script engine answers, the joined-channel slot array, and the dialog verbs' state.

pub mod battlefield;
pub mod channel;
pub mod chat_cache;
pub mod chat_cache_laws;
pub mod chat_login;
pub mod chat_line;
pub mod channel_slots;
pub mod dialog;
pub mod meeting_stone;
pub mod parked;
pub mod quest_query;
pub mod script;
pub mod social;
pub mod tabard;
pub mod text;
pub mod wire;
pub mod world_writer;
