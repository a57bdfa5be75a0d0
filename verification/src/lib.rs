pub mod bytes;
pub mod game_state;
pub mod messages;
pub mod ws_frame;
pub mod ws_messages;
pub mod server;
pub mod handshake;
