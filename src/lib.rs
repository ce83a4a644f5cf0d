//! A chat client core: a line codec for an IRC-over-websocket chat service,
//! a connection state machine and a supervisor that keeps one connection alive,
//! with the parsers for what the user types.

pub mod cli_args;
pub mod codec;
pub mod command;
pub mod connection;
pub mod debounce;
pub mod style;
pub mod supervisor;
pub mod text;
pub mod user_input;
pub mod vim;

pub use cli_args::ProvidedArgs;
pub use codec::{
    decode, encode_outbound, format_user_message, format_user_message_with_tags, frame_text,
    frame_text_from, handle_websocket_message, parse_tags, tag_value, ChatMessage, DecodedEvent,
    Tag,
};
pub use command::{
    empty_arg, process_line, split_command, Command, CommandMessage, CommandType, InputLine,
};
pub use connection::{ConnectOptions, Connection};
pub use debounce::SendDebouncer;
pub use style::{color_rgb, Config, Rgb, StyleConfig};
pub use supervisor::{Message, Notice, Step, Supervisor, WsCommand};
pub use user_input::{if_empty_do, prepend_last_message, SpamGate};
pub use vim::{Key, VimState};
