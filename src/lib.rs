pub mod addressing;
pub mod client;
pub mod client_handler;
pub mod config;
pub mod crypto;
pub mod cursor;
pub mod datatypes;
pub mod minecraft;
pub mod packet_codec;
pub mod process_socket;
pub mod proxy;
pub mod proxy_handler;
pub mod register;
pub mod responses;
pub mod socket_packet;
pub mod text;
pub mod updater_proto;
