//! The SA-MP query protocol: request framing, reply validation, typed payload
//! decoders and the retry decisions of a query, each with a checked contract.
//! Sockets and clocks stay with the caller, who hands the library plain bytes
//! and attempt outcomes.

pub mod client;
pub mod decode;
pub mod error;
pub mod layout;
pub mod packet;
pub mod protocol;
pub mod reader;
pub mod types;

pub use client::ClientConfig;
pub use error::{ArgumentFault, Error, ErrorResponse, ResponseFault};
pub use protocol::QueryType;
pub use types::{
    DetailedPlayer, DetailedPlayerList, IpAddress, PingInfo, Player, PlayerList, RconResponse,
    ServerAddr, ServerInfo, ServerRules,
};
