//! The routing matrix: channels, routes between them and virtual channels.
pub mod channel;
pub mod route;
pub mod routing_matrix;
pub mod virtual_channel;
