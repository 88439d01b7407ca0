pub mod events;
pub mod main;
pub mod middleware;
pub mod remote_calls;
pub mod routes;
pub mod sockets;
pub mod types;
pub mod util;
pub mod validation;
