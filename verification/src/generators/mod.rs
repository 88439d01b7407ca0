pub mod common;
pub mod files;
pub mod go;
pub mod grpc;
pub mod rpc;
pub mod rust;
