pub mod go;
pub mod rust;
pub mod ts;
