pub mod cli;
pub mod deep;
pub mod format;
pub mod generators;
pub mod ir;
pub mod paths;
pub mod resolve;
pub mod sorted;
pub mod text;
