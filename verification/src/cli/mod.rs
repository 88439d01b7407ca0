pub mod dev;
pub mod doctor;
pub mod doctor_scan;
pub mod env_report;
pub mod lint;
pub mod plan;
pub mod prep;
pub mod runtime;
pub mod update;
