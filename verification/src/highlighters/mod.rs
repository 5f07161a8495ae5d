pub mod date_dash;
pub mod date_time;
pub mod ip_v4;
pub mod ip_v6;
pub mod json;
pub mod keyword;
pub mod number;
pub mod quote;
pub mod scan;
pub mod unix_path;
pub mod unix_process;
pub mod uuid;
