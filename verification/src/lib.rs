pub mod drop;
pub mod drop_list;
pub mod error;
pub mod run;
pub mod sim;
pub mod stats;
pub mod stream;
