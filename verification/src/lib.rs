pub mod collectors;
pub mod db;
pub mod error;
pub mod model;
pub mod output;
pub mod platform;
pub mod sensors;
pub mod sort;
pub mod strmap;
pub mod text;
