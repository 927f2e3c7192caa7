pub mod boot;
pub mod info;
pub mod tools;
