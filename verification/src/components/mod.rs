pub mod chat;
pub mod tree;
