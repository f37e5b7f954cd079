pub mod ast;
pub mod server;
pub mod text;
