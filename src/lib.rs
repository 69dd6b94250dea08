pub mod cursor;
pub mod database;
pub mod decode;
pub mod error;
pub mod http;
pub mod pipeline;
pub mod publish;
pub mod spider;
pub mod text;
pub mod wayback_machine;
