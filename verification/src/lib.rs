pub mod chess;
pub mod search;
pub mod text;
pub mod uci;
