pub mod codec;
pub mod fish;
pub mod json;
pub mod preset;
pub mod settings;
pub mod shell;
pub mod state;
pub mod text;
pub mod turns;
pub mod xunfei;
