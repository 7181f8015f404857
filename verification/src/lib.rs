pub mod capture;
pub mod clock;
pub mod codec;
pub mod error;
pub mod export;
pub mod model;
pub mod proxy;
pub mod replay;
pub mod rules;
pub mod security;
pub mod store;
pub mod text;
pub mod wire;
