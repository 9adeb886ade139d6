pub mod clearing;
pub mod gameboard;
pub mod piece;
pub mod piece_factory;
pub mod piece_provider;
pub mod session;
