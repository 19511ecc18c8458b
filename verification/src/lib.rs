//! FESTEJAR host library: room state, playlist store, playlist importers and
//! YouTube helpers, with their behaviour stated as Verus contracts.
pub mod external;
pub mod model;
pub mod text;
pub mod room;
pub mod store;
pub mod history;
pub mod json;
pub mod karaoke;
pub mod importer;
pub mod spotify;
pub mod youtube;
pub mod commands;
pub mod settings;
