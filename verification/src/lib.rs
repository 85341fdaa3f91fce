//! Decoding of tile-map documents into dense tile grids, and composition of
//! several maps into a world whose children are shown and hidden as observers move.

pub mod asset;
pub mod chunked;
pub mod chunking;
pub mod document;
pub mod entities;
pub mod events;
pub mod geometry;
pub mod layers;
pub mod loader;
pub mod loading;
pub mod materialize;
pub mod scene;
pub mod storage;
pub mod tmx;
pub mod world;
