//! Core logic of the lift calculator: parsing weight specs, composing share
//! cards and pages, emoji search, and fair selection among measure stores.

pub mod api;
pub mod text;
pub mod markup;
pub mod measures;
pub mod pages;
pub mod raster;
pub mod weight;
pub mod card;
pub mod emoji;
pub mod encoding;
pub mod fact_store;
pub mod forms;
pub mod interface;
pub mod tokens;
