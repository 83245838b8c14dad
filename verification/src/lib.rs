//! Score selection and layout for a fixed-format leaderboard card.
//!
//! A card shows up to seven plays on one beatmap, one row for each: avatar,
//! user name, modifiers, score with combo, accuracy, date, grade and judgment
//! counts. This crate chooses the rows and lays the card out; it draws
//! nothing itself. The result is a list of drawing operations with integer
//! positions, which a raster backend replays.
//!
//! - [`mods`] reads modifier acronyms as sets and filters scores by them.
//! - [`selection`] applies a requested filter and the row cap.
//! - [`layout`] holds the geometry of the rows.
//! - [`format`] writes the texts of a row.
//! - [`canvas`] defines the drawing operations.
//! - [`generate_lb`] composes the card.
//! - [`command`] and [`replies`] read chat messages and word the answers.
//! - [`osu_api`] and [`database`] hold the records that the other modules
//!   work on.
//! - [`text`] holds the text primitives underneath.

pub mod canvas;
pub mod command;
pub mod database;
pub mod format;
pub mod generate_lb;
pub mod layout;
pub mod mods;
pub mod osu_api;
pub mod replies;
pub mod selection;
pub mod text;
