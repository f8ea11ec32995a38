//! Multiple-choice chemistry quizzes: compounds and their display strings, a
//! catalog that files compounds under category paths, a manifest of category
//! data files, and the engine that draws one question from a list of
//! compounds.

pub mod catalog;
pub mod catalog_manifest;
pub mod catalog_walk;
pub mod compound;
pub mod demo;
pub mod load_error;
pub mod order;
pub mod presentation;
pub mod quiz;
pub mod text;
pub mod views;

pub use catalog::{Catalog, CatalogEntry, CatalogError};
pub use catalog_manifest::{CatalogLeaf, CatalogManifest, CatalogNode};
pub use catalog_walk::{CatalogWalk, WalkAction, WalkEvent};
pub use compound::{Compound, CompoundDetailSection, FunctionalGroup};
pub use demo::{demo_catalog, demo_compounds, DEMO_OPTION_COUNT};
pub use load_error::CatalogLoadError;
pub use quiz::{generate_quiz, QuizError, QuizItem, QuizMode};
