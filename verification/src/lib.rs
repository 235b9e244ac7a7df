//! S Notes core logic: keyboard shortcuts, plugin hosting, sync conflict
//! handling, export dispatch, undo history, stroke-data compression and the
//! other integer- and text-level rules of the handwriting application.

pub mod canvas;
pub mod color;
pub mod document;
pub mod export;
pub mod history;
pub mod ink;
pub mod input;
pub mod plugin;
pub mod shortcuts;
pub mod storage;
pub mod strmap;
pub mod sync;
pub mod text;
pub mod themes;
