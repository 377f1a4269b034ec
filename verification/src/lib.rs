//! Control core of a terminal tag editor: cursor arithmetic, key-to-action
//! resolution, the popup dialogs, the directory browser model and the batch
//! tag-editing model, each with a machine-checked contract.

pub mod actions;
pub mod frame_data;
pub mod logger;
pub mod order;
pub mod popups;
pub mod rename;
pub mod seqs;
pub mod state;
pub mod tag;
pub mod text;
pub mod theme;
pub mod util;
