//! ESTM ("external short-term memory"), a clipboard history: the rules of
//! its history store (fingerprints, duplicate suppression, labels, search
//! patterns, retention), of its preferences (picker shortcut, quick-pick
//! prefix, history limits) and of its clipboard watcher and picker window,
//! each with a contract proved by Verus.

pub mod clipboard_watch;
pub mod db;
pub mod focus_restore;
pub mod settings;
pub mod shell;
pub mod text;
