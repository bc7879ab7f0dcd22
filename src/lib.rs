//! The state engine of a tiling window manager: monitors and their client
//! directories, window classification, tiling layouts, focus and tag
//! handling, and the reconciliation of window-system notifications.

pub mod geometry;
pub mod layout;
pub mod monitor;
pub mod cycle;
pub mod rules;
pub mod classify;
pub mod app;
pub mod commands;
pub mod reallocate;
pub mod events;
pub mod keys;
pub mod invariants;
