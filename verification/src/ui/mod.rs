//! The dashboard as the operator sees it.

pub mod charts;
pub mod panels;
pub mod screen;
pub mod theme;
pub mod view;
