//! Prints the lines of a JSON viewer.
//!
//! [`lineprinter::LinePrinter`] lays out one line of the viewer: an indicator, a label (an object
//! key or an array index) and a value, which is a plain value, a brace, or a preview of a
//! container. All of it is cut to the columns that the screen has left, with an ellipsis where
//! something was cut and a `>` at the right edge where nothing could be shown at all.
pub mod columns;
pub mod flatjson;
pub mod full_preview;
pub mod identifier;
pub mod layout;
pub mod line_rules;
pub mod lineprinter;
pub mod output;
pub mod preview;
pub mod preview_rules;
pub mod text;
pub mod truncate;
pub mod truncatedstrview;
pub mod tuicontrol;
pub mod viewer;
pub mod wider_preview;
