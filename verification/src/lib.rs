//! Gerber (RS-274X) and Excellon drill parsing for design-for-manufacturing previews.
//!
//! The library decides what a fabrication file means: its layer, its commands, the graphics
//! state they set and the drawing steps they ask for. Coordinates are kept as exact digits and
//! powers of ten; turning them into millimetres is left to the caller.
pub mod analysis;
pub mod drill;
pub mod gerber;
pub mod gerber_laws;
pub mod gerber_machine;
pub mod gerber_modes;
pub mod layer;
pub mod number;
pub mod text;
