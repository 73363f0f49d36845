//! Driving a colour lamp over a lossy radio link: gamut geometry on the lamp's
//! own chromaticity grid, the encoders for its protocol values, and the
//! connection state machine that delivers them.

pub mod color;
pub mod fraction;
pub mod gamut;
pub mod gamut_laws;
pub mod gatt_laws;
pub mod gatt_manipulator;
pub mod lamp;
pub mod wallpaper;
