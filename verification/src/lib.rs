//! Badge rendering in the shields.io style: color resolution, a small XML
//! document model with escaping, and the three visual style strategies.

pub mod color;
pub mod xml;
pub mod strutil;
pub mod style;
