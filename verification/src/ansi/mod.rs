//! ANSI-coloured game text: SGR codes, styles and styled lines.

pub mod block;
pub mod effect;
pub mod line;
pub mod palette;
pub mod segment;
pub mod sgr;
pub mod style;
