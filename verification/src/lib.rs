//! Command-line and file-format logic of a small video trimmer: FFmpeg filter
//! graphs for the VHS and radio effects, subtitle (SRT) remapping and
//! rendering, export planning, screen-recording state, and WAV sample decoding.
//! Times are integer milliseconds, effect parameters are exact decimal
//! fixed-point values (printed as the floating-point evaluation of their
//! formulas prints them, see `ties`), and a dubbed track's volume is given
//! by the bits of its floating-point value, so every string the library
//! produces is specified exactly.

mod text;
pub mod ties;
pub mod vhs;
pub mod radio;
pub mod paths;
pub mod timeline;
pub mod export;
pub mod plan;
pub mod probe;
pub mod capture;
pub mod recording;
pub mod mic;
