//! The steps that drive the external encoder and muxer: the command lines they
//! are given and the verdict on what they report.

pub mod concatenator;
pub mod encoder;
pub mod segmenter;
pub mod utils;
