//! Batch conversion of photographs to AVIF files that are named after the
//! moment each photograph was taken.
//!
//! The crate holds the decisions of the conversion: which capture time a file
//! has, which file name that time gives, how the pixels reach the encoder, in
//! which order the steps of one file follow each other, and how the outcomes
//! of a run add up. Reading, writing and deleting files is left to the
//! caller, who performs the actions that [`pipeline::Pipeline`] asks for.
//! Conversions may run side by side: [`shared`] shows that they keep their
//! names apart.

pub mod digits;
pub mod error;
pub mod exif;
pub mod extension;
pub mod naming;
pub mod pipeline;
pub mod report;
pub mod shared;
pub mod timestamp;
pub mod transcode;
