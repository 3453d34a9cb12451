//! Batch comparison of segmentation masks against a ground-truth folder:
//! folder-set validation, pixel-mask metrics, batch scoring with progress
//! reporting, and grouped export of selected results.

pub mod mask;
pub mod decode;
pub mod labels;
pub mod batch;
pub mod validate;
pub mod scan;
pub mod export;
