//! Windows Imaging Component adapter for JPEG XL images: a decode session
//! with a lazily filled frame cache, frame views with stride-aware pixel
//! copies, a bounded thumbnail resizer and a read-only property store.
#![allow(non_snake_case)]

pub mod error;
pub mod format;
pub mod frame;
pub mod decoder;
pub mod thumbnail;
pub mod properties;
pub mod stream;
