pub mod batch;
pub mod pad;
pub mod padding;
pub mod pipeline;
pub mod pixels;
pub mod resize;
pub mod scan;
pub mod trim;
