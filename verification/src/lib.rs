//! Verified core logic of the viewview viewshed service: the DEM raster grid and its
//! neighbourhoods, the binary viewshed payload, the coordinate text format, and the
//! plans of the tile and stitch jobs.

pub mod coordinate;
pub mod grid;
pub mod jobs;
pub mod payload;
pub mod projection;
pub mod shards;
