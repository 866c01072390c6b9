pub mod cli;
pub mod decimal;
pub mod paths;
pub mod text;
pub mod pdf;
pub mod raster;
pub mod imposition;
pub mod tiling;
