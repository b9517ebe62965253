pub mod eps;
pub mod pdf;
pub mod svg;
