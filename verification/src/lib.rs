//! Fatty acid structure, nomenclature and lipid-quality indices.

pub mod expr;
pub mod fatty_acid;
pub mod new_fatty_acid;
pub mod series;
