pub mod cdt;
pub mod token;
