pub mod leakage;
pub mod temporal;
