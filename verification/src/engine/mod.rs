pub mod arrow_ops;
pub mod audit;
pub mod batch;
pub mod columns;
pub mod foundation;
pub mod gpu;
pub mod managed;
pub mod polars_ops;
pub mod serverless;
pub mod window;
