pub mod levels;
pub mod text;
pub mod sorted;
pub mod value;
pub mod thresholds;
pub mod policy;
pub mod targets;
pub mod queries;
pub mod assessors;
pub mod github;
