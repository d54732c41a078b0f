pub mod decimal;
pub mod time_range;
