pub mod calendar;
pub mod cli;
pub mod conf;
pub mod convert;
pub mod inject;
pub mod json;
pub mod option;
pub mod release;
pub mod text;
pub mod usage;
pub mod value;
