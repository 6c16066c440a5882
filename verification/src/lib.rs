pub mod calendar;
pub mod digest;
pub mod document;
pub mod error;
pub mod heading;
pub mod keyword;
pub mod lines;
pub mod order;
pub mod pattern;
pub mod report;
pub mod section;
pub mod text;
