pub mod text;
pub mod rows;
pub mod predicate;
pub mod table;
pub mod query;
pub mod procfs;
