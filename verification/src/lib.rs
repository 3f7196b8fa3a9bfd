pub mod attributes;
pub mod bounds;
pub mod de;
pub mod fields;
pub mod item;
pub mod laws;
pub mod literal;
pub mod ser;
pub mod syntax;
pub mod text;
pub mod token;
pub mod traversal;
pub mod utils;
