pub mod grid;
pub mod panels;
