pub mod bark;
