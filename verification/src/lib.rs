pub mod binop32;
pub mod error;
pub mod function;
pub mod interaction;
pub mod machine;
pub mod matrix;
pub mod padding;
pub mod record;
