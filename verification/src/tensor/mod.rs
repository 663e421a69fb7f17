//! Tensors of the backend: what the library says of them, and the operations
//! on them that it uses.

pub mod arithmetic;
pub mod facts;
pub mod join;
pub mod layers;
pub mod layout;
pub mod make;
pub mod norms;
pub mod ranks;
pub mod scaled;
pub mod select;
pub mod share;
pub mod value;
