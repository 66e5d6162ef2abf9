//! A small generic dense-matrix library: construction, element access,
//! transpose, elementwise addition and subtraction, matrix and scalar
//! multiplication, and the Kronecker (tensor) product, over a numeric
//! element type described by the traits of [`element`].

pub mod element;
pub mod matrix;

pub use crate::element::AddElement;
pub use crate::element::CancelElement;
pub use crate::element::Element;
pub use crate::element::MulElement;
pub use crate::element::SubElement;
pub use crate::matrix::Add;
pub use crate::matrix::Matrix;
pub use crate::matrix::Mul;
pub use crate::matrix::Sub;
