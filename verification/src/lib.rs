//! Contact geometry on R^{2n+1} in the coordinates (x₁,…,xₙ, y₁,…,yₙ, z):
//! the exact (integer-valued) structures of the standard contact form
//! α = dz − Σ yᵢ dxᵢ, its Reeb field and its standard Legendrian, together
//! with the decision parts of the Gray stability check and of the
//! Weinstein verifier.

pub mod linear;
pub mod determinant;
pub mod contact_form;
pub mod legendrian;
pub mod gray_stability;
pub mod weinstein;
