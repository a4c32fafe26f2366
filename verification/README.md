# lau_contact_agents

Contact geometry on R^{2n+1} for modelling dissipative agents.

- `src/` is the verified library (Verus). It holds what is exact: the
  integer-valued structures of the standard contact form α = dz − Σ yᵢ dxᵢ
  (its exterior derivative dα, the Reeb field R = ∂/∂z, its coefficients at the
  origin, the tangent basis of the standard Legendrian), the decision of the
  Gray stability path check from its per-sample contact tests, and the
  Weinstein verifier's bookkeeping, and a cofactor determinant. Proof
  functions state the laws: α ∧ (dα)ⁿ = 1 at every point, dα is
  skew-symmetric, dα(R, ·) = 0, α(R) = 1, α vanishes on the standard
  Legendrian.
- `app/` is the floating-point layer on nalgebra with serde support: contact
  forms at real points, Hamiltonian dynamics, contactomorphisms, Darboux
  charts, Legendrian knots, Reeb orbits and thermodynamic agents. It takes the
  exact structures and decisions from the library.
- `tests/` exercises the library.
