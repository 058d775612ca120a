use vstd::prelude::*;
use azul_css::props::property::CssProperty;

verus! {

/// A parsed CSS key-value pair of the styling crate (such as `width: 20px`).
/// The DOM only stores such properties on its nodes; it never looks inside them.
#[verifier::external_type_specification]
#[verifier::external_body]
pub struct ExCssProperty(CssProperty);

/// `<CssProperty as Clone>::clone`, written by `derive(Clone)` in the styling crate.
/// Nothing is claimed of the copy: it is only carried along with the node that holds it.
pub assume_specification[ <CssProperty as Clone>::clone ](p: &CssProperty) -> CssProperty;

} // verus!
