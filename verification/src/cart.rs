use vstd::prelude::*;

verus! {

/// One line of a client-facing cart: a product reference and a quantity.
///
/// The product identifier is an external reference; whether it names an
/// existing product is decided by the product authority, not by this type.
#[derive(Clone, Copy, PartialEq, Eq, Structural, Debug)]
pub struct CartLine {
    pub product_id: u32,
    pub qty: u32,
}

/// The client-facing cart representation: an ordered list of lines and an
/// optional human-readable discount code.
///
/// Clients never supply a discount identifier directly; they supply a code,
/// which the validation pipeline resolves to an internal reference.
#[derive(Debug)]
pub struct Cart {
    pub lines: Vec<CartLine>,
    pub discount_code: Option<String>,
}

/// An optional discount code, viewed as a sequence of characters.
pub open spec fn code_view(code: Option<String>) -> Option<Seq<char>> {
    match code {
        Some(s) => Some(s@),
        None => None,
    }
}

} // verus!
