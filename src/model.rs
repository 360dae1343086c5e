use vstd::prelude::*;

verus! {

/// One inventory item.
///
/// The price is held as the bit pattern of an IEEE 754 double-precision
/// number, so that the library can reason about it with integers alone.
#[derive(Debug, PartialEq)]
pub struct Part {
    pub id: u32,
    pub name: String,
    pub category: String,
    pub price_bits: u64,
    pub brand: String,
    pub condition: String,
}

impl Clone for Part {
    fn clone(&self) -> (r: Part)
        ensures
            r == *self,
    {
        Part {
            id: self.id,
            name: self.name.clone(),
            category: self.category.clone(),
            price_bits: self.price_bits,
            brand: self.brand.clone(),
            condition: self.condition.clone(),
        }
    }
}

/// The part `p` with its identifier replaced by `id`.
pub open spec fn with_id(p: Part, id: u32) -> Part {
    Part {
        id,
        name: p.name,
        category: p.category,
        price_bits: p.price_bits,
        brand: p.brand,
        condition: p.condition,
    }
}

/// Errors of the repository and the service.
#[derive(Debug, PartialEq)]
pub enum PartsError {
    /// No part has the requested identifier.
    NotFound,
    /// A field breaks a rule; the message says which.
    InvalidData(String),
    /// The storage resource could not be read, created or written.
    Io(String),
    /// The stored collection could not be decoded or encoded.
    Json(String),
}

/// Whether `e` reports a failure of the storage resource.
pub open spec fn is_storage_error(e: PartsError) -> bool {
    e is Io || e is Json
}

/// The body of a request that creates a stock entry: a name and the number
/// of units in stock.
#[derive(Debug, PartialEq)]
pub struct CreatePartRequest {
    pub name: String,
    pub stock: u32,
}

/// The HTTP front of the parts service; its routes are built by the
/// application around the library.
#[derive(Debug, Clone, Copy, PartialEq, Eq, Default)]
pub struct PartsController {}

} // verus!
