use vstd::prelude::*;
use crate::model::{Part, PartsError};

verus! {

/// Whether `c` has the Unicode `White_Space` property.
pub uninterp spec fn white_space(c: char) -> bool;

/// Relies on `char::is_whitespace`: true exactly for the characters with
/// the Unicode `White_Space` property, a fact of `c` alone.
#[verifier::external_body]
fn is_white_space(c: char) -> (r: bool)
    ensures
        r == white_space(c),
{
    c.is_whitespace()
}

/// A text is blank when trimming its white space leaves nothing.
pub open spec fn blank(s: Seq<char>) -> bool {
    forall|i: int| 0 <= i < s.len() ==> white_space(#[trigger] s[i])
}

/// Largest bit pattern of a positive double-precision number (positive
/// infinity); the patterns above it with a clear sign bit are NaNs.
pub const POSITIVE_INFINITY_BITS: u64 = 0x7ff0_0000_0000_0000;

/// A price passes when the number it encodes is greater than zero: a clear
/// sign bit, not zero and not NaN.
pub open spec fn positive_price(bits: u64) -> bool {
    0 < bits <= POSITIVE_INFINITY_BITS
}

/// The two accepted conditions, new and used.
pub open spec fn allowed_condition(s: Seq<char>) -> bool {
    s == "Nuevo"@ || s == "Usado"@
}

/// The rules a part must meet before it is stored, in the order they are
/// checked.
#[derive(Debug, Clone, Copy, PartialEq, Eq)]
pub enum Violation {
    BlankName,
    BlankCategory,
    NonPositivePrice,
    BlankBrand,
    UnknownCondition,
}

/// The first rule that `p` breaks, if any.
pub open spec fn first_violation(p: Part) -> Option<Violation> {
    if blank(p.name@) {
        Some(Violation::BlankName)
    } else if blank(p.category@) {
        Some(Violation::BlankCategory)
    } else if !positive_price(p.price_bits) {
        Some(Violation::NonPositivePrice)
    } else if blank(p.brand@) {
        Some(Violation::BlankBrand)
    } else if !allowed_condition(p.condition@) {
        Some(Violation::UnknownCondition)
    } else {
        None
    }
}

/// Whether `p` may be stored.
pub open spec fn valid_part(p: Part) -> bool {
    first_violation(p) is None
}

impl Violation {
    /// The message shown to the caller for this rule.
    pub open spec fn spec_message(self) -> Seq<char> {
        match self {
            Violation::BlankName => "El nombre es obligatorio"@,
            Violation::BlankCategory => "La categoría es obligatoria"@,
            Violation::NonPositivePrice => "El precio debe ser mayor que 0"@,
            Violation::BlankBrand => "La marca es obligatoria"@,
            Violation::UnknownCondition => "El estado debe ser 'Nuevo' o 'Usado'"@,
        }
    }

    pub fn message(&self) -> (r: String)
        ensures
            r@ == self.spec_message(),
    {
        match self {
            Violation::BlankName => "El nombre es obligatorio".to_owned(),
            Violation::BlankCategory => "La categoría es obligatoria".to_owned(),
            Violation::NonPositivePrice => "El precio debe ser mayor que 0".to_owned(),
            Violation::BlankBrand => "La marca es obligatoria".to_owned(),
            Violation::UnknownCondition => "El estado debe ser 'Nuevo' o 'Usado'".to_owned(),
        }
    }
}

/// Whether `s` holds white space only (the empty text included).
pub fn is_blank(s: &str) -> (r: bool)
    ensures
        r == blank(s@),
{
    let n = s.unicode_len();
    let mut i: usize = 0;
    while i < n
        invariant
            n == s@.len(),
            i <= n,
            forall|j: int| 0 <= j < i ==> white_space(#[trigger] s@[j]),
        decreases n - i,
    {
        if !is_white_space(s.get_char(i)) {
            return false;
        }
        i = i + 1;
    }
    true
}

/// Whether the price with bit pattern `bits` is greater than zero.
pub fn is_positive_price(bits: u64) -> (r: bool)
    ensures
        r == positive_price(bits),
{
    0 < bits && bits <= POSITIVE_INFINITY_BITS
}

/// Whether `s` is exactly one of the accepted conditions.
pub fn is_allowed_condition(s: &String) -> (r: bool)
    ensures
        r == allowed_condition(s@),
{
    let new = "Nuevo".to_owned();
    let used = "Usado".to_owned();
    *s == new || *s == used
}

/// Whether `r` is the `InvalidData` error that reports rule `v`.
pub open spec fn rejected_for<T>(r: Result<T, PartsError>, v: Violation) -> bool {
    match r {
        Err(PartsError::InvalidData(m)) => m@ == v.spec_message(),
        _ => false,
    }
}

/// Checks the fields of `p` in order: name, category, price, brand,
/// condition; the first that fails is reported with its message.
pub fn validate(p: &Part) -> (r: Result<(), PartsError>)
    ensures
        match first_violation(*p) {
            None => r is Ok,
            Some(v) => rejected_for(r, v),
        },
{
    let failed = if is_blank(p.name.as_str()) {
        Some(Violation::BlankName)
    } else if is_blank(p.category.as_str()) {
        Some(Violation::BlankCategory)
    } else if !is_positive_price(p.price_bits) {
        Some(Violation::NonPositivePrice)
    } else if is_blank(p.brand.as_str()) {
        Some(Violation::BlankBrand)
    } else if !is_allowed_condition(&p.condition) {
        Some(Violation::UnknownCondition)
    } else {
        None
    };
    match failed {
        None => Ok(()),
        Some(v) => Err(PartsError::InvalidData(v.message())),
    }
}

} // verus!
