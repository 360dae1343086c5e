use parts_inventory::model::{Part, PartsError};
use parts_inventory::repository::find_by_id;
use parts_inventory::service::{next_id, plan_add, plan_delete, plan_update};
use parts_inventory::validation::{
    is_allowed_condition, is_blank, is_positive_price, validate, Violation,
};

fn stored(id: u32, name: &str) -> Part {
    Part {
        id,
        name: name.to_string(),
        category: "misc".to_string(),
        price_bits: 2.5f64.to_bits(),
        brand: "Acme".to_string(),
        condition: "Usado".to_string(),
    }
}

#[test]
fn blank_follows_unicode_white_space() {
    assert!(is_blank(""));
    assert!(is_blank(" \t\r\n"));
    assert!(is_blank("\u{a0}\u{3000}\u{2028}"));
    assert!(!is_blank("a"));
    assert!(!is_blank("  x  "));
    assert!(!is_blank("\u{200b}"));
}

#[test]
fn positive_price_bit_patterns() {
    assert!(is_positive_price(0.01f64.to_bits()));
    assert!(is_positive_price(f64::MIN_POSITIVE.to_bits()));
    assert!(is_positive_price(f64::MAX.to_bits()));
    assert!(is_positive_price(f64::INFINITY.to_bits()));
    assert!(is_positive_price(1u64));
    assert!(!is_positive_price(0.0f64.to_bits()));
    assert!(!is_positive_price((-0.0f64).to_bits()));
    assert!(!is_positive_price((-0.01f64).to_bits()));
    assert!(!is_positive_price(f64::NEG_INFINITY.to_bits()));
    assert!(!is_positive_price(f64::NAN.to_bits()));
    assert!(!is_positive_price(0x7ff0_0000_0000_0001));
}

#[test]
fn condition_must_match_exactly() {
    assert!(is_allowed_condition(&"Nuevo".to_string()));
    assert!(is_allowed_condition(&"Usado".to_string()));
    assert!(!is_allowed_condition(&"New".to_string()));
    assert!(!is_allowed_condition(&"".to_string()));
    assert!(!is_allowed_condition(&"Nuev".to_string()));
    assert!(!is_allowed_condition(&"Nuevos".to_string()));
}

#[test]
fn violation_messages() {
    assert_eq!(Violation::BlankName.message(), "El nombre es obligatorio");
    assert_eq!(Violation::BlankCategory.message(), "La categoría es obligatoria");
    assert_eq!(Violation::NonPositivePrice.message(), "El precio debe ser mayor que 0");
    assert_eq!(Violation::BlankBrand.message(), "La marca es obligatoria");
    assert_eq!(
        Violation::UnknownCondition.message(),
        "El estado debe ser 'Nuevo' o 'Usado'"
    );
}

#[test]
fn validate_accepts_a_proper_part() {
    assert_eq!(validate(&stored(4, "hose")), Ok(()));
    let mut p = stored(4, "hose");
    p.brand = " ".to_string();
    assert_eq!(
        validate(&p),
        Err(PartsError::InvalidData("La marca es obligatoria".to_string()))
    );
}

#[test]
fn next_id_of_collections() {
    assert_eq!(next_id(&Vec::new()), 1);
    assert_eq!(next_id(&vec![stored(3, "a"), stored(7, "b"), stored(5, "c")]), 8);
    assert_eq!(next_id(&vec![stored(u32::MAX - 1, "a")]), u32::MAX);
}

#[test]
fn find_returns_first_match() {
    let parts = vec![stored(1, "a"), stored(2, "b"), stored(2, "c")];
    assert_eq!(find_by_id(&parts, 2), Ok(stored(2, "b")));
    assert_eq!(find_by_id(&parts, 3), Err(PartsError::NotFound));
    assert_eq!(find_by_id(&Vec::new(), 1), Err(PartsError::NotFound));
}

#[test]
fn plan_add_appends_with_fresh_id() {
    let (all, p) = plan_add(vec![stored(2, "a")], stored(0, "b")).unwrap();
    assert_eq!(p, stored(3, "b"));
    assert_eq!(all, vec![stored(2, "a"), stored(3, "b")]);
    let mut bad = stored(0, "b");
    bad.condition = "New".to_string();
    assert_eq!(
        plan_add(vec![stored(2, "a")], bad),
        Err(PartsError::InvalidData("El estado debe ser 'Nuevo' o 'Usado'".to_string()))
    );
}

#[test]
fn plan_update_replaces_first_match_in_place() {
    let parts = vec![stored(1, "a"), stored(2, "b"), stored(3, "c")];
    let (all, p) = plan_update(parts, 2, stored(40, "z")).unwrap();
    assert_eq!(p, stored(2, "z"));
    assert_eq!(all, vec![stored(1, "a"), stored(2, "z"), stored(3, "c")]);
    assert_eq!(plan_update(vec![stored(1, "a")], 2, stored(2, "z")), Err(PartsError::NotFound));
}

#[test]
fn plan_delete_removes_every_match() {
    let parts = vec![stored(1, "a"), stored(2, "b"), stored(1, "c"), stored(3, "d")];
    assert_eq!(plan_delete(parts, 1), Ok(vec![stored(2, "b"), stored(3, "d")]));
    assert_eq!(plan_delete(vec![stored(1, "a")], 2), Err(PartsError::NotFound));
    assert_eq!(plan_delete(Vec::new(), 1), Err(PartsError::NotFound));
}
