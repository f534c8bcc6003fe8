use cart_api::cart::{Cart, CartLine};
use cart_api::directory::{Directory, Discount};
use cart_api::error::AppError;
use cart_api::store::{CartStore, StoredCart};

fn line(product_id: u32, qty: u32) -> CartLine {
    CartLine { product_id, qty }
}

fn discount(id: u32, code: &str, valid_from: u64, valid_until: u64) -> Discount {
    Discount { id, code: code.to_string(), valid_from, valid_until }
}

fn directory() -> Directory {
    Directory {
        customers: vec![42, 1, 2],
        products: vec![7, 9, 11],
        discounts: vec![discount(5, "SAVE10", 50, 150), discount(6, "EXPIRED", 0, 40)],
        now: 100,
    }
}

#[test]
fn scenario_user_42() {
    let dir = directory();
    let mut store = CartStore::new();
    let created = store.create_cart(&dir, 42, Cart { lines: vec![line(7, 2)], discount_code: None });
    assert_eq!(created, Ok(1));
    let back = store.read_cart(&dir, 42, 1).unwrap();
    assert_eq!(back.lines, vec![line(7, 2)]);
    assert_eq!(back.discount_code, None);
    let updated = store.update_cart(
        &dir,
        42,
        1,
        Cart { lines: vec![line(9, 1)], discount_code: Some("SAVE10".to_string()) },
    );
    assert_eq!(updated, Ok(()));
    let back = store.read_cart(&dir, 42, 1).unwrap();
    assert_eq!(back.lines, vec![line(9, 1)]);
    assert_eq!(back.discount_code, Some("SAVE10".to_string()));
}

#[test]
fn create_for_unknown_customer_is_rejected() {
    let dir = directory();
    let mut store = CartStore::new();
    let r = store.create_cart(&dir, 99, Cart { lines: vec![line(7, 1)], discount_code: None });
    assert_eq!(r, Err(AppError::CustomerNotFound));
    assert!(store.carts.is_empty());
}

#[test]
fn create_with_missing_product_persists_nothing() {
    let dir = directory();
    let mut store = CartStore::new();
    let r = store.create_cart(
        &dir,
        42,
        Cart { lines: vec![line(7, 1), line(8, 3)], discount_code: None },
    );
    assert_eq!(r, Err(AppError::ProductNotFound));
    assert!(store.carts.is_empty());
    assert_eq!(store.next_key, 1);
    assert_eq!(store.read_cart(&dir, 42, 1).unwrap_err(), AppError::CartNotFound);
}

#[test]
fn expired_discount_rejects_create_and_update() {
    let dir = directory();
    let mut store = CartStore::new();
    let r = store.create_cart(
        &dir,
        42,
        Cart { lines: vec![line(7, 1)], discount_code: Some("EXPIRED".to_string()) },
    );
    assert_eq!(r, Err(AppError::DiscountPeriod));
    assert!(store.carts.is_empty());

    assert_eq!(
        store.create_cart(&dir, 42, Cart { lines: vec![line(7, 1)], discount_code: None }),
        Ok(1)
    );
    let r = store.update_cart(
        &dir,
        42,
        1,
        Cart { lines: vec![line(9, 1)], discount_code: Some("EXPIRED".to_string()) },
    );
    assert_eq!(r, Err(AppError::DiscountPeriod));
    let back = store.read_cart(&dir, 42, 1).unwrap();
    assert_eq!(back.lines, vec![line(7, 1)]);
    assert_eq!(back.discount_code, None);
}

#[test]
fn unknown_discount_code_is_a_soft_miss() {
    let dir = directory();
    let mut store = CartStore::new();
    let r = store.create_cart(
        &dir,
        42,
        Cart { lines: vec![line(7, 2)], discount_code: Some("NOSUCH".to_string()) },
    );
    assert_eq!(r, Ok(1));
    let back = store.read_cart(&dir, 42, 1).unwrap();
    assert_eq!(back.lines, vec![line(7, 2)]);
    assert_eq!(back.discount_code, None);
}

#[test]
fn update_is_idempotent_and_replaces_all_lines() {
    let dir = directory();
    let mut store = CartStore::new();
    store
        .create_cart(&dir, 42, Cart { lines: vec![line(7, 2), line(9, 5)], discount_code: None })
        .unwrap();
    let new_content = || Cart { lines: vec![line(11, 1)], discount_code: Some("SAVE10".to_string()) };
    assert_eq!(store.update_cart(&dir, 42, 1, new_content()), Ok(()));
    let first = store.read_cart(&dir, 42, 1).unwrap();
    assert_eq!(store.update_cart(&dir, 42, 1, new_content()), Ok(()));
    let second = store.read_cart(&dir, 42, 1).unwrap();
    assert_eq!(first.lines, vec![line(11, 1)]);
    assert_eq!(second.lines, vec![line(11, 1)]);
    assert_eq!(first.discount_code, second.discount_code);
    assert_eq!(store.carts.len(), 1);
}

#[test]
fn update_of_missing_cart_is_not_found() {
    let dir = directory();
    let mut store = CartStore::new();
    let r = store.update_cart(&dir, 42, 3, Cart { lines: vec![line(7, 1)], discount_code: None });
    assert_eq!(r, Err(AppError::CartNotFound));
}

#[test]
fn delete_then_read_is_not_found() {
    let dir = directory();
    let mut store = CartStore::new();
    store.create_cart(&dir, 42, Cart { lines: vec![line(7, 2)], discount_code: None }).unwrap();
    assert_eq!(store.delete_cart(42, 1), Ok(()));
    assert_eq!(store.read_cart(&dir, 42, 1).unwrap_err(), AppError::CartNotFound);
    assert_eq!(store.delete_cart(42, 1), Err(AppError::CartNotFound));
    assert!(store.carts.is_empty());
}

#[test]
fn read_of_missing_cart_is_not_found() {
    let dir = directory();
    let store = CartStore::new();
    assert_eq!(store.read_cart(&dir, 42, 1).unwrap_err(), AppError::CartNotFound);
}

#[test]
fn numbers_are_sequential_per_user() {
    let dir = directory();
    let mut store = CartStore::new();
    assert_eq!(
        store.create_cart(&dir, 42, Cart { lines: vec![line(7, 1)], discount_code: None }),
        Ok(1)
    );
    assert_eq!(
        store.create_cart(&dir, 42, Cart { lines: vec![line(9, 1)], discount_code: None }),
        Ok(2)
    );
    assert_eq!(
        store.create_cart(&dir, 1, Cart { lines: vec![line(11, 4)], discount_code: None }),
        Ok(1)
    );
    assert_eq!(store.read_cart(&dir, 42, 2).unwrap().lines, vec![line(9, 1)]);
    assert_eq!(store.read_cart(&dir, 1, 1).unwrap().lines, vec![line(11, 4)]);
}

#[test]
fn line_order_is_preserved() {
    let dir = directory();
    let mut store = CartStore::new();
    let lines = vec![line(9, 1), line(7, 2), line(11, 3)];
    store.create_cart(&dir, 42, Cart { lines: lines.clone(), discount_code: None }).unwrap();
    assert_eq!(store.read_cart(&dir, 42, 1).unwrap().lines, lines);
}

#[test]
fn empty_line_set_is_allowed() {
    let dir = directory();
    let mut store = CartStore::new();
    assert_eq!(store.create_cart(&dir, 42, Cart { lines: vec![], discount_code: None }), Ok(1));
    assert_eq!(store.read_cart(&dir, 42, 1).unwrap().lines, vec![]);
}

#[test]
fn validity_window_bounds_are_inclusive() {
    let mut dir = directory();
    let mut store = CartStore::new();
    let with_code = || Cart { lines: vec![line(7, 1)], discount_code: Some("SAVE10".to_string()) };
    dir.now = 50;
    assert_eq!(store.create_cart(&dir, 42, with_code()), Ok(1));
    dir.now = 150;
    assert_eq!(store.create_cart(&dir, 42, with_code()), Ok(2));
    dir.now = 49;
    assert_eq!(store.create_cart(&dir, 42, with_code()), Err(AppError::DiscountPeriod));
    dir.now = 151;
    assert_eq!(store.create_cart(&dir, 42, with_code()), Err(AppError::DiscountPeriod));
}

#[test]
fn resolved_code_follows_the_discount_authority() {
    let mut dir = directory();
    let mut store = CartStore::new();
    store
        .create_cart(
            &dir,
            42,
            Cart { lines: vec![line(7, 1)], discount_code: Some("SAVE10".to_string()) },
        )
        .unwrap();
    // The stored reference is canonical; a renamed code is reflected on read.
    dir.discounts[0].code = "SAVE-TEN".to_string();
    let back = store.read_cart(&dir, 42, 1).unwrap();
    assert_eq!(back.discount_code, Some("SAVE-TEN".to_string()));
}

#[test]
fn dangling_discount_reference_is_an_internal_fault() {
    let dir = directory();
    let mut store = CartStore::new();
    store.carts.push(StoredCart {
        key: 1,
        user_id: 42,
        user_cart_id: 1,
        discount_id: Some(99),
        lines: vec![line(7, 1)],
    });
    store.next_key = 2;
    assert_eq!(store.read_cart(&dir, 42, 1).unwrap_err(), AppError::Misconfiguration);
}

#[test]
fn exhausted_key_space_is_a_storage_failure() {
    let dir = directory();
    let mut store = CartStore::new();
    store.next_key = u32::MAX;
    let r = store.create_cart(&dir, 42, Cart { lines: vec![line(7, 1)], discount_code: None });
    assert_eq!(r, Err(AppError::Storage));
    assert!(store.carts.is_empty());
}

#[test]
fn snapshot_consistency_is_decided() {
    let dir = directory();
    assert!(dir.check_wf());
    let mut dup_id = directory();
    dup_id.discounts.push(discount(5, "OTHER", 0, 10));
    assert!(!dup_id.check_wf());
    let mut dup_code = directory();
    dup_code.discounts.push(discount(7, "SAVE10", 0, 10));
    assert!(!dup_code.check_wf());
}
