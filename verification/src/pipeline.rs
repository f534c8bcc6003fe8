use vstd::prelude::*;

use crate::cart::{Cart, CartLine};
use crate::directory::Directory;
use crate::error::AppError;

verus! {

/// Verdict of the discount stage alone: no code attaches nothing; an unknown
/// code is tolerated and attaches nothing (the soft miss); a known code whose
/// window contains the current instant attaches the record's identifier; a
/// known code outside its window is a hard failure.
pub open spec fn discount_verdict(dir: Directory, code: Option<String>) -> Result<
    Option<u32>,
    AppError,
> {
    match code {
        None => Ok(None),
        Some(c) => if !dir.spec_has_code(c@) {
            Ok(None)
        } else if dir.discounts@[dir.spec_code_index(c@)].spec_time_valid(dir.now) {
            Ok(Some(dir.discounts@[dir.spec_code_index(c@)].id))
        } else {
            Err(AppError::DiscountPeriod)
        },
    }
}

/// Whether every line references a product the product authority knows.
pub open spec fn all_products_exist(dir: Directory, lines: Seq<CartLine>) -> bool {
    forall|i: int| 0 <= i < lines.len() ==> dir.spec_has_product(#[trigger] lines[i].product_id)
}

/// Verdict of the whole validation pipeline, in its fixed order: customer
/// existence first (any miss is hard), then discount resolution, then product
/// existence per line. On success it carries the resolved discount reference,
/// possibly none.
pub open spec fn spec_check_validity(dir: Directory, user: u32, data: Cart) -> Result<
    Option<u32>,
    AppError,
> {
    if !dir.spec_has_customer(user) {
        Err(AppError::CustomerNotFound)
    } else {
        match discount_verdict(dir, data.discount_code) {
            Err(e) => Err(e),
            Ok(d) => if all_products_exist(dir, data.lines@) {
                Ok(d)
            } else {
                Err(AppError::ProductNotFound)
            },
        }
    }
}

/// Runs the validation pipeline against the authorities in `dir`,
/// short-circuiting on the first hard failure. Reads only; nothing here
/// mutates cart state.
pub fn check_newcart_validity(dir: &Directory, user: u32, data: &Cart) -> (r: Result<
    Option<u32>,
    AppError,
>)
    requires
        dir.wf(),
    ensures
        r == spec_check_validity(*dir, user, *data),
{
    if !dir.lookup_customer(user) {
        return Err(AppError::CustomerNotFound);
    }
    let discount_id: Option<u32> = match &data.discount_code {
        None => None,
        Some(code) => match dir.find_discount_by_code(code) {
            None => None,
            Some(i) => {
                let d = &dir.discounts[i];
                if d.is_time_valid(dir.now) {
                    Some(d.id)
                } else {
                    return Err(AppError::DiscountPeriod);
                }
            },
        },
    };
    let mut k: usize = 0;
    while k < data.lines.len()
        invariant
            k <= data.lines@.len(),
            dir.spec_has_customer(user),
            discount_verdict(*dir, data.discount_code) == Ok::<Option<u32>, AppError>(
                discount_id,
            ),
            forall|j: int|
                0 <= j < k ==> dir.spec_has_product(#[trigger] data.lines@[j].product_id),
        decreases data.lines@.len() - k,
    {
        if !dir.lookup_product(data.lines[k].product_id) {
            proof {
                assert(!dir.spec_has_product(data.lines@[k as int].product_id));
                assert(!all_products_exist(*dir, data.lines@));
            }
            return Err(AppError::ProductNotFound);
        }
        k = k + 1;
    }
    Ok(discount_id)
}

} // verus!
