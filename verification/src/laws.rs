use vstd::prelude::*;

use crate::cart::{Cart, CartLine};
use crate::directory::Directory;
use crate::error::AppError;
use crate::pipeline::{all_products_exist, discount_verdict, spec_check_validity};
use crate::store::{
    cart_matches, create_result, delete_result, lemma_cart_index_is,
    lemma_create_wf, lemma_update_wf, read_result, spec_cart_index, spec_has_cart,
    spec_max_number, store_wf, update_result, CartRec,
};

verus! {

/// Creating a cart for an existing customer, whose lines all reference
/// existing products and which carries no discount code, succeeds with the
/// next per-user cart number, and reading that number back observes exactly
/// the submitted line set, in order, and no discount code.
pub proof fn law_create_then_read(
    s: Seq<CartRec>,
    next_key: u32,
    dir: Directory,
    user: u32,
    data: Cart,
)
    requires
        store_wf(s, next_key),
        dir.wf(),
        next_key < u32::MAX,
        spec_max_number(s, user) < u32::MAX,
        dir.spec_has_customer(user),
        all_products_exist(dir, data.lines@),
        data.discount_code is None,
    ensures
        create_result(s, next_key, dir, user, data).2 == Ok::<u32, AppError>(
            (spec_max_number(s, user) + 1) as u32,
        ),
        read_result(
            create_result(s, next_key, dir, user, data).0,
            dir,
            user,
            (spec_max_number(s, user) + 1) as u32,
        ) == Ok::<(Seq<CartLine>, Option<Seq<char>>), AppError>((data.lines@, None)),
{
    let n = (spec_max_number(s, user) + 1) as u32;
    let s2 = create_result(s, next_key, dir, user, data).0;
    assert(discount_verdict(dir, data.discount_code) == Ok::<Option<u32>, AppError>(None));
    assert(spec_check_validity(dir, user, data) == Ok::<Option<u32>, AppError>(None));
    lemma_create_wf(s, next_key, dir, user, data);
    let i = s.len() as int;
    assert(cart_matches(s2[i], user, n));
    lemma_cart_index_is(s2, user, n, i);
    assert(s2[i].discount_id is None);
    assert(s2[i].lines == data.lines@);
}

/// Creating a cart with a line that references a product the product
/// authority does not know fails as a not-found, and persists nothing: no
/// header, no line, no key consumed.
pub proof fn law_create_missing_product(
    s: Seq<CartRec>,
    next_key: u32,
    dir: Directory,
    user: u32,
    data: Cart,
)
    requires
        dir.spec_has_customer(user),
        discount_verdict(dir, data.discount_code) is Ok,
        !all_products_exist(dir, data.lines@),
    ensures
        create_result(s, next_key, dir, user, data) == (
            s,
            next_key,
            Err::<u32, AppError>(AppError::ProductNotFound),
        ),
{
}

/// A discount code that resolves to a record whose window does not contain
/// the current instant makes both create and update fail with the discount
/// period error, and neither changes any state.
pub proof fn law_discount_period_rejected(
    s: Seq<CartRec>,
    next_key: u32,
    dir: Directory,
    user: u32,
    number: u32,
    data: Cart,
    code: String,
)
    requires
        dir.spec_has_customer(user),
        data.discount_code == Some(code),
        dir.spec_has_code(code@),
        !dir.discounts@[dir.spec_code_index(code@)].spec_time_valid(dir.now),
    ensures
        create_result(s, next_key, dir, user, data) == (
            s,
            next_key,
            Err::<u32, AppError>(AppError::DiscountPeriod),
        ),
        update_result(s, dir, user, number, data) == (
            s,
            Err::<(), AppError>(AppError::DiscountPeriod),
        ),
{
}

/// A discount code unknown to the discount authority is tolerated silently:
/// create and update behave exactly as if no code had been supplied.
pub proof fn law_unknown_code_ignored(
    s: Seq<CartRec>,
    next_key: u32,
    dir: Directory,
    user: u32,
    number: u32,
    data: Cart,
    code: String,
)
    requires
        data.discount_code == Some(code),
        !dir.spec_has_code(code@),
    ensures
        create_result(s, next_key, dir, user, data) == create_result(
            s,
            next_key,
            dir,
            user,
            Cart { lines: data.lines, discount_code: None },
        ),
        update_result(s, dir, user, number, data) == update_result(
            s,
            dir,
            user,
            number,
            Cart { lines: data.lines, discount_code: None },
        ),
{
    let stripped = Cart { lines: data.lines, discount_code: None };
    assert(discount_verdict(dir, data.discount_code) == Ok::<Option<u32>, AppError>(None));
    assert(discount_verdict(dir, stripped.discount_code) == Ok::<Option<u32>, AppError>(None));
    assert(spec_check_validity(dir, user, data) == spec_check_validity(dir, user, stripped));
}

/// Replacing a cart is idempotent in its content: the first replace succeeds
/// and leaves exactly the submitted line set, with no residue of the lines
/// it replaced, and replaying the very same replace changes nothing more.
pub proof fn law_update_idempotent(
    s: Seq<CartRec>,
    next_key: u32,
    dir: Directory,
    user: u32,
    number: u32,
    data: Cart,
)
    requires
        store_wf(s, next_key),
        dir.wf(),
        spec_check_validity(dir, user, data) is Ok,
        spec_has_cart(s, user, number),
    ensures
        update_result(s, dir, user, number, data).1 == Ok::<(), AppError>(()),
        ({
            let s1 = update_result(s, dir, user, number, data).0;
            s1[spec_cart_index(s1, user, number)].lines == data.lines@ && update_result(
                s1,
                dir,
                user,
                number,
                data,
            ) == (s1, Ok::<(), AppError>(())) && read_result(s1, dir, user, number) == read_result(
                update_result(s1, dir, user, number, data).0,
                dir,
                user,
                number,
            )
        }),
{
    let i = spec_cart_index(s, user, number);
    let s1 = update_result(s, dir, user, number, data).0;
    lemma_update_wf(s, next_key, dir, user, number, data);
    assert(cart_matches(s1[i], user, number));
    lemma_cart_index_is(s1, user, number, i);
    assert(s1[i].lines == data.lines@);
    let s2 = update_result(s1, dir, user, number, data).0;
    assert(s2 =~= s1);
}

/// After a delete of the (user, number) pair — whether or not it addressed a
/// live cart — a read of the same pair signals not-found.
pub proof fn law_delete_then_read(
    s: Seq<CartRec>,
    next_key: u32,
    dir: Directory,
    user: u32,
    number: u32,
)
    requires
        store_wf(s, next_key),
    ensures
        read_result(delete_result(s, user, number).0, dir, user, number) == Err::<
            (Seq<CartLine>, Option<Seq<char>>),
            AppError,
        >(AppError::CartNotFound),
{
    if spec_has_cart(s, user, number) {
        let i = spec_cart_index(s, user, number);
        let s1 = delete_result(s, user, number).0;
        assert forall|x: int| 0 <= x < s1.len() implies !cart_matches(
            #[trigger] s1[x],
            user,
            number,
        ) by {
            let ox: int = if x < i { x } else { x + 1 };
            assert(s1[x] == s[ox]);
            if cart_matches(s1[x], user, number) {
                if ox < i {
                    assert(!(s[ox].user_id == s[i].user_id && s[ox].user_cart_id
                        == s[i].user_cart_id));
                } else {
                    assert(!(s[i].user_id == s[ox].user_id && s[i].user_cart_id
                        == s[ox].user_cart_id));
                }
            }
        }
        assert(!spec_has_cart(s1, user, number));
    }
}

} // verus!
