use vstd::prelude::*;

use crate::cart::{code_view, Cart, CartLine};
use crate::directory::Directory;
use crate::error::AppError;
use crate::pipeline::{check_newcart_validity, spec_check_validity};

verus! {

/// A persisted cart aggregate: the header fields together with the lines it
/// owns. A line cannot outlive its cart, so the lines live inside the
/// aggregate; replacing them wholesale is one assignment, which is how the
/// atomic replace-all-lines of an update is modeled.
#[derive(Debug)]
pub struct StoredCart {
    /// Surrogate key, assigned by the store, never client-visible.
    pub key: u32,
    /// Owning user.
    pub user_id: u32,
    /// Per-user sequential cart number, the client-visible address.
    pub user_cart_id: u32,
    /// Resolved discount reference, attached at validation time.
    pub discount_id: Option<u32>,
    pub lines: Vec<CartLine>,
}

/// The mathematical image of one stored cart.
#[verifier::ext_equal]
pub struct CartRec {
    pub key: u32,
    pub user_id: u32,
    pub user_cart_id: u32,
    pub discount_id: Option<u32>,
    pub lines: Seq<CartLine>,
}

impl View for StoredCart {
    type V = CartRec;

    open spec fn view(&self) -> CartRec {
        CartRec {
            key: self.key,
            user_id: self.user_id,
            user_cart_id: self.user_cart_id,
            discount_id: self.discount_id,
            lines: self.lines@,
        }
    }
}

pub open spec fn cart_matches(c: CartRec, user: u32, number: u32) -> bool {
    c.user_id == user && c.user_cart_id == number
}

/// No two stored carts share a surrogate key, nor a (user, cart number)
/// pair.
pub open spec fn carts_distinct(s: Seq<CartRec>) -> bool {
    forall|i: int, j: int|
        #![trigger s[i], s[j]]
        0 <= i < j < s.len() ==> s[i].key != s[j].key && !(s[i].user_id == s[j].user_id
            && s[i].user_cart_id == s[j].user_cart_id)
}

/// Well-formedness of the stored state: surrogate keys are unique and below
/// the next free key, and the (user, cart number) pair is unique, with
/// numbers starting at one.
pub open spec fn store_wf(s: Seq<CartRec>, next_key: u32) -> bool {
    carts_distinct(s) && (forall|i: int|
        0 <= i < s.len() ==> (#[trigger] s[i]).key < next_key && 1 <= s[i].user_cart_id)
}

/// A matching index is the index the (user, number) pair addresses:
/// distinctness allows only one.
pub proof fn lemma_cart_index_is(s: Seq<CartRec>, user: u32, number: u32, i: int)
    requires
        carts_distinct(s),
        0 <= i < s.len(),
        cart_matches(s[i], user, number),
    ensures
        spec_has_cart(s, user, number),
        spec_cart_index(s, user, number) == i,
{
    assert(spec_has_cart(s, user, number));
    let j = spec_cart_index(s, user, number);
    assert(0 <= j < s.len() && cart_matches(s[j], user, number));
    if i < j {
        assert(!(s[i].user_id == s[j].user_id && s[i].user_cart_id == s[j].user_cart_id));
    } else if j < i {
        assert(!(s[j].user_id == s[i].user_id && s[j].user_cart_id == s[i].user_cart_id));
    }
}

pub open spec fn spec_has_cart(s: Seq<CartRec>, user: u32, number: u32) -> bool {
    exists|i: int| 0 <= i < s.len() && cart_matches(#[trigger] s[i], user, number)
}

/// Index of the cart addressed by (user, number); meaningful only when
/// `spec_has_cart` holds, unique by `store_wf`.
pub open spec fn spec_cart_index(s: Seq<CartRec>, user: u32, number: u32) -> int {
    choose|i: int| 0 <= i < s.len() && cart_matches(#[trigger] s[i], user, number)
}

/// The greatest cart number the user holds, zero when the user holds none.
pub open spec fn spec_max_number(s: Seq<CartRec>, user: u32) -> u32
    decreases s.len(),
{
    if s.len() == 0 {
        0u32
    } else {
        let rest = spec_max_number(s.drop_last(), user);
        if s.last().user_id == user && s.last().user_cart_id > rest {
            s.last().user_cart_id
        } else {
            rest
        }
    }
}

/// Every cart number the user holds is at most `spec_max_number`.
pub proof fn lemma_max_number_bound(s: Seq<CartRec>, user: u32, i: int)
    requires
        0 <= i < s.len(),
        s[i].user_id == user,
    ensures
        s[i].user_cart_id <= spec_max_number(s, user),
    decreases s.len(),
{
    if i == s.len() - 1 {
        assert(s.last() == s[i]);
    } else {
        lemma_max_number_bound(s.drop_last(), user, i);
        assert(s.drop_last()[i] == s[i]);
    }
}

/// What creating a cart does: on a failing validation verdict the state is
/// untouched and the verdict's error is returned; on a success a fresh
/// aggregate is appended, keyed with the next free key and numbered one past
/// the user's greatest number, and that number is returned. A store whose
/// key space or whose number space for this user is exhausted refuses with a
/// storage failure and commits nothing.
pub open spec fn create_result(
    s: Seq<CartRec>,
    next_key: u32,
    dir: Directory,
    user: u32,
    data: Cart,
) -> (Seq<CartRec>, u32, Result<u32, AppError>) {
    match spec_check_validity(dir, user, data) {
        Err(e) => (s, next_key, Err(e)),
        Ok(d) => if next_key == u32::MAX || spec_max_number(s, user) == u32::MAX {
            (s, next_key, Err(AppError::Storage))
        } else {
            let n = (spec_max_number(s, user) + 1) as u32;
            (
                s.push(
                    CartRec {
                        key: next_key,
                        user_id: user,
                        user_cart_id: n,
                        discount_id: d,
                        lines: data.lines@,
                    },
                ),
                (next_key + 1) as u32,
                Ok(n),
            )
        },
    }
}

/// What reading a cart observes: the lines in stored order and the discount
/// code the stored reference resolves to right now, or a not-found for an
/// unknown (user, number) pair. A stored reference the discount authority no
/// longer knows is an internal fault, not a client error.
pub open spec fn read_result(s: Seq<CartRec>, dir: Directory, user: u32, number: u32) -> Result<
    (Seq<CartLine>, Option<Seq<char>>),
    AppError,
> {
    if !spec_has_cart(s, user, number) {
        Err(AppError::CartNotFound)
    } else {
        let c = s[spec_cart_index(s, user, number)];
        match c.discount_id {
            None => Ok((c.lines, None)),
            Some(id) => if dir.spec_has_discount_id(id) {
                Ok((c.lines, Some(dir.discounts@[dir.spec_id_index(id)].code@)))
            } else {
                Err(AppError::Misconfiguration)
            },
        }
    }
}

/// What replacing a cart does: on a failing verdict or an unknown pair the
/// state is untouched; otherwise the addressed aggregate keeps its key and
/// address and has its discount reference and its whole line set replaced as
/// one unit.
pub open spec fn update_result(
    s: Seq<CartRec>,
    dir: Directory,
    user: u32,
    number: u32,
    data: Cart,
) -> (Seq<CartRec>, Result<(), AppError>) {
    match spec_check_validity(dir, user, data) {
        Err(e) => (s, Err(e)),
        Ok(d) => if !spec_has_cart(s, user, number) {
            (s, Err(AppError::CartNotFound))
        } else {
            let i = spec_cart_index(s, user, number);
            (
                s.update(
                    i,
                    CartRec {
                        key: s[i].key,
                        user_id: s[i].user_id,
                        user_cart_id: s[i].user_cart_id,
                        discount_id: d,
                        lines: data.lines@,
                    },
                ),
                Ok(()),
            )
        },
    }
}

/// What deleting a cart does: the addressed aggregate leaves the state with
/// all its lines, or a not-found is signalled and nothing changes.
pub open spec fn delete_result(s: Seq<CartRec>, user: u32, number: u32) -> (
    Seq<CartRec>,
    Result<(), AppError>,
) {
    if !spec_has_cart(s, user, number) {
        (s, Err(AppError::CartNotFound))
    } else {
        (s.remove(spec_cart_index(s, user, number)), Ok(()))
    }
}

/// Creating a cart preserves well-formedness of the stored state.
pub proof fn lemma_create_wf(s: Seq<CartRec>, next_key: u32, dir: Directory, user: u32, data: Cart)
    requires
        store_wf(s, next_key),
    ensures
        store_wf(
            create_result(s, next_key, dir, user, data).0,
            create_result(s, next_key, dir, user, data).1,
        ),
{
    match spec_check_validity(dir, user, data) {
        Err(_) => {},
        Ok(_) => {
            if next_key != u32::MAX && spec_max_number(s, user) != u32::MAX {
                assert forall|i: int|
                    0 <= i < s.len() && s[i].user_id == user implies s[i].user_cart_id
                    <= spec_max_number(s, user) by {
                    lemma_max_number_bound(s, user, i);
                }
                let s2 = create_result(s, next_key, dir, user, data).0;
                assert(carts_distinct(s2));
            }
        },
    }
}

/// Replacing a cart preserves well-formedness of the stored state.
pub proof fn lemma_update_wf(
    s: Seq<CartRec>,
    next_key: u32,
    dir: Directory,
    user: u32,
    number: u32,
    data: Cart,
)
    requires
        store_wf(s, next_key),
    ensures
        store_wf(update_result(s, dir, user, number, data).0, next_key),
{
    match spec_check_validity(dir, user, data) {
        Err(_) => {},
        Ok(_) => {
            if spec_has_cart(s, user, number) {
                let s1 = update_result(s, dir, user, number, data).0;
                assert(forall|x: int|
                    0 <= x < s1.len() ==> (#[trigger] s1[x]).key == s[x].key && s1[x].user_id
                        == s[x].user_id && s1[x].user_cart_id == s[x].user_cart_id);
                assert(store_wf(s1, next_key));
            }
        },
    }
}

/// The transactional store of cart aggregates, the single local source of
/// truth that the four operations read and mutate.
pub struct CartStore {
    pub carts: Vec<StoredCart>,
    pub next_key: u32,
}

impl View for CartStore {
    type V = Seq<CartRec>;

    open spec fn view(&self) -> Seq<CartRec> {
        Seq::new(self.carts@.len(), |i: int| self.carts@[i]@)
    }
}

impl CartStore {
    pub open spec fn wf(&self) -> bool {
        store_wf(self@, self.next_key)
    }

    /// An empty store, holding no carts.
    pub fn new() -> (s: Self)
        ensures
            s.wf(),
            s@ == Seq::<CartRec>::empty(),
            s.next_key == 1u32,
    {
        let s = CartStore { carts: Vec::new(), next_key: 1 };
        proof {
            assert(s@ =~= Seq::<CartRec>::empty());
        }
        s
    }

    /// Finds the cart the (user, number) pair addresses, if any.
    fn find_cart(&self, user: u32, number: u32) -> (r: Option<usize>)
        requires
            self.wf(),
        ensures
            match r {
                Some(i) => i < self@.len() && cart_matches(self@[i as int], user, number)
                    && spec_has_cart(self@, user, number) && spec_cart_index(self@, user, number)
                    == i,
                None => !spec_has_cart(self@, user, number),
            },
    {
        let mut i: usize = 0;
        while i < self.carts.len()
            invariant
                self.wf(),
                i <= self@.len(),
                self@.len() == self.carts@.len(),
                forall|j: int| 0 <= j < i ==> !cart_matches(#[trigger] self@[j], user, number),
            decreases self.carts@.len() - i,
        {
            let c = &self.carts[i];
            if c.user_id == user && c.user_cart_id == number {
                proof {
                    assert(cart_matches(self@[i as int], user, number));
                    lemma_cart_index_is(self@, user, number, i as int);
                }
                return Some(i);
            }
            i = i + 1;
        }
        None
    }

    /// The greatest cart number the user holds in this store.
    pub fn max_number(&self, user: u32) -> (m: u32)
        ensures
            m == spec_max_number(self@, user),
    {
        let mut m: u32 = 0;
        let mut i: usize = 0;
        while i < self.carts.len()
            invariant
                i <= self@.len(),
                self@.len() == self.carts@.len(),
                m == spec_max_number(self@.take(i as int), user),
            decreases self.carts@.len() - i,
        {
            let c = &self.carts[i];
            proof {
                assert(self@.take(i + 1int).drop_last() =~= self@.take(i as int));
                assert(self@.take(i + 1int).last() == self@[i as int]);
            }
            if c.user_id == user && c.user_cart_id > m {
                m = c.user_cart_id;
            }
            i = i + 1;
        }
        proof {
            assert(self@.take(self@.len() as int) =~= self@);
        }
        m
    }

    /// Creates a cart for the user: runs the validation pipeline, and only on
    /// its success commits the header and all lines as one unit, returning
    /// the assigned per-user cart number. No partial create is observable.
    pub fn create_cart(&mut self, dir: &Directory, user: u32, data: Cart) -> (r: Result<
        u32,
        AppError,
    >)
        requires
            old(self).wf(),
            dir.wf(),
        ensures
            final(self).wf(),
            final(self).next_key == create_result(
                old(self)@,
                old(self).next_key,
                *dir,
                user,
                data,
            ).1,
            final(self)@ == create_result(old(self)@, old(self).next_key, *dir, user, data).0,
            r == create_result(old(self)@, old(self).next_key, *dir, user, data).2,
    {
        let discount_id = match check_newcart_validity(dir, user, &data) {
            Ok(d) => d,
            Err(e) => {
                return Err(e);
            },
        };
        let m = self.max_number(user);
        if self.next_key == u32::MAX || m == u32::MAX {
            return Err(AppError::Storage);
        }
        let number = m + 1;
        let key = self.next_key;
        self.next_key = key + 1;
        let ghost s0 = self@;
        let rec = StoredCart {
            key,
            user_id: user,
            user_cart_id: number,
            discount_id,
            lines: data.lines,
        };
        let ghost recv = rec@;
        self.carts.push(rec);
        proof {
            assert(self@ =~= s0.push(recv));
            assert forall|i: int|
                0 <= i < s0.len() && s0[i].user_id == user implies s0[i].user_cart_id
                <= m by {
                lemma_max_number_bound(s0, user, i);
            }
            assert(store_wf(self@, self.next_key));
        }
        Ok(number)
    }

    /// Reads the cart addressed by (user, number) into its client-facing
    /// representation, re-resolving the stored discount reference to its
    /// current code. No validation pipeline runs on read.
    pub fn read_cart(&self, dir: &Directory, user: u32, number: u32) -> (r: Result<
        Cart,
        AppError,
    >)
        requires
            self.wf(),
            dir.wf(),
        ensures
            ({
                let res = read_result(self@, *dir, user, number);
                match r {
                    Ok(c) => res matches Ok(o) && c.lines@ == o.0 && code_view(c.discount_code)
                        == o.1,
                    Err(e) => res == Err::<(Seq<CartLine>, Option<Seq<char>>), AppError>(e),
                }
            }),
    {
        let i = match self.find_cart(user, number) {
            Some(i) => i,
            None => {
                return Err(AppError::CartNotFound);
            },
        };
        let c = &self.carts[i];
        let mut lines: Vec<CartLine> = Vec::new();
        let mut j: usize = 0;
        while j < c.lines.len()
            invariant
                j <= c.lines@.len(),
                lines@ == c.lines@.take(j as int),
            decreases c.lines@.len() - j,
        {
            lines.push(c.lines[j]);
            proof {
                assert(c.lines@.take(j + 1int) =~= c.lines@.take(j as int).push(
                    c.lines@[j as int],
                ));
            }
            j = j + 1;
        }
        proof {
            assert(c.lines@.take(c.lines@.len() as int) =~= c.lines@);
        }
        let discount_code: Option<String> = match c.discount_id {
            None => None,
            Some(id) => match dir.find_discount_by_id(id) {
                None => {
                    return Err(AppError::Misconfiguration);
                },
                Some(di) => Some(dir.discounts[di].code.clone()),
            },
        };
        Ok(Cart { lines, discount_code })
    }

    /// Replaces the cart addressed by (user, number): full re-validation of
    /// the submitted content, then the discount reference and the whole line
    /// set are swapped in as one unit. Old and new lines never mix.
    pub fn update_cart(&mut self, dir: &Directory, user: u32, number: u32, data: Cart) -> (r:
        Result<(), AppError>)
        requires
            old(self).wf(),
            dir.wf(),
        ensures
            final(self).wf(),
            final(self).next_key == old(self).next_key,
            final(self)@ == update_result(old(self)@, *dir, user, number, data).0,
            r == update_result(old(self)@, *dir, user, number, data).1,
    {
        let discount_id = match check_newcart_validity(dir, user, &data) {
            Ok(d) => d,
            Err(e) => {
                return Err(e);
            },
        };
        let i = match self.find_cart(user, number) {
            Some(i) => i,
            None => {
                return Err(AppError::CartNotFound);
            },
        };
        let ghost s0 = self@;
        let key = self.carts[i].key;
        let rec = StoredCart {
            key,
            user_id: user,
            user_cart_id: number,
            discount_id,
            lines: data.lines,
        };
        let ghost recv = rec@;
        self.carts[i] = rec;
        proof {
            assert(self@ =~= s0.update(i as int, recv));
            assert(forall|x: int|
                0 <= x < self@.len() ==> (#[trigger] self@[x]).key == s0[x].key && self@[x].user_id
                    == s0[x].user_id && self@[x].user_cart_id == s0[x].user_cart_id);
            assert(store_wf(self@, self.next_key));
        }
        Ok(())
    }

    /// Deletes the cart addressed by (user, number) together with all the
    /// lines it owns, in one unit.
    pub fn delete_cart(&mut self, user: u32, number: u32) -> (r: Result<(), AppError>)
        requires
            old(self).wf(),
        ensures
            final(self).wf(),
            final(self).next_key == old(self).next_key,
            final(self)@ == delete_result(old(self)@, user, number).0,
            r == delete_result(old(self)@, user, number).1,
    {
        let i = match self.find_cart(user, number) {
            Some(i) => i,
            None => {
                return Err(AppError::CartNotFound);
            },
        };
        let ghost s0 = self@;
        self.carts.remove(i);
        proof {
            assert(self@ =~= s0.remove(i as int));
            assert forall|x: int, y: int|
                0 <= x < y < self@.len() implies (#[trigger] self@[x]).key != (
            #[trigger] self@[y]).key && !(self@[x].user_id == self@[y].user_id
                && self@[x].user_cart_id == self@[y].user_cart_id) by {
                let ox: int = if x < i { x } else { x + 1 };
                let oy: int = if y < i { y } else { y + 1 };
                assert(self@[x] == s0[ox]);
                assert(self@[y] == s0[oy]);
            }
            assert forall|x: int| 0 <= x < self@.len() implies (#[trigger] self@[x]).key
                < self.next_key && 1 <= self@[x].user_cart_id by {
                let ox: int = if x < i { x } else { x + 1 };
                assert(self@[x] == s0[ox]);
            }
            assert(store_wf(self@, self.next_key));
        }
        Ok(())
    }
}

} // verus!
