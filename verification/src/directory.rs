use vstd::prelude::*;

verus! {

/// A discount record as the discount authority reports it: an internal
/// identifier, the human-readable code, and the validity window, given as
/// two instants in seconds since the epoch.
#[derive(Debug)]
pub struct Discount {
    pub id: u32,
    pub code: String,
    pub valid_from: u64,
    pub valid_until: u64,
}

impl Discount {
    /// Whether the validity window contains the instant `now`.
    pub open spec fn spec_time_valid(&self, now: u64) -> bool {
        self.valid_from <= now <= self.valid_until
    }

    /// Decides whether the record may be attached at the instant `now`.
    pub fn is_time_valid(&self, now: u64) -> (r: bool)
        ensures
            r == self.spec_time_valid(now),
    {
        self.valid_from <= now && now <= self.valid_until
    }
}

/// What the three external authorities answer at one instant: the customers
/// and products that exist, the discount records that a code can resolve to,
/// and the current time. The pipeline and the repository read it; they never
/// change it.
pub struct Directory {
    pub customers: Vec<u32>,
    pub products: Vec<u32>,
    pub discounts: Vec<Discount>,
    pub now: u64,
}

impl Directory {
    /// The discount authority answers consistently: no two records share an
    /// identifier or a code.
    pub open spec fn wf(&self) -> bool {
        forall|i: int, j: int|
            #![trigger self.discounts@[i], self.discounts@[j]]
            0 <= i < j < self.discounts@.len() ==> self.discounts@[i].id != self.discounts@[j].id
                && self.discounts@[i].code@ != self.discounts@[j].code@
    }

    pub open spec fn spec_has_customer(&self, user: u32) -> bool {
        exists|i: int| 0 <= i < self.customers@.len() && self.customers@[i] == user
    }

    pub open spec fn spec_has_product(&self, product: u32) -> bool {
        exists|i: int| 0 <= i < self.products@.len() && self.products@[i] == product
    }

    pub open spec fn spec_has_code(&self, code: Seq<char>) -> bool {
        exists|i: int| 0 <= i < self.discounts@.len() && self.discounts@[i].code@ == code
    }

    /// Index of the record a code resolves to; meaningful only when
    /// `spec_has_code` holds, unique by `wf`.
    pub open spec fn spec_code_index(&self, code: Seq<char>) -> int {
        choose|i: int| 0 <= i < self.discounts@.len() && self.discounts@[i].code@ == code
    }

    pub open spec fn spec_has_discount_id(&self, id: u32) -> bool {
        exists|i: int| 0 <= i < self.discounts@.len() && self.discounts@[i].id == id
    }

    /// Index of the record a discount identifier resolves to; meaningful only
    /// when `spec_has_discount_id` holds, unique by `wf`.
    pub open spec fn spec_id_index(&self, id: u32) -> int {
        choose|i: int| 0 <= i < self.discounts@.len() && self.discounts@[i].id == id
    }

    /// A matching index is the index a code resolves to: `wf` allows only one.
    pub proof fn lemma_code_index_is(&self, code: Seq<char>, i: int)
        requires
            self.wf(),
            0 <= i < self.discounts@.len(),
            self.discounts@[i].code@ == code,
        ensures
            self.spec_has_code(code),
            self.spec_code_index(code) == i,
    {
        assert(self.spec_has_code(code));
        let j = self.spec_code_index(code);
        assert(0 <= j < self.discounts@.len() && self.discounts@[j].code@ == code);
        if i < j {
            assert(self.discounts@[i].code@ != self.discounts@[j].code@);
        } else if j < i {
            assert(self.discounts@[j].code@ != self.discounts@[i].code@);
        }
    }

    /// A matching index is the index an identifier resolves to: `wf` allows
    /// only one.
    pub proof fn lemma_id_index_is(&self, id: u32, i: int)
        requires
            self.wf(),
            0 <= i < self.discounts@.len(),
            self.discounts@[i].id == id,
        ensures
            self.spec_has_discount_id(id),
            self.spec_id_index(id) == i,
    {
        assert(self.spec_has_discount_id(id));
        let j = self.spec_id_index(id);
        assert(0 <= j < self.discounts@.len() && self.discounts@[j].id == id);
        if i < j {
            assert(self.discounts@[i].id != self.discounts@[j].id);
        } else if j < i {
            assert(self.discounts@[j].id != self.discounts@[i].id);
        }
    }

    /// Decides `wf`: whether the discount records are consistent, no two
    /// sharing an identifier or a code. Meant for the edge of the system,
    /// where a snapshot of the authorities enters from outside.
    pub fn check_wf(&self) -> (r: bool)
        ensures
            r == self.wf(),
    {
        let n = self.discounts.len();
        let mut i: usize = 0;
        while i < n
            invariant
                n == self.discounts@.len(),
                i <= n,
                forall|a: int, b: int|
                    #![trigger self.discounts@[a], self.discounts@[b]]
                    0 <= a < b < n && a < i ==> self.discounts@[a].id != self.discounts@[b].id
                        && self.discounts@[a].code@ != self.discounts@[b].code@,
            decreases n - i,
        {
            let mut j: usize = i + 1;
            while j < n
                invariant
                    n == self.discounts@.len(),
                    i < j <= n,
                    forall|b: int|
                        #![trigger self.discounts@[b]]
                        i < b < j ==> self.discounts@[i as int].id != self.discounts@[b].id
                            && self.discounts@[i as int].code@ != self.discounts@[b].code@,
                decreases n - j,
            {
                if self.discounts[i].id == self.discounts[j].id || self.discounts[i].code
                    == self.discounts[j].code {
                    return false;
                }
                j = j + 1;
            }
            i = i + 1;
        }
        true
    }

    /// Asks the customer authority whether the user exists.
    pub fn lookup_customer(&self, user: u32) -> (r: bool)
        ensures
            r == self.spec_has_customer(user),
    {
        let mut i: usize = 0;
        while i < self.customers.len()
            invariant
                i <= self.customers@.len(),
                forall|j: int| 0 <= j < i ==> self.customers@[j] != user,
            decreases self.customers@.len() - i,
        {
            if self.customers[i] == user {
                return true;
            }
            i = i + 1;
        }
        false
    }

    /// Asks the product authority whether the product exists.
    pub fn lookup_product(&self, product: u32) -> (r: bool)
        ensures
            r == self.spec_has_product(product),
    {
        let mut i: usize = 0;
        while i < self.products.len()
            invariant
                i <= self.products@.len(),
                forall|j: int| 0 <= j < i ==> self.products@[j] != product,
            decreases self.products@.len() - i,
        {
            if self.products[i] == product {
                return true;
            }
            i = i + 1;
        }
        false
    }

    /// Resolves a code at the discount authority; `None` is the soft miss.
    pub fn find_discount_by_code(&self, code: &String) -> (r: Option<usize>)
        requires
            self.wf(),
        ensures
            match r {
                Some(i) => i < self.discounts@.len() && self.discounts@[i as int].code@ == code@
                    && self.spec_has_code(code@) && self.spec_code_index(code@) == i,
                None => !self.spec_has_code(code@),
            },
    {
        let mut i: usize = 0;
        while i < self.discounts.len()
            invariant
                self.wf(),
                i <= self.discounts@.len(),
                forall|j: int|
                    #![trigger self.discounts@[j]]
                    0 <= j < i ==> self.discounts@[j].code@ != code@,
            decreases self.discounts@.len() - i,
        {
            if self.discounts[i].code == *code {
                proof {
                    self.lemma_code_index_is(code@, i as int);
                }
                return Some(i);
            }
            i = i + 1;
        }
        None
    }

    /// Resolves a stored discount identifier back to its record's index.
    pub fn find_discount_by_id(&self, id: u32) -> (r: Option<usize>)
        requires
            self.wf(),
        ensures
            match r {
                Some(i) => i < self.discounts@.len() && self.discounts@[i as int].id == id
                    && self.spec_has_discount_id(id) && self.spec_id_index(id) == i,
                None => !self.spec_has_discount_id(id),
            },
    {
        let mut i: usize = 0;
        while i < self.discounts.len()
            invariant
                self.wf(),
                i <= self.discounts@.len(),
                forall|j: int|
                    #![trigger self.discounts@[j]]
                    0 <= j < i ==> self.discounts@[j].id != id,
            decreases self.discounts@.len() - i,
        {
            if self.discounts[i].id == id {
                proof {
                    self.lemma_id_index_is(id, i as int);
                }
                return Some(i);
            }
            i = i + 1;
        }
        None
    }
}

} // verus!
