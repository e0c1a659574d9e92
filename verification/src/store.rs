//! The explicit key-value record store the transitions run against.
//!
//! Every persisted record is a stored account: an address, a native-currency
//! balance (lamports, covering storage rent and accumulated tips), a flag
//! saying whether the record belongs to this ledger's namespace, and its
//! encoded bytes. The store holds at most one account per address; the
//! transitions are its only mutators, apart from the registration of
//! foreign accounts that the ledger does not own.

use vstd::prelude::*;

use crate::address::Address;
use crate::codec::spec_decode_profile;
use crate::errors::TxError;

verus! {

/// One persisted account: a record's address, its native-currency holding,
/// whether it belongs to this ledger's namespace, and its encoded bytes.
pub struct StoredAccount {
    pub address: Address,
    pub lamports: u64,
    pub program_owned: bool,
    pub data: Vec<u8>,
}

/// Mathematical model of a stored account.
pub struct StoredAccountView {
    pub address: Address,
    pub lamports: u64,
    pub program_owned: bool,
    pub data: Seq<u8>,
}

impl View for StoredAccount {
    type V = StoredAccountView;

    open spec fn view(&self) -> StoredAccountView {
        StoredAccountView {
            address: self.address,
            lamports: self.lamports,
            program_owned: self.program_owned,
            data: self.data@,
        }
    }
}

/// The first account in `s` stored at `a`, reading front to back.
pub open spec fn lookup(s: Seq<StoredAccountView>, a: Address) -> Option<StoredAccountView>
    decreases s.len(),
{
    if s.len() == 0 {
        None
    } else if s[0].address == a {
        Some(s[0])
    } else {
        lookup(s.drop_first(), a)
    }
}

/// No two accounts share an address.
pub open spec fn unique_addresses(s: Seq<StoredAccountView>) -> bool {
    forall|i: int, j: int| 0 <= i < j < s.len() ==> s[i].address != s[j].address
}

/// An account of the ledger's namespace that holds a profile record keeps
/// enough native currency to cover the profile's withdrawable balance.
pub open spec fn entry_funds_ok(e: StoredAccountView) -> bool {
    e.program_owned ==> match spec_decode_profile(e.data) {
        Some(p) => p.balance <= e.lamports,
        None => true,
    }
}

/// Every account covers the balance its record promises.
pub open spec fn funds_ok(s: Seq<StoredAccountView>) -> bool {
    forall|i: int| 0 <= i < s.len() ==> entry_funds_ok(#[trigger] s[i])
}

/// The store without the first account held at `a`; the store itself when
/// nothing is.
pub open spec fn remove_addr(s: Seq<StoredAccountView>, a: Address) -> Seq<StoredAccountView>
    decreases s.len(),
{
    if s.len() == 0 {
        s
    } else if s[0].address == a {
        s.drop_first()
    } else {
        seq![s[0]] + remove_addr(s.drop_first(), a)
    }
}

/// Removing by address is removing the index the address resolves to, and
/// a no-op when the address is free.
pub proof fn lemma_remove_addr_is_remove(s: Seq<StoredAccountView>, a: Address)
    requires
        unique_addresses(s),
    ensures
        match lookup(s, a) {
            Some(e) => exists|i: int|
                0 <= i < s.len() && (#[trigger] s[i]).address == a && remove_addr(s, a) == s.remove(
                    i,
                ),
            None => remove_addr(s, a) == s,
        },
    decreases s.len(),
{
    if s.len() == 0 {
    } else if s[0].address == a {
        assert(remove_addr(s, a) =~= s.remove(0));
        assert(s[0].address == a && remove_addr(s, a) == s.remove(0));
    } else {
        lemma_unique_drop_first(s);
        lemma_remove_addr_is_remove(s.drop_first(), a);
        match lookup(s.drop_first(), a) {
            Some(e) => {
                let t = s.drop_first();
                let i = choose|i: int|
                    0 <= i < t.len() && (#[trigger] t[i]).address == a && remove_addr(t, a)
                        == t.remove(i);
                assert(s[i + 1].address == a);
                assert(remove_addr(s, a) =~= s.remove(i + 1));
            },
            None => {
                assert(remove_addr(s, a) =~= s);
            },
        }
    }
}

/// What removing by address leaves: exactly the removed address becomes a
/// miss, every other account stays, and the store's invariants survive.
pub proof fn lemma_remove_addr_properties(s: Seq<StoredAccountView>, a: Address)
    requires
        unique_addresses(s),
    ensures
        unique_addresses(remove_addr(s, a)),
        funds_ok(s) ==> funds_ok(remove_addr(s, a)),
        forall|x: Address|
            #![auto]
            lookup(remove_addr(s, a), x) == (if x == a {
                None::<StoredAccountView>
            } else {
                lookup(s, x)
            }),
        lookup(s, a) is Some ==> remove_addr(s, a).len() == s.len() - 1,
        lookup(s, a) is None ==> remove_addr(s, a) == s,
{
    lemma_remove_addr_is_remove(s, a);
    match lookup(s, a) {
        Some(e) => {
            let i = choose|i: int|
                0 <= i < s.len() && (#[trigger] s[i]).address == a && remove_addr(s, a)
                    == s.remove(i);
            lemma_unique_remove(s, i);
            assert forall|x: Address| #![auto] lookup(remove_addr(s, a), x) == (if x == a {
                None::<StoredAccountView>
            } else {
                lookup(s, x)
            }) by {
                lemma_lookup_remove(s, i, x);
            }
            if funds_ok(s) {
                assert forall|k: int| 0 <= k < remove_addr(s, a).len() implies entry_funds_ok(
                    #[trigger] remove_addr(s, a)[k],
                ) by {
                    if k < i {
                        assert(remove_addr(s, a)[k] == s[k]);
                    } else {
                        assert(remove_addr(s, a)[k] == s[k + 1]);
                    }
                }
            }
        },
        None => {},
    }
}

/// A found account is really there, and a miss means no account matches.
pub proof fn lemma_lookup_index(s: Seq<StoredAccountView>, a: Address)
    ensures
        match lookup(s, a) {
            Some(e) => exists|i: int| 0 <= i < s.len() && s[i] == e && (#[trigger] s[i]).address
                == a,
            None => forall|i: int| 0 <= i < s.len() ==> (#[trigger] s[i]).address != a,
        },
    decreases s.len(),
{
    if s.len() == 0 {
    } else if s[0].address == a {
        assert(s[0] == s[0] && s[0].address == a);
    } else {
        lemma_lookup_index(s.drop_first(), a);
        match lookup(s.drop_first(), a) {
            Some(e) => {
                let t = s.drop_first();
                let i = choose|i: int|
                    0 <= i < t.len() && t[i] == e && (#[trigger] t[i]).address == a;
                assert(s[i + 1] == e && s[i + 1].address == a);
            },
            None => {
                assert forall|i: int| 0 <= i < s.len() implies (#[trigger] s[i]).address != a by {
                    if i > 0 {
                        assert(s.drop_first()[i - 1] == s[i]);
                    }
                }
            },
        }
    }
}

/// The account at the first index whose address matches is the one the
/// lookup returns.
pub proof fn lemma_lookup_first(s: Seq<StoredAccountView>, i: int)
    requires
        0 <= i < s.len(),
        forall|j: int| 0 <= j < i ==> (#[trigger] s[j]).address != s[i].address,
    ensures
        lookup(s, s[i].address) == Some(s[i]),
    decreases s.len(),
{
    if i == 0 {
    } else {
        assert(s[0].address != s[i].address);
        assert forall|j: int| 0 <= j < i - 1 implies (#[trigger] s.drop_first()[j]).address
            != s.drop_first()[i - 1].address by {
            assert(s.drop_first()[j] == s[j + 1]);
            assert(s.drop_first()[i - 1] == s[i]);
        }
        lemma_lookup_first(s.drop_first(), i - 1);
        assert(s.drop_first()[i - 1] == s[i]);
    }
}

/// How appending an account changes lookups: an occupied address keeps its
/// account, the new account's address now resolves, all else stays a miss.
pub proof fn lemma_lookup_push(s: Seq<StoredAccountView>, e: StoredAccountView, a: Address)
    ensures
        lookup(s.push(e), a) == (if lookup(s, a) is Some {
            lookup(s, a)
        } else if e.address == a {
            Some(e)
        } else {
            None::<StoredAccountView>
        }),
    decreases s.len(),
{
    if s.len() == 0 {
        assert(s.push(e)[0] == e);
        assert(s.push(e).drop_first() =~= Seq::<StoredAccountView>::empty());
    } else {
        assert(s.push(e)[0] == s[0]);
        assert(s.push(e).drop_first() =~= s.drop_first().push(e));
        lemma_lookup_push(s.drop_first(), e, a);
    }
}

/// Replacing the account at an index (keeping its address) changes only the
/// lookup of that address.
pub proof fn lemma_lookup_update(
    s: Seq<StoredAccountView>,
    i: int,
    e: StoredAccountView,
    a: Address,
)
    requires
        0 <= i < s.len(),
        unique_addresses(s),
        e.address == s[i].address,
    ensures
        lookup(s.update(i, e), a) == (if a == e.address {
            Some(e)
        } else {
            lookup(s, a)
        }),
    decreases s.len(),
{
    if i == 0 {
        assert(s.update(0, e)[0] == e);
        if a != e.address {
            assert(s.update(0, e).drop_first() =~= s.drop_first());
        }
    } else {
        assert(s.update(i, e)[0] == s[0]);
        assert(s[0].address != s[i].address);
        if s[0].address == a {
        } else {
            assert(s.update(i, e).drop_first() =~= s.drop_first().update(i - 1, e));
            lemma_unique_drop_first(s);
            assert(s.drop_first()[i - 1] == s[i]);
            lemma_lookup_update(s.drop_first(), i - 1, e, a);
        }
    }
}

/// Removing the account at an index makes exactly its address a miss.
pub proof fn lemma_lookup_remove(s: Seq<StoredAccountView>, i: int, a: Address)
    requires
        0 <= i < s.len(),
        unique_addresses(s),
    ensures
        lookup(s.remove(i), a) == (if a == s[i].address {
            None::<StoredAccountView>
        } else {
            lookup(s, a)
        }),
    decreases s.len(),
{
    if i == 0 {
        assert(s.remove(0) =~= s.drop_first());
        if a == s[0].address {
            lemma_lookup_index(s.drop_first(), a);
            match lookup(s.drop_first(), a) {
                Some(e) => {
                    let k = choose|k: int|
                        0 <= k < s.drop_first().len() && s.drop_first()[k] == e
                            && (#[trigger] s.drop_first()[k]).address == a;
                    assert(s[k + 1].address == a);
                    assert(false);
                },
                None => {},
            }
        }
    } else {
        assert(s.remove(i)[0] == s[0]);
        if s[0].address == a {
            assert(s[0].address != s[i].address);
        } else {
            assert(s.remove(i).drop_first() =~= s.drop_first().remove(i - 1));
            lemma_unique_drop_first(s);
            assert(s.drop_first()[i - 1] == s[i]);
            lemma_lookup_remove(s.drop_first(), i - 1, a);
        }
    }
}

/// Dropping the front account keeps addresses unique.
pub proof fn lemma_unique_drop_first(s: Seq<StoredAccountView>)
    requires
        unique_addresses(s),
        s.len() > 0,
    ensures
        unique_addresses(s.drop_first()),
{
    assert forall|i: int, j: int| 0 <= i < j < s.drop_first().len() implies s.drop_first()[i].address
        != s.drop_first()[j].address by {
        assert(s.drop_first()[i] == s[i + 1]);
        assert(s.drop_first()[j] == s[j + 1]);
    }
}

/// Appending an account at a fresh address keeps addresses unique.
pub proof fn lemma_unique_push(s: Seq<StoredAccountView>, e: StoredAccountView)
    requires
        unique_addresses(s),
        lookup(s, e.address) is None,
    ensures
        unique_addresses(s.push(e)),
{
    lemma_lookup_index(s, e.address);
    assert forall|i: int, j: int| 0 <= i < j < s.push(e).len() implies s.push(e)[i].address
        != s.push(e)[j].address by {
        if j < s.len() {
            assert(s.push(e)[i] == s[i] && s.push(e)[j] == s[j]);
        } else {
            assert(s.push(e)[i] == s[i] && s.push(e)[j] == e);
        }
    }
}

/// Replacing an account without changing its address keeps addresses unique.
pub proof fn lemma_unique_update(s: Seq<StoredAccountView>, i: int, e: StoredAccountView)
    requires
        0 <= i < s.len(),
        unique_addresses(s),
        e.address == s[i].address,
    ensures
        unique_addresses(s.update(i, e)),
{
    assert forall|x: int, y: int| 0 <= x < y < s.update(i, e).len() implies s.update(
        i,
        e,
    )[x].address != s.update(i, e)[y].address by {
        assert(s[x].address != s[y].address);
    }
}

/// Removing an account keeps addresses unique.
pub proof fn lemma_unique_remove(s: Seq<StoredAccountView>, i: int)
    requires
        0 <= i < s.len(),
        unique_addresses(s),
    ensures
        unique_addresses(s.remove(i)),
{
    assert forall|x: int, y: int| 0 <= x < y < s.remove(i).len() implies s.remove(i)[x].address
        != s.remove(i)[y].address by {
        let xs = if x < i {
            x
        } else {
            x + 1
        };
        let ys = if y < i {
            y
        } else {
            y + 1
        };
        assert(s.remove(i)[x] == s[xs]);
        assert(s.remove(i)[y] == s[ys]);
    }
}

/// The record store: every persisted account, addressed by derivation, with
/// at most one account per address.
pub struct Ledger {
    accounts: Vec<StoredAccount>,
}

impl View for Ledger {
    type V = Seq<StoredAccountView>;

    closed spec fn view(&self) -> Seq<StoredAccountView> {
        self.accounts@.map_values(|e: StoredAccount| e@)
    }
}

impl Ledger {
    /// The store's standing invariant: one account per address, and every
    /// profile record's balance covered by its account's native currency.
    pub open spec fn wf(self) -> bool {
        unique_addresses(self@) && funds_ok(self@)
    }

    /// An empty store.
    pub fn new() -> (l: Ledger)
        ensures
            l@ == Seq::<StoredAccountView>::empty(),
            l.wf(),
    {
        let l = Ledger { accounts: Vec::new() };
        proof {
            assert(l@ =~= Seq::<StoredAccountView>::empty());
        }
        l
    }

    /// How many accounts the store holds.
    pub fn len(&self) -> (n: usize)
        ensures
            n == self@.len(),
    {
        self.accounts.len()
    }

    /// The index of the account stored at `a`, if any.
    pub(crate) fn find_index(&self, a: &Address) -> (r: Option<usize>)
        ensures
            match r {
                Some(i) => i < self@.len() && self@[i as int].address == *a && lookup(self@, *a)
                    == Some(self@[i as int]),
                None => lookup(self@, *a) is None,
            },
    {
        let n = self.accounts.len();
        let mut k: usize = 0;
        while k < n
            invariant
                n == self.accounts.len(),
                k <= n,
                self@.len() == n,
                forall|j: int| 0 <= j < k ==> (#[trigger] self@[j]).address != *a,
            decreases n - k,
        {
            proof {
                assert(self@[k as int] == self.accounts@[k as int]@);
            }
            if self.accounts[k].address == *a {
                proof {
                    lemma_lookup_first(self@, k as int);
                }
                return Some(k);
            }
            k = k + 1;
        }
        proof {
            lemma_lookup_index(self@, *a);
            match lookup(self@, *a) {
                Some(e) => {
                    assert(false);
                },
                None => {},
            }
        }
        None
    }

    /// The account at index `i`.
    pub(crate) fn entry_at(&self, i: usize) -> (e: &StoredAccount)
        requires
            i < self@.len(),
        ensures
            e@ == self@[i as int],
    {
        proof {
            assert(self@[i as int] == self.accounts@[i as int]@);
        }
        &self.accounts[i]
    }

    /// The account stored at `a`, if any.
    pub fn get(&self, a: &Address) -> (r: Option<&StoredAccount>)
        ensures
            match r {
                Some(e) => lookup(self@, *a) == Some(e@),
                None => lookup(self@, *a) is None,
            },
    {
        match self.find_index(a) {
            Some(i) => {
                proof {
                    assert(self@[i as int] == self.accounts@[i as int]@);
                }
                Some(&self.accounts[i])
            },
            None => None,
        }
    }

    /// Append an account at an address nothing occupies.
    pub(crate) fn insert_new(&mut self, e: StoredAccount)
        requires
            old(self).wf(),
            lookup(old(self)@, e.address) is None,
            entry_funds_ok(e@),
        ensures
            final(self)@ == old(self)@.push(e@),
            final(self).wf(),
    {
        proof {
            lemma_unique_push(self@, e@);
        }
        let ghost prev = self@;
        self.accounts.push(e);
        proof {
            assert(self@ =~= prev.push(self.accounts@.last()@));
            assert forall|i: int| 0 <= i < self@.len() implies entry_funds_ok(
                #[trigger] self@[i],
            ) by {
                if i < prev.len() {
                    assert(self@[i] == prev[i]);
                }
            }
        }
    }

    /// Replace the account at index `i` without moving it to a new address.
    pub(crate) fn set_entry(&mut self, i: usize, e: StoredAccount)
        requires
            old(self).wf(),
            i < old(self)@.len(),
            e.address == old(self)@[i as int].address,
            entry_funds_ok(e@),
        ensures
            final(self)@ == old(self)@.update(i as int, e@),
            final(self).wf(),
    {
        proof {
            lemma_unique_update(self@, i as int, e@);
        }
        let ghost prev = self@;
        self.accounts.set(i, e);
        proof {
            assert(self@ =~= prev.update(i as int, self.accounts@[i as int]@));
            assert forall|k: int| 0 <= k < self@.len() implies entry_funds_ok(
                #[trigger] self@[k],
            ) by {
                if k != i {
                    assert(self@[k] == prev[k]);
                }
            }
        }
    }

    /// Remove the account at index `i` from the store.
    pub(crate) fn remove_entry(&mut self, i: usize) -> (e: StoredAccount)
        requires
            old(self).wf(),
            i < old(self)@.len(),
        ensures
            final(self)@ == old(self)@.remove(i as int),
            e@ == old(self)@[i as int],
            final(self).wf(),
    {
        proof {
            lemma_unique_remove(self@, i as int);
        }
        let ghost prev = self@;
        let e = self.accounts.remove(i);
        proof {
            assert(self@ =~= prev.remove(i as int));
            assert forall|k: int| 0 <= k < self@.len() implies entry_funds_ok(
                #[trigger] self@[k],
            ) by {
                if k < i {
                    assert(self@[k] == prev[k]);
                } else {
                    assert(self@[k] == prev[k + 1]);
                }
            }
        }
        e
    }

    /// Record an account that lies outside the ledger's namespace (an
    /// arbitrary neighbour in the wider store). Fails when the address is
    /// already occupied, leaving the store unchanged.
    pub fn register_foreign_account(
        &mut self,
        address: Address,
        lamports: u64,
        data: Vec<u8>,
    ) -> (r: Result<(), TxError>)
        requires
            old(self).wf(),
        ensures
            final(self).wf(),
            match r {
                Ok(()) => lookup(old(self)@, address) is None && final(self)@ == old(
                    self,
                )@.push(
                    StoredAccountView { address, lamports, program_owned: false, data: data@ },
                ),
                Err(e) => e == TxError::AddressCollision && lookup(old(self)@, address) is Some
                    && final(self)@ == old(self)@,
            },
    {
        match self.find_index(&address) {
            Some(_) => Err(TxError::AddressCollision),
            None => {
                let e = StoredAccount { address, lamports, program_owned: false, data };
                self.insert_new(e);
                Ok(())
            },
        }
    }
}

} // verus!
