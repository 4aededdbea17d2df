//! Accounts and the world state: storage, balances, code and nonces.

use crate::address::Address;
use crate::assoc::{
    assoc_map, distinct_keys, last_index_of, lemma_last_index_is, lemma_last_index_of,
    lemma_push_entry, lemma_update_last,
};
use crate::word::Word;
use vstd::prelude::*;

verus! {

/// The storage of an account: a map from words to words, in which a key
/// that was never written reads as zero.
#[derive(Debug)]
pub struct Storage {
    entries: Vec<(Word, Word)>,
}

/// What a key reads as in a storage map: its value, or zero where it was
/// never written.
pub open spec fn storage_load(storage: Map<Word, Word>, key: Word) -> Word {
    if storage.contains_key(key) {
        storage[key]
    } else {
        Word::zero_spec()
    }
}

impl View for Storage {
    type V = Map<Word, Word>;

    closed spec fn view(&self) -> Map<Word, Word> {
        assoc_map(self.entries@)
    }
}

impl Storage {
    /// No key is held twice. A new storage has this, and writing keeps it.
    pub closed spec fn wf(&self) -> bool {
        distinct_keys(self.entries@)
    }

    /// The key/value pairs in the order in which their keys were first
    /// written.
    pub closed spec fn pairs(&self) -> Seq<(Word, Word)> {
        self.entries@
    }

    pub fn new() -> (s: Storage)
        ensures
            s@ == Map::<Word, Word>::empty(),
            s.pairs().len() == 0,
            s.wf(),
    {
        let s = Storage { entries: Vec::new() };
        assert(s@ =~= Map::<Word, Word>::empty());
        s
    }

    fn find(&self, key: &Word) -> (r: Option<usize>)
        ensures
            r is Some ==> r->0 == last_index_of(self.entries@, *key) && r->0 < self.entries@.len(),
            r is None ==> last_index_of(self.entries@, *key) == -1,
    {
        let mut i: usize = self.entries.len();
        while i > 0
            invariant
                i <= self.entries@.len(),
                forall|j: int| i <= j < self.entries@.len() ==> (#[trigger] self.entries@[j]).0 != *key,
            decreases i,
        {
            i = i - 1;
            if self.entries[i].0 == *key {
                proof {
                    lemma_last_index_is(self.entries@, *key, i as int);
                }
                return Some(i);
            }
        }
        proof {
            lemma_last_index_is(self.entries@, *key, -1);
        }
        None
    }

    /// The value written for `key`, if any.
    pub fn get(&self, key: &Word) -> (r: Option<Word>)
        ensures
            r is Some <==> self@.contains_key(*key),
            r is Some ==> r->0 == self@[*key],
    {
        match self.find(key) {
            Some(i) => Some(self.entries[i].1),
            None => None,
        }
    }

    /// What `key` reads as: zero where it was never written.
    pub fn load(&self, key: &Word) -> (r: Word)
        ensures
            r == storage_load(self@, *key),
    {
        match self.find(key) {
            Some(i) => self.entries[i].1,
            None => Word::zero(),
        }
    }

    /// Writes `val` for `key`.
    pub fn insert(&mut self, key: Word, val: Word)
        ensures
            final(self)@ == old(self)@.insert(key, val),
            old(self).wf() ==> final(self).wf(),
    {
        proof {
            lemma_push_entry(self.entries@, key, val);
        }
        match self.find(&key) {
            Some(i) => {
                proof {
                    lemma_update_last(self.entries@, key, val);
                }
                self.entries[i] = (key, val);
            },
            None => {
                self.entries.push((key, val));
            },
        }
    }

    /// Number of keys written.
    pub fn len(&self) -> (n: usize)
        ensures
            n == self.pairs().len(),
    {
        self.entries.len()
    }

    /// The `i`-th key with its value.
    pub fn entry_at(&self, i: usize) -> (r: (Word, Word))
        requires
            i < self.pairs().len(),
        ensures
            r == self.pairs()[i as int],
            self@.contains_key(r.0),
            self.wf() ==> self@[r.0] == r.1,
    {
        proof {
            lemma_last_index_of(self.entries@, self.entries@[i as int].0);
            if self.wf() {
                lemma_last_index_is(self.entries@, self.entries@[i as int].0, i as int);
            }
        }
        self.entries[i]
    }

    /// The pairs of a well-formed storage list its map: every key of the map
    /// is there with the value it reads as, and no key twice.
    pub proof fn lemma_pairs_list_the_map(&self)
        requires
            self.wf(),
        ensures
            distinct_keys(self.pairs()),
            forall|i: int|
                0 <= i < self.pairs().len() ==> self@.contains_key(
                    (#[trigger] self.pairs()[i]).0,
                ) && self@[self.pairs()[i].0] == self.pairs()[i].1,
            forall|k: Word|
                self@.contains_key(k) ==> exists|i: int|
                    0 <= i < self.pairs().len() && #[trigger] self.pairs()[i] == (k, self@[k]),
    {
        assert forall|i: int| 0 <= i < self.pairs().len() implies self@.contains_key(
            (#[trigger] self.pairs()[i]).0,
        ) && self@[self.pairs()[i].0] == self.pairs()[i].1 by {
            lemma_last_index_is(self.entries@, self.entries@[i].0, i);
        }
        assert forall|k: Word| self@.contains_key(k) implies exists|i: int|
            0 <= i < self.pairs().len() && #[trigger] self.pairs()[i] == (k, self@[k]) by {
            lemma_last_index_of(self.entries@, k);
            let i = last_index_of(self.entries@, k);
            assert(self.pairs()[i] == (k, self@[k]));
        }
    }
}

impl Clone for Storage {
    fn clone(&self) -> (r: Storage)
        ensures
            r@ == self@,
            r.pairs() == self.pairs(),
            r.wf() == self.wf(),
    {
        let mut entries: Vec<(Word, Word)> = Vec::new();
        let mut i: usize = 0;
        while i < self.entries.len()
            invariant
                i <= self.entries@.len(),
                entries@ == self.entries@.subrange(0, i as int),
            decreases self.entries@.len() - i,
        {
            entries.push(self.entries[i]);
            i = i + 1;
            assert(entries@ =~= self.entries@.subrange(0, i as int));
        }
        assert(entries@ =~= self.entries@);
        Storage { entries }
    }
}

/// An account: its nonce, balance, code and storage.
#[derive(Debug)]
pub struct Account {
    pub nonce: u64,
    pub balance: Word,
    pub code: Vec<u8>,
    pub storage: Storage,
}

/// What an account holds, as mathematical values.
pub struct AccountView {
    pub nonce: u64,
    pub balance: Word,
    pub code: Seq<u8>,
    pub storage: Map<Word, Word>,
}

impl View for Account {
    type V = AccountView;

    open spec fn view(&self) -> AccountView {
        AccountView {
            nonce: self.nonce,
            balance: self.balance,
            code: self.code@,
            storage: self.storage@,
        }
    }
}

/// The account that an address without an entry stands for: nonce and
/// balance zero, no code, empty storage.
pub open spec fn default_account() -> AccountView {
    AccountView {
        nonce: 0,
        balance: Word::zero_spec(),
        code: Seq::empty(),
        storage: Map::empty(),
    }
}

/// The account at `addr`: the default account where the world has no entry.
pub open spec fn account_of(world: Map<Address, AccountView>, addr: Address) -> AccountView {
    if world.contains_key(addr) {
        world[addr]
    } else {
        default_account()
    }
}

/// The world after `value` has moved from `from` to `to`, modulo 2^256.
/// Both accounts have an entry afterwards.
pub open spec fn transfer_spec(
    world: Map<Address, AccountView>,
    from: Address,
    to: Address,
    value: Word,
) -> Map<Address, AccountView> {
    let sender = account_of(world, from);
    let debited = world.insert(
        from,
        AccountView { balance: sender.balance.sub_spec(value), ..sender },
    );
    let receiver = account_of(debited, to);
    debited.insert(to, AccountView { balance: receiver.balance.add_spec(value), ..receiver })
}

/// The world after the account at `addr` got the code `code`.
pub open spec fn set_code_spec(
    world: Map<Address, AccountView>,
    addr: Address,
    code: Seq<u8>,
) -> Map<Address, AccountView> {
    world.insert(addr, AccountView { code: code, ..account_of(world, addr) })
}

/// The world after `val` was written for `key` in the storage of `addr`.
pub open spec fn store_spec(
    world: Map<Address, AccountView>,
    addr: Address,
    key: Word,
    val: Word,
) -> Map<Address, AccountView> {
    let account = account_of(world, addr);
    world.insert(addr, AccountView { storage: account.storage.insert(key, val), ..account })
}

/// The world after the nonce of `addr` went up by one, staying at
/// `u64::MAX` once there.
pub open spec fn bump_nonce_spec(
    world: Map<Address, AccountView>,
    addr: Address,
) -> Map<Address, AccountView> {
    let account = account_of(world, addr);
    let next: u64 = if account.nonce == u64::MAX {
        u64::MAX
    } else {
        (account.nonce + 1) as u64
    };
    world.insert(addr, AccountView { nonce: next, ..account })
}

impl Default for Account {
    fn default() -> (a: Account)
        ensures
            a@ == default_account(),
    {
        Account { nonce: 0, balance: Word::zero(), code: Vec::new(), storage: Storage::new() }
    }
}

impl Clone for Account {
    fn clone(&self) -> (a: Account)
        ensures
            a@ == self@,
    {
        let code = crate::bytes::copy_range(self.code.as_slice(), 0, self.code.len());
        assert(code@ =~= self.code@);
        Account {
            nonce: self.nonce,
            balance: self.balance,
            code,
            storage: self.storage.clone(),
        }
    }
}

/// The entries of a world with each account as mathematical values.
pub open spec fn entry_views(entries: Seq<(Address, Account)>) -> Seq<(Address, AccountView)> {
    Seq::new(entries.len(), |i: int| (entries[i].0, entries[i].1@))
}

/// The world state: a map from addresses to accounts. An address without an
/// entry stands for the default account.
#[derive(Debug)]
pub struct World {
    entries: Vec<(Address, Account)>,
}

impl View for World {
    type V = Map<Address, AccountView>;

    closed spec fn view(&self) -> Map<Address, AccountView> {
        assoc_map(entry_views(self.entries@))
    }
}

impl World {
    /// No address is held twice. A new world has this, and every method
    /// keeps it.
    pub closed spec fn wf(&self) -> bool {
        distinct_keys(entry_views(self.entries@))
    }

    /// The addresses with their accounts, in the order in which the
    /// addresses first got an entry.
    pub closed spec fn listing(&self) -> Seq<(Address, Account)> {
        self.entries@
    }

    /// The listing with each account as mathematical values.
    pub open spec fn pairs(&self) -> Seq<(Address, AccountView)> {
        entry_views(self.listing())
    }

    pub fn new() -> (w: World)
        ensures
            w@ == Map::<Address, AccountView>::empty(),
            w.pairs().len() == 0,
            w.wf(),
    {
        let w = World { entries: Vec::new() };
        assert(w@ =~= Map::<Address, AccountView>::empty());
        w
    }

    fn find(&self, addr: &Address) -> (r: Option<usize>)
        ensures
            r is Some ==> r->0 == last_index_of(entry_views(self.entries@), *addr) && r->0
                < self.entries@.len(),
            r is None ==> last_index_of(entry_views(self.entries@), *addr) == -1,
    {
        let ghost views = entry_views(self.entries@);
        let mut i: usize = self.entries.len();
        while i > 0
            invariant
                i <= self.entries@.len(),
                views == entry_views(self.entries@),
                forall|j: int| i <= j < views.len() ==> (#[trigger] views[j]).0 != *addr,
            decreases i,
        {
            i = i - 1;
            if self.entries[i].0 == *addr {
                proof {
                    lemma_last_index_is(views, *addr, i as int);
                }
                return Some(i);
            }
        }
        proof {
            lemma_last_index_is(views, *addr, -1);
        }
        None
    }

    /// The account held for `addr`, if any.
    pub fn get(&self, addr: &Address) -> (r: Option<&Account>)
        ensures
            r is Some <==> self@.contains_key(*addr),
            r is Some ==> r->0@ == self@[*addr],
    {
        match self.find(addr) {
            Some(i) => Some(&self.entries[i].1),
            None => None,
        }
    }

    /// Sets the account at `addr`.
    pub fn insert(&mut self, addr: Address, account: Account)
        ensures
            final(self)@ == old(self)@.insert(addr, account@),
            old(self).wf() ==> final(self).wf(),
    {
        let ghost views = entry_views(self.entries@);
        proof {
            lemma_push_entry(views, addr, account@);
        }
        match self.find(&addr) {
            Some(i) => {
                proof {
                    lemma_update_last(views, addr, account@);
                }
                self.entries[i] = (addr, account);
                assert(entry_views(self.entries@) =~= views.update(i as int, (addr, account@)));
            },
            None => {
                self.entries.push((addr, account));
                assert(entry_views(self.entries@) =~= views.push((addr, account@)));
            },
        }
    }

    /// A copy of the account at `addr`: the default account where there is
    /// no entry.
    pub fn account_or_default(&self, addr: &Address) -> (a: Account)
        ensures
            a@ == account_of(self@, *addr),
    {
        match self.get(addr) {
            Some(account) => account.clone(),
            None => Account::default(),
        }
    }

    /// The balance of `addr`.
    pub fn balance_of(&self, addr: &Address) -> (b: Word)
        ensures
            b == account_of(self@, *addr).balance,
    {
        match self.get(addr) {
            Some(account) => account.balance,
            None => Word::zero(),
        }
    }

    /// The nonce of `addr`.
    pub fn nonce_of(&self, addr: &Address) -> (n: u64)
        ensures
            n == account_of(self@, *addr).nonce,
    {
        match self.get(addr) {
            Some(account) => account.nonce,
            None => 0,
        }
    }

    /// A copy of the code of `addr`.
    pub fn code_of(&self, addr: &Address) -> (code: Vec<u8>)
        ensures
            code@ == account_of(self@, *addr).code,
    {
        match self.get(addr) {
            Some(account) => {
                let code = crate::bytes::copy_range(
                    account.code.as_slice(),
                    0,
                    account.code.len(),
                );
                assert(code@ =~= account.code@);
                code
            },
            None => Vec::new(),
        }
    }

    /// Length of the code of `addr`.
    pub fn code_len_of(&self, addr: &Address) -> (n: usize)
        ensures
            n == account_of(self@, *addr).code.len(),
    {
        match self.get(addr) {
            Some(account) => account.code.len(),
            None => 0,
        }
    }

    /// Moves `value` from `from` to `to`, modulo 2^256.
    pub fn transfer(&mut self, from: &Address, to: &Address, value: &Word)
        ensures
            final(self)@ == transfer_spec(old(self)@, *from, *to, *value),
            old(self).wf() ==> final(self).wf(),
    {
        let mut sender = self.account_or_default(from);
        sender.balance = sender.balance.wrapping_sub(*value);
        self.insert(*from, sender);
        let mut receiver = self.account_or_default(to);
        receiver.balance = receiver.balance.wrapping_add(*value);
        self.insert(*to, receiver);
    }

    /// Sets the code of `addr`.
    pub fn set_code(&mut self, addr: &Address, code: Vec<u8>)
        ensures
            final(self)@ == set_code_spec(old(self)@, *addr, code@),
            old(self).wf() ==> final(self).wf(),
    {
        let mut account = self.account_or_default(addr);
        account.code = code;
        self.insert(*addr, account);
    }

    /// Writes `val` for `key` in the storage of `addr`.
    pub fn store(&mut self, addr: &Address, key: Word, val: Word)
        ensures
            final(self)@ == store_spec(old(self)@, *addr, key, val),
            old(self).wf() ==> final(self).wf(),
    {
        let mut account = self.account_or_default(addr);
        account.storage.insert(key, val);
        self.insert(*addr, account);
    }

    /// Raises the nonce of `addr` by one, staying at `u64::MAX` once there.
    pub fn bump_nonce(&mut self, addr: &Address)
        ensures
            final(self)@ == bump_nonce_spec(old(self)@, *addr),
            old(self).wf() ==> final(self).wf(),
    {
        let mut account = self.account_or_default(addr);
        if account.nonce < u64::MAX {
            account.nonce = account.nonce + 1;
        }
        self.insert(*addr, account);
    }

    /// Number of addresses with an entry.
    pub fn len(&self) -> (n: usize)
        ensures
            n == self.pairs().len(),
    {
        self.entries.len()
    }

    /// The `i`-th address.
    pub fn address_at(&self, i: usize) -> (a: Address)
        requires
            i < self.pairs().len(),
        ensures
            a == self.listing()[i as int].0,
            self@.contains_key(a),
    {
        proof {
            lemma_last_index_of(entry_views(self.entries@), entry_views(self.entries@)[i as int].0);
        }
        self.entries[i].0
    }

    /// The account of the `i`-th address.
    pub fn account_at(&self, i: usize) -> (a: &Account)
        requires
            i < self.pairs().len(),
        ensures
            *a == self.listing()[i as int].1,
            self.wf() ==> self@[self.listing()[i as int].0] == a@,
    {
        proof {
            if self.wf() {
                lemma_last_index_is(
                    entry_views(self.entries@),
                    entry_views(self.entries@)[i as int].0,
                    i as int,
                );
            }
        }
        &self.entries[i].1
    }
}

impl Clone for World {
    fn clone(&self) -> (w: World)
        ensures
            w@ == self@,
            w.pairs() == self.pairs(),
            w.wf() == self.wf(),
    {
        let mut entries: Vec<(Address, Account)> = Vec::new();
        let mut i: usize = 0;
        while i < self.entries.len()
            invariant
                i <= self.entries@.len(),
                entry_views(entries@) == entry_views(self.entries@).subrange(0, i as int),
            decreases self.entries@.len() - i,
        {
            let ghost before = entries@;
            let account = self.entries[i].1.clone();
            entries.push((self.entries[i].0, account));
            i = i + 1;
            assert(entry_views(entries@) =~= entry_views(self.entries@).subrange(0, i as int)) by {
                assert(entry_views(before) == entry_views(self.entries@).subrange(0, i - 1));
                assert forall|j: int| 0 <= j < i implies entry_views(entries@)[j] == entry_views(
                    self.entries@,
                )[j] by {
                    if j < i - 1 {
                        assert(entry_views(before)[j] == entry_views(self.entries@).subrange(
                            0,
                            i - 1,
                        )[j]);
                        assert(entries@[j] == before[j]);
                    }
                }
            }
        }
        assert(entry_views(entries@) =~= entry_views(self.entries@));
        World { entries }
    }
}

} // verus!
