//! The world state from text: addresses, balances, code and storage as
//! they stand in a world file, once its structure has been read.

use crate::address::Address;
use crate::parse::{parse_h160, parse_h160_spec, parse_u256, parse_u256_spec};
use crate::text::{append_hex, digits_spec, hex_spec, parse_hex, parse_hex_spec};
use crate::word::Word;
use crate::world::{Account, AccountView, Storage, World};
use vstd::prelude::*;
use vstd::string::*;

verus! {

/// Why a world could not be read.
#[derive(Debug, Clone, Copy, PartialEq, Eq, Structural)]
pub enum WorldTextError {
    /// An account key is no address of 20 bytes.
    InvalidAccountKey,
    /// The code of an account is no hexadecimal text.
    InvalidCode,
    /// A storage key is no word.
    InvalidStorageKey,
    /// A storage value is no text, or no word.
    InvalidStorageValue,
}

/// One storage slot as text: the key, and the value where it is text.
pub struct SlotText {
    pub key: Vec<u8>,
    pub value: Option<Vec<u8>>,
}

/// One account as text. A field that is absent, or no text, is `None`.
pub struct AccountText {
    pub nonce: Option<u64>,
    pub balance: Option<Vec<u8>>,
    pub code: Option<Vec<u8>>,
    pub storage: Vec<SlotText>,
}

/// One entry of a world as text.
pub struct EntryText {
    pub key: Vec<u8>,
    pub account: AccountText,
}

/// The slot that a text denotes.
pub open spec fn slot_spec(slot: SlotText) -> Result<(Word, Word), WorldTextError> {
    match parse_u256_spec(slot.key@) {
        None => Err(WorldTextError::InvalidStorageKey),
        Some(k) => match slot.value {
            None => Err(WorldTextError::InvalidStorageValue),
            Some(text) => match parse_u256_spec(text@) {
                None => Err(WorldTextError::InvalidStorageValue),
                Some(v) => Ok((k, v)),
            },
        },
    }
}

/// The storage that a list of slots denotes; a later slot for a key
/// replaces an earlier one. The first slot that cannot be read decides the
/// error.
pub open spec fn storage_spec(slots: Seq<SlotText>) -> Result<Map<Word, Word>, WorldTextError>
    decreases slots.len(),
{
    if slots.len() == 0 {
        Ok(Map::empty())
    } else {
        match storage_spec(slots.drop_last()) {
            Err(e) => Err(e),
            Ok(m) => match slot_spec(slots.last()) {
                Err(e) => Err(e),
                Ok(kv) => Ok(m.insert(kv.0, kv.1)),
            },
        }
    }
}

/// The account that a text denotes: an absent nonce is zero, a balance that
/// is absent or no word is zero, absent code is empty.
pub open spec fn account_spec(text: AccountText) -> Result<AccountView, WorldTextError> {
    let nonce: u64 = match text.nonce {
        Some(n) => n,
        None => 0,
    };
    let balance = match text.balance {
        Some(b) => match parse_u256_spec(b@) {
            Some(w) => w,
            None => Word::zero_spec(),
        },
        None => Word::zero_spec(),
    };
    let code: Option<Seq<u8>> = match text.code {
        Some(c) => parse_hex_spec(c@),
        None => Some(Seq::empty()),
    };
    match code {
        None => Err(WorldTextError::InvalidCode),
        Some(code) => match storage_spec(text.storage@) {
            Err(e) => Err(e),
            Ok(storage) => Ok(
                AccountView { nonce: nonce, balance: balance, code: code, storage: storage },
            ),
        },
    }
}

/// The entry that a text denotes.
pub open spec fn entry_spec(entry: EntryText) -> Result<(Address, AccountView), WorldTextError> {
    match parse_h160_spec(entry.key@) {
        None => Err(WorldTextError::InvalidAccountKey),
        Some(addr) => match account_spec(entry.account) {
            Err(e) => Err(e),
            Ok(account) => Ok((addr, account)),
        },
    }
}

/// The world that a list of entries denotes; a later entry for an address
/// replaces an earlier one. The first entry that cannot be read decides the
/// error.
pub open spec fn world_spec(entries: Seq<EntryText>) -> Result<
    Map<Address, AccountView>,
    WorldTextError,
>
    decreases entries.len(),
{
    if entries.len() == 0 {
        Ok(Map::empty())
    } else {
        match world_spec(entries.drop_last()) {
            Err(e) => Err(e),
            Ok(m) => match entry_spec(entries.last()) {
                Err(e) => Err(e),
                Ok(kv) => Ok(m.insert(kv.0, kv.1)),
            },
        }
    }
}

fn slot_from_text(slot: &SlotText) -> (r: Result<(Word, Word), WorldTextError>)
    ensures
        r == slot_spec(*slot),
{
    match parse_u256(slot.key.as_slice()) {
        None => Err(WorldTextError::InvalidStorageKey),
        Some(k) => match &slot.value {
            None => Err(WorldTextError::InvalidStorageValue),
            Some(text) => match parse_u256(text.as_slice()) {
                None => Err(WorldTextError::InvalidStorageValue),
                Some(v) => Ok((k, v)),
            },
        },
    }
}

/// Reads the storage that a list of slots denotes.
pub fn storage_from_text(slots: &Vec<SlotText>) -> (r: Result<Storage, WorldTextError>)
    ensures
        match storage_spec(slots@) {
            Ok(m) => r is Ok && r->Ok_0@ == m && r->Ok_0.wf(),
            Err(e) => r == Err::<Storage, WorldTextError>(e),
        },
{
    let mut storage = Storage::new();
    let mut i: usize = 0;
    assert(slots@.subrange(0, 0) =~= Seq::<SlotText>::empty());
    while i < slots.len()
        invariant
            i <= slots@.len(),
            storage.wf(),
            storage_spec(slots@.subrange(0, i as int)) == Ok::<Map<Word, Word>, WorldTextError>(
                storage@,
            ),
        decreases slots@.len() - i,
    {
        let ghost longer = slots@.subrange(0, i + 1);
        assert(longer.drop_last() =~= slots@.subrange(0, i as int));
        assert(longer.last() == slots@[i as int]);
        match slot_from_text(&slots[i]) {
            Err(e) => {
                proof {
                    lemma_storage_error_stays(slots@, i + 1);
                }
                return Err(e);
            },
            Ok((k, v)) => {
                storage.insert(k, v);
            },
        }
        i = i + 1;
    }
    assert(slots@.subrange(0, i as int) =~= slots@);
    Ok(storage)
}

/// Once the first slots cannot be read, the whole list cannot, for the same
/// reason.
pub proof fn lemma_storage_error_stays(slots: Seq<SlotText>, i: int)
    requires
        0 <= i <= slots.len(),
        storage_spec(slots.subrange(0, i)) is Err,
    ensures
        storage_spec(slots) == storage_spec(slots.subrange(0, i)),
    decreases slots.len() - i,
{
    if i < slots.len() {
        let longer = slots.subrange(0, i + 1);
        assert(longer.drop_last() =~= slots.subrange(0, i));
        lemma_storage_error_stays(slots, i + 1);
    } else {
        assert(slots.subrange(0, i) =~= slots);
    }
}

/// Reads the account that a text denotes.
pub fn account_from_text(text: &AccountText) -> (r: Result<Account, WorldTextError>)
    ensures
        match account_spec(*text) {
            Ok(a) => r is Ok && r->Ok_0@ == a,
            Err(e) => r is Err && r->Err_0 == e,
        },
{
    let nonce: u64 = match text.nonce {
        Some(n) => n,
        None => 0,
    };
    let balance = match &text.balance {
        Some(b) => match parse_u256(b.as_slice()) {
            Some(w) => w,
            None => Word::zero(),
        },
        None => Word::zero(),
    };
    let code: Vec<u8> = match &text.code {
        Some(c) => match parse_hex(c.as_slice()) {
            Some(code) => code,
            None => {
                return Err(WorldTextError::InvalidCode);
            },
        },
        None => Vec::new(),
    };
    match storage_from_text(&text.storage) {
        Err(e) => Err(e),
        Ok(storage) => Ok(Account { nonce, balance, code, storage }),
    }
}

/// Once the first entries cannot be read, the whole list cannot, for the
/// same reason.
pub proof fn lemma_world_error_stays(entries: Seq<EntryText>, i: int)
    requires
        0 <= i <= entries.len(),
        world_spec(entries.subrange(0, i)) is Err,
    ensures
        world_spec(entries) == world_spec(entries.subrange(0, i)),
    decreases entries.len() - i,
{
    if i < entries.len() {
        let longer = entries.subrange(0, i + 1);
        assert(longer.drop_last() =~= entries.subrange(0, i));
        lemma_world_error_stays(entries, i + 1);
    } else {
        assert(entries.subrange(0, i) =~= entries);
    }
}

/// Reads the world that a list of entries denotes.
pub fn world_from_text(entries: &Vec<EntryText>) -> (r: Result<World, WorldTextError>)
    ensures
        match world_spec(entries@) {
            Ok(m) => r is Ok && r->Ok_0@ == m && r->Ok_0.wf(),
            Err(e) => r is Err && r->Err_0 == e,
        },
{
    let mut world = World::new();
    let mut i: usize = 0;
    assert(entries@.subrange(0, 0) =~= Seq::<EntryText>::empty());
    while i < entries.len()
        invariant
            i <= entries@.len(),
            world.wf(),
            world_spec(entries@.subrange(0, i as int)) == Ok::<
                Map<Address, AccountView>,
                WorldTextError,
            >(world@),
        decreases entries@.len() - i,
    {
        let ghost longer = entries@.subrange(0, i + 1);
        assert(longer.drop_last() =~= entries@.subrange(0, i as int));
        assert(longer.last() == entries@[i as int]);
        let addr = match parse_h160(entries[i].key.as_slice()) {
            Some(a) => a,
            None => {
                proof {
                    lemma_world_error_stays(entries@, i + 1);
                }
                return Err(WorldTextError::InvalidAccountKey);
            },
        };
        match account_from_text(&entries[i].account) {
            Err(e) => {
                proof {
                    lemma_world_error_stays(entries@, i + 1);
                }
                return Err(e);
            },
            Ok(account) => {
                world.insert(addr, account);
            },
        }
        i = i + 1;
    }
    assert(entries@.subrange(0, i as int) =~= entries@);
    Ok(world)
}

/// One account written out as text.
pub struct AccountDump {
    pub nonce: u64,
    pub balance: String,
    pub code: String,
    pub storage: Vec<(String, String)>,
}

/// One entry of a world written out as text.
pub struct EntryDump {
    pub address: String,
    pub account: AccountDump,
}

/// A word as text: `0x` and its hexadecimal digits without leading zeros.
pub open spec fn word_text(w: Word) -> Seq<char> {
    "0x"@ + digits_spec(w.value(), 16)
}

/// Bytes as text: `0x` and two hexadecimal digits for each byte.
pub open spec fn bytes_text(bytes: Seq<u8>) -> Seq<char> {
    "0x"@ + hex_spec(bytes)
}

/// Whether `dump` is `account` written out: nonce, balance and code, and
/// the storage slot by slot in the order of its pairs.
pub open spec fn is_account_dump(dump: AccountDump, account: Account) -> bool {
    &&& dump.nonce == account.nonce
    &&& dump.balance@ == word_text(account.balance)
    &&& dump.code@ == bytes_text(account.code@)
    &&& dump.storage@.len() == account.storage.pairs().len()
    &&& forall|j: int|
        0 <= j < dump.storage@.len() ==> (#[trigger] dump.storage@[j]).0@ == word_text(
            account.storage.pairs()[j].0,
        ) && dump.storage@[j].1@ == word_text(account.storage.pairs()[j].1)
}

/// Whether `dump` is the listing of a world written out, entry by entry.
pub open spec fn is_world_dump(dump: Seq<EntryDump>, listing: Seq<(Address, Account)>) -> bool {
    &&& dump.len() == listing.len()
    &&& forall|i: int|
        0 <= i < dump.len() ==> (#[trigger] dump[i]).address@ == bytes_text(
            listing[i].0.to_be_spec(),
        ) && is_account_dump(dump[i].account, listing[i].1)
}

fn word_to_text(w: &Word) -> (s: String)
    ensures
        s@ == word_text(*w),
{
    let mut s = String::from_str("0x");
    let digits = w.to_hex();
    s.append(digits.as_str());
    s
}

fn bytes_to_text(bytes: &[u8]) -> (s: String)
    ensures
        s@ == bytes_text(bytes@),
{
    let mut s = String::from_str("0x");
    append_hex(&mut s, bytes);
    s
}

/// Writes an account out as text.
pub fn account_to_text(account: &Account) -> (dump: AccountDump)
    ensures
        is_account_dump(dump, *account),
{
    let mut storage: Vec<(String, String)> = Vec::new();
    let mut j: usize = 0;
    let count = account.storage.len();
    while j < count
        invariant
            j <= count,
            count == account.storage.pairs().len(),
            storage@.len() == j,
            forall|k: int|
                0 <= k < j ==> (#[trigger] storage@[k]).0@ == word_text(
                    account.storage.pairs()[k].0,
                ) && storage@[k].1@ == word_text(account.storage.pairs()[k].1),
        decreases count - j,
    {
        let (key, value) = account.storage.entry_at(j);
        storage.push((word_to_text(&key), word_to_text(&value)));
        j = j + 1;
    }
    AccountDump {
        nonce: account.nonce,
        balance: word_to_text(&account.balance),
        code: bytes_to_text(account.code.as_slice()),
        storage,
    }
}

/// Writes a world out as text, in the order of its listing.
pub fn world_to_text(world: &World) -> (dump: Vec<EntryDump>)
    ensures
        is_world_dump(dump@, world.listing()),
{
    let mut dump: Vec<EntryDump> = Vec::new();
    let mut i: usize = 0;
    let count = world.len();
    while i < count
        invariant
            i <= count,
            count == world.listing().len(),
            dump@.len() == i,
            forall|k: int|
                0 <= k < i ==> (#[trigger] dump@[k]).address@ == bytes_text(
                    world.listing()[k].0.to_be_spec(),
                ) && is_account_dump(dump@[k].account, world.listing()[k].1),
        decreases count - i,
    {
        let address = world.address_at(i);
        let bytes = address.to_be_bytes();
        let entry = EntryDump {
            address: bytes_to_text(bytes.as_slice()),
            account: account_to_text(world.account_at(i)),
        };
        dump.push(entry);
        i = i + 1;
    }
    dump
}

} // verus!
