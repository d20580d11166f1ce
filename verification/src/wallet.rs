//! Creating a wallet from a mnemonic: the seed, the list of wallets, and
//! what is written to storage.

use vstd::prelude::*;
use vstd::string::*;
use crate::hexcode::{hex_text, to_hex};

verus! {

/// The names of the wallets that exist.
#[derive(Clone, Debug, PartialEq, Eq)]
pub struct ListOfWallets {
    pub names: Vec<String>,
}

/// One item to write to storage.
#[derive(Clone, Debug, PartialEq, Eq)]
pub struct StorageEntry {
    pub key: String,
    pub value: String,
}

/// Why no wallet was created.
#[derive(Clone, Copy, Debug, PartialEq, Eq, Structural)]
pub enum WalletError {
    /// A wallet of that name exists.
    AlreadyExists,
    /// The words are no mnemonic.
    InvalidMnemonic,
}

/// The seed that BIP 39 derives from a mnemonic phrase and a passphrase,
/// or nothing where the phrase is no mnemonic.
pub uninterp spec fn bip39_seed(phrase: Seq<char>, passphrase: Seq<char>) -> Option<Seq<u8>>;

/// `bip39::Mnemonic::parse` and then `bip39::Mnemonic::to_seed`, which are
/// not verified here: the claim is that the seed depends on the phrase and
/// the passphrase alone, that there is none exactly when the phrase does
/// not parse, and that a seed has 64 bytes.
#[verifier::external_body]
pub(crate) fn seed_from_phrase(phrase: &str, passphrase: &str) -> (seed: Option<Vec<u8>>)
    ensures
        match seed {
            Some(bytes) => bip39_seed(phrase@, passphrase@) == Some(bytes@) && bytes@.len() == 64,
            None => bip39_seed(phrase@, passphrase@).is_none(),
        },
{
    match bip39::Mnemonic::parse(phrase) {
        Ok(mnemonic) => Some(mnemonic.to_seed(passphrase).to_vec()),
        Err(_) => None,
    }
}

/// Some wallet in the list has the name.
pub open spec fn has_name(names: Seq<String>, name: Seq<char>) -> bool {
    exists|i: int| 0 <= i < names.len() && (#[trigger] names[i])@ == name
}

/// The storage key of a wallet's password hash.
pub open spec fn password_key(name: Seq<char>) -> Seq<char> {
    "wallets."@ + name + ".password"@
}

/// The storage key of a wallet's encrypted extended private key.
pub open spec fn xprv_key(name: Seq<char>) -> Seq<char> {
    "wallets."@ + name + ".xprv"@
}

/// Salt and encrypted key in hexadecimal, with a dollar sign between them.
pub open spec fn xprv_value(sk_salt: Seq<u8>, encrypted_xprv: Seq<u8>) -> Seq<char> {
    hex_text(sk_salt) + "$"@ + hex_text(encrypted_xprv)
}

impl ListOfWallets {
    /// Whether a wallet of that name exists.
    pub fn has(&self, name: &str) -> (found: bool)
        ensures
            found == has_name(self.names@, name@),
    {
        let wanted = String::from_str(name);
        let mut i: usize = 0;
        while i < self.names.len()
            invariant
                i <= self.names.len(),
                wanted@ == name@,
                forall|k: int| 0 <= k < i ==> (#[trigger] self.names@[k])@ != name@,
            decreases self.names.len() - i,
        {
            if self.names[i] == wanted {
                return true;
            }
            i += 1;
        }
        false
    }

    /// Adds a name to the list.
    pub fn add(&mut self, name: String)
        ensures
            final(self).names@ == old(self).names@.push(name),
    {
        self.names.push(name);
    }
}

/// What creating a wallet answers once the seed is derived.
pub open spec fn creation_outcome(
    names: Seq<String>,
    name: Seq<char>,
    seed: Option<Seq<u8>>,
) -> Result<Seq<u8>, WalletError> {
    if has_name(names, name) {
        Err(WalletError::AlreadyExists)
    } else {
        match seed {
            Some(bytes) => Ok(bytes),
            None => Err(WalletError::InvalidMnemonic),
        }
    }
}

/// Decides on the creation of a wallet from what the mnemonic gave.
pub fn seed_for_new_wallet(wallets: &ListOfWallets, name: &str, seed: Option<Vec<u8>>) -> (outcome: Result<Vec<u8>, WalletError>)
    ensures
        match outcome {
            Ok(bytes) => creation_outcome(
                wallets.names@,
                name@,
                match seed {
                    Some(given) => Some(given@),
                    None => None,
                },
            ) == Ok::<Seq<u8>, WalletError>(bytes@),
            Err(why) => creation_outcome(
                wallets.names@,
                name@,
                match seed {
                    Some(given) => Some(given@),
                    None => None,
                },
            ) == Err::<Seq<u8>, WalletError>(why),
        },
{
    if wallets.has(name) {
        return Err(WalletError::AlreadyExists);
    }
    match seed {
        Some(bytes) => Ok(bytes),
        None => Err(WalletError::InvalidMnemonic),
    }
}

/// The secret key seed of a new wallet: the seed of the mnemonic under
/// the wallet's password, unless a wallet of that name exists or the
/// words are no mnemonic.
pub fn create_from_bip39(wallets: &ListOfWallets, name: &str, mnemonic: &str, password: &str) -> (outcome: Result<Vec<u8>, WalletError>)
    ensures
        match outcome {
            Ok(bytes) => creation_outcome(wallets.names@, name@, bip39_seed(mnemonic@, password@))
                == Ok::<Seq<u8>, WalletError>(bytes@) && bytes@.len() == 64,
            Err(why) => creation_outcome(wallets.names@, name@, bip39_seed(mnemonic@, password@))
                == Err::<Seq<u8>, WalletError>(why),
        },
{
    let seed = seed_from_phrase(mnemonic, password);
    seed_for_new_wallet(wallets, name, seed)
}

/// Enters a new wallet in the list and says what to write to storage for
/// it: its password hash, and its salt and encrypted key.
pub fn store_new_wallet(
    wallets: &mut ListOfWallets,
    name: &str,
    hashed_password: String,
    sk_salt: &Vec<u8>,
    encrypted_xprv: &Vec<u8>,
) -> (entries: Result<Vec<StorageEntry>, WalletError>)
    ensures
        has_name(old(wallets).names@, name@) ==> entries.is_err() && final(wallets).names@ == old(
            wallets,
        ).names@,
        entries.is_err() ==> entries == Err::<Vec<StorageEntry>, WalletError>(
            WalletError::AlreadyExists,
        ),
        !has_name(old(wallets).names@, name@) ==> {
            &&& entries.is_ok()
            &&& final(wallets).names@.len() == old(wallets).names@.len() + 1
            &&& final(wallets).names@.drop_last() == old(wallets).names@
            &&& final(wallets).names@.last()@ == name@
            &&& entries.unwrap()@.len() == 2
            &&& entries.unwrap()@[0].key@ == password_key(name@)
            &&& entries.unwrap()@[0].value@ == hashed_password@
            &&& entries.unwrap()@[1].key@ == xprv_key(name@)
            &&& entries.unwrap()@[1].value@ == xprv_value(sk_salt@, encrypted_xprv@)
        },
{
    if wallets.has(name) {
        return Err(WalletError::AlreadyExists);
    }
    let mut password_at = String::from_str("wallets.");
    password_at.append(name);
    password_at.append(".password");
    let mut xprv_at = String::from_str("wallets.");
    xprv_at.append(name);
    xprv_at.append(".xprv");
    let mut sealed = to_hex(sk_salt);
    sealed.append("$");
    let key_text = to_hex(encrypted_xprv);
    sealed.append(key_text.as_str());
    let mut entries: Vec<StorageEntry> = Vec::new();
    entries.push(StorageEntry { key: password_at, value: hashed_password });
    entries.push(StorageEntry { key: xprv_at, value: sealed });
    wallets.add(String::from_str(name));
    proof {
        assert(wallets.names@.drop_last() =~= old(wallets).names@);
    }
    Ok(entries)
}

} // verus!
