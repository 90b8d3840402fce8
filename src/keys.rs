use vstd::prelude::*;
use crate::encryption::{Encryption, KEY_LEN};

verus! {

#[derive(Debug, Clone, Copy, PartialEq, Eq, Structural)]
pub enum KeyError {
    /// The key file exists but does not hold exactly `KEY_LEN` bytes.
    CorruptKey { found_len: usize },
}

/// What `load_or_create_key` decided about the key file.
pub struct LoadedKey {
    pub key: Vec<u8>,
    /// The key was generated now and must be written to the key file.
    pub is_new: bool,
}

/// Outcome of reading an existing key file with the given contents.
pub open spec fn stored_key_outcome(contents: Seq<u8>) -> Result<Seq<u8>, KeyError> {
    if contents.len() == KEY_LEN {
        Ok(contents)
    } else {
        Err(KeyError::CorruptKey { found_len: contents.len() as usize })
    }
}

/// Checks the contents of an existing key file. A file of the wrong size is
/// reported, never repaired.
pub fn check_key_bytes(contents: Vec<u8>) -> (r: Result<Vec<u8>, KeyError>)
    ensures
        match r {
            Ok(k) => stored_key_outcome(contents@) == Ok::<Seq<u8>, KeyError>(k@),
            Err(e) => stored_key_outcome(contents@) == Err::<Seq<u8>, KeyError>(e),
        },
{
    if contents.len() == KEY_LEN {
        Ok(contents)
    } else {
        Err(KeyError::CorruptKey { found_len: contents.len() })
    }
}

/// Decides the key from the key file's contents, `None` when there is no
/// file. An existing file is used as it is or reported corrupt; without one a
/// fresh random key is made, which the caller writes once.
pub fn load_or_create_key(stored: Option<Vec<u8>>) -> (r: Result<LoadedKey, KeyError>)
    ensures
        match stored {
            Some(c) => match r {
                Ok(l) => stored_key_outcome(c@) == Ok::<Seq<u8>, KeyError>(l.key@) && !l.is_new,
                Err(e) => stored_key_outcome(c@) == Err::<Seq<u8>, KeyError>(e),
            },
            None => r matches Ok(l) && l.is_new && l.key@.len() == KEY_LEN,
        },
{
    match stored {
        Some(c) => match check_key_bytes(c) {
            Ok(key) => Ok(LoadedKey { key, is_new: false }),
            Err(e) => Err(e),
        },
        None => Ok(LoadedKey { key: Encryption::generate_key(), is_new: true }),
    }
}

/// Loading the key again after it was created or loaded once gives the same
/// key; a key file cut to another length is reported as corrupt instead of
/// being replaced.
pub proof fn lemma_key_reload_stable(first: Seq<u8>, damaged: Seq<u8>)
    requires
        first.len() == KEY_LEN,
        damaged.len() != KEY_LEN,
    ensures
        stored_key_outcome(first) == Ok::<Seq<u8>, KeyError>(first),
        stored_key_outcome(damaged) == Err::<Seq<u8>, KeyError>(
            KeyError::CorruptKey { found_len: damaged.len() as usize },
        ),
{
}

} // verus!
