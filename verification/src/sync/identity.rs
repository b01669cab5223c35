//! The identity key of this machine: where it is kept and what counts as one.

use vstd::prelude::*;

use crate::text::{join_path, path_in};

verus! {

/// A file of this program in the user's directory for local data.
pub open spec fn data_path(data_dir: Option<Seq<char>>, name: Seq<char>) -> Seq<char> {
    path_in(
        path_in(
            match data_dir {
                Some(d) => d,
                None => "~/.local/share"@,
            },
            "forgetty"@,
        ),
        name,
    )
}

/// A directory that may be unknown.
pub open spec fn optional_dir(dir: Option<String>) -> Option<Seq<char>> {
    match dir {
        Some(d) => Some(d@),
        None => None,
    }
}

pub(crate) fn local_file(data_dir: Option<String>, name: &str) -> (path: String)
    ensures
        path@ == data_path(optional_dir(data_dir), name@),
{
    let dir = match data_dir {
        Some(d) => d,
        None => "~/.local/share".to_owned(),
    };
    join_path(join_path(dir.as_str(), "forgetty").as_str(), name)
}

/// The path of the identity key, given the user's directory for local data.
pub fn identity_path(data_dir: Option<String>) -> (path: String)
    ensures
        path@ == data_path(optional_dir(data_dir), "identity.key"@),
{
    local_file(data_dir, "identity.key")
}

/// The key in a file that holds one: exactly 32 bytes.
pub fn identity_key(bytes: &[u8]) -> (key: Result<[u8; 32], String>)
    ensures
        match key {
            Ok(k) => k@ == bytes@,
            Err(words) => bytes@.len() != 32 && words@
                == "identity.key is not 32 bytes; delete it to regenerate"@,
        },
        bytes@.len() == 32 ==> key is Ok,
{
    if bytes.len() != 32 {
        return Err("identity.key is not 32 bytes; delete it to regenerate".to_owned());
    }
    let mut key: [u8; 32] = [0; 32];
    let mut i: usize = 0;
    while i < 32
        invariant
            i <= 32,
            bytes@.len() == 32,
            key@.len() == 32,
            forall|j: int| 0 <= j < i ==> key@[j] == bytes@[j],
        decreases 32 - i,
    {
        key[i] = bytes[i];
        i = i + 1;
    }
    assert(key@ =~= bytes@);
    Ok(key)
}

} // verus!
