//! Where things live: the data directory, the artifact cache below it, and the
//! folder and primary file of each document.
//!
//! Nothing here reads the environment or the disk. The data directory is a
//! value that the caller resolves once, with [`get_filespider_directory`], from
//! what it found in the environment, and hands to everything else.

use vstd::prelude::*;
use vstd::string::StringExecFns;
use crate::store::DocumentId;
use crate::text::{hex_fixed, lemma_hex_fixed_injective, lemma_hex_fixed_len, pow16};

verus! {

/// The platforms whose conventions for the data directory are known.
#[derive(Debug, Clone, Copy, PartialEq, Eq, Structural)]
pub enum Platform {
    Linux,
    Windows,
}

/// What the environment holds of the things the data directory depends on.
pub struct Environment {
    /// The explicit override of the data directory, if it is set.
    pub data_path: Option<String>,
    /// Whether the process runs as the superuser.
    pub superuser: bool,
    /// The user's data home, if it is set.
    pub xdg_data_home: Option<String>,
    /// The user's home directory, if it is set.
    pub home: Option<String>,
}

/// The data directory could not be resolved: neither an override nor a data
/// home is set, and there is no home directory to fall back to.
#[derive(Debug, Clone, Copy, PartialEq, Eq, Structural)]
pub struct HomeMissing;

/// The text of the UUID whose 128 bits are `id`: its thirty-two hexadecimal
/// digits in lower case, most significant first, in groups of eight, four,
/// four, four and twelve with hyphens between them.
pub open spec fn hyphenated(id: DocumentId) -> Seq<char> {
    let digits = hex_fixed(id as nat, 32);
    digits.subrange(0, 8) + "-"@ + digits.subrange(8, 12) + "-"@ + digits.subrange(12, 16) + "-"@
        + digits.subrange(16, 20) + "-"@ + digits.subrange(20, 32)
}

/// The text of a document identity, as it names the document's folder, its
/// primary file and its artifact. Calls `uuid::Uuid::from_u128`, which keeps
/// the 128 bits as they are, and `to_string` on the result, which prints the
/// hyphenated lower-case form.
#[verifier::external_body]
pub(crate) fn uuid_text(id: DocumentId) -> (text: String)
    ensures
        text@ == hyphenated(id),
{
    uuid::Uuid::from_u128(id).to_string()
}

/// The base directory that the data directory lies in on Linux when no
/// override is set, if there is one.
pub open spec fn linux_base(env: Environment) -> Option<Seq<char>> {
    if env.superuser {
        Some("/var/lib"@)
    } else {
        match (env.xdg_data_home, env.home) {
            (Some(data_home), Some(_)) => Some(data_home@),
            (None, Some(home)) => Some(home@ + "/.local/share"@),
            (_, None) => None,
        }
    }
}

/// The data directory for `env` on `platform`, if it can be resolved.
///
/// An override wins everywhere. Without one, Windows has a fixed place, and
/// Linux uses the state directory for the superuser and the data home, or
/// failing that the conventional place below the home directory, for
/// everybody else. For everybody else the home directory has to be set even
/// when the data home is.
pub open spec fn filespider_directory(platform: Platform, env: Environment) -> Option<Seq<char>> {
    match platform {
        Platform::Windows => match env.data_path {
            Some(path) => Some(path@),
            None => Some("%APPDATA%/filespider"@),
        },
        Platform::Linux => match linux_base(env) {
            Some(base) => match env.data_path {
                Some(path) => Some(path@),
                None => Some(base + "/filespider"@),
            },
            None => None,
        },
    }
}

/// Resolves the data directory from what the environment holds.
pub fn get_filespider_directory(platform: Platform, env: &Environment) -> (dir: Result<
    String,
    HomeMissing,
>)
    ensures
        match filespider_directory(platform, *env) {
            Some(path) => dir is Ok && dir->Ok_0@ == path,
            None => dir == Err::<String, HomeMissing>(HomeMissing),
        },
{
    match platform {
        Platform::Windows => match &env.data_path {
            Some(path) => Ok(path.clone()),
            None => Ok(String::from_str("%APPDATA%/filespider")),
        },
        Platform::Linux => {
            let base = if env.superuser {
                String::from_str("/var/lib")
            } else {
                match &env.home {
                    None => {
                        return Err(HomeMissing);
                    },
                    Some(home) => match &env.xdg_data_home {
                        Some(data_home) => data_home.clone(),
                        None => home.clone().concat("/.local/share"),
                    },
                }
            };
            match &env.data_path {
                Some(path) => Ok(path.clone()),
                None => Ok(base.concat("/filespider")),
            }
        },
    }
}

/// The directory of cached artifacts below the data directory `data_dir`.
pub open spec fn cache_directory(data_dir: Seq<char>) -> Seq<char> {
    data_dir + "/"@ + ".cache"@
}

/// The settings file below the data directory `data_dir`.
pub open spec fn config_file(data_dir: Seq<char>) -> Seq<char> {
    data_dir + "/config.json5"@
}

/// The folder of document `id` below the data directory `data_dir`.
pub open spec fn document_directory(data_dir: Seq<char>, id: DocumentId) -> Seq<char> {
    data_dir + "/"@ + hyphenated(id)
}

/// The name of the primary file of document `id`: its identity, followed by a
/// dot and the extension where it has one.
pub open spec fn document_basename(id: DocumentId, extension: Option<String>) -> Seq<char> {
    match extension {
        Some(ext) => hyphenated(id) + "."@ + ext@,
        None => hyphenated(id),
    }
}

/// The primary file of document `id`, inside the document's folder.
pub open spec fn document_file(data_dir: Seq<char>, id: DocumentId, extension: Option<String>)
    -> Seq<char> {
    document_directory(data_dir, id) + "/"@ + document_basename(id, extension)
}

/// The artifact of document `id`: one file per document in the cache
/// directory, named by the identity alone.
pub open spec fn cache_file(data_dir: Seq<char>, id: DocumentId) -> Seq<char> {
    cache_directory(data_dir) + "/"@ + hyphenated(id)
}

/// The directory of cached artifacts.
pub fn get_cache_directory(data_dir: &str) -> (path: String)
    ensures
        path@ == cache_directory(data_dir@),
{
    String::from_str(data_dir).concat("/").concat(".cache")
}

/// The settings file.
pub fn get_config_file(data_dir: &str) -> (path: String)
    ensures
        path@ == config_file(data_dir@),
{
    String::from_str(data_dir).concat("/config.json5")
}

/// The folder of document `id`.
pub fn get_document_directory(data_dir: &str, id: DocumentId) -> (path: String)
    ensures
        path@ == document_directory(data_dir@, id),
{
    let name = uuid_text(id);
    String::from_str(data_dir).concat("/").concat(name.as_str())
}

/// The name of the primary file of document `id`.
pub fn get_document_basename(id: DocumentId, extension: &Option<String>) -> (name: String)
    ensures
        name@ == document_basename(id, *extension),
{
    match extension {
        Some(ext) => uuid_text(id).concat(".").concat(ext.as_str()),
        None => uuid_text(id),
    }
}

/// The primary file of document `id`.
pub fn get_document_file(data_dir: &str, id: DocumentId, extension: &Option<String>) -> (path:
    String)
    ensures
        path@ == document_file(data_dir@, id, *extension),
{
    let name = get_document_basename(id, extension);
    get_document_directory(data_dir, id).concat("/").concat(name.as_str())
}

/// The artifact of document `id`.
pub fn get_cache_file(data_dir: &str, id: DocumentId) -> (path: String)
    ensures
        path@ == cache_file(data_dir@, id),
{
    let name = uuid_text(id);
    get_cache_directory(data_dir).concat("/").concat(name.as_str())
}

/// Different documents have different texts of their identities.
pub proof fn lemma_identities_apart(a: DocumentId, b: DocumentId)
    requires
        hyphenated(a) == hyphenated(b),
    ensures
        a == b,
{
    let digits = hex_fixed(a as nat, 32);
    let other = hex_fixed(b as nat, 32);
    lemma_hex_fixed_len(a as nat, 32);
    lemma_hex_fixed_len(b as nat, 32);
    reveal_strlit("-");
    let text = hyphenated(a);
    let other_text = hyphenated(b);
    assert(text.len() == 36 && other_text.len() == 36);
    assert forall|k: int| 0 <= k < 32 implies digits[k] == other[k] by {
        let at = if k < 8 {
            k
        } else if k < 12 {
            k + 1
        } else if k < 16 {
            k + 2
        } else if k < 20 {
            k + 3
        } else {
            k + 4
        };
        assert(text[at] == digits[k]);
        assert(other_text[at] == other[k]);
    }
    assert(digits =~= other);
    assert(pow16(32) == 0x1_0000_0000_0000_0000_0000_0000_0000_0000) by {
        reveal_with_fuel(pow16, 33);
    }
    lemma_hex_fixed_injective(a as nat, b as nat, 32);
}

/// Different documents have different folders and different artifacts below
/// one data directory: no render overwrites the artifact of another
/// document.
pub proof fn lemma_documents_apart(data_dir: Seq<char>, a: DocumentId, b: DocumentId)
    requires
        a != b,
    ensures
        cache_file(data_dir, a) != cache_file(data_dir, b),
        document_directory(data_dir, a) != document_directory(data_dir, b),
{
    if hyphenated(a) == hyphenated(b) {
        lemma_identities_apart(a, b);
    }
    let prefix = cache_directory(data_dir) + "/"@;
    if prefix + hyphenated(a) == prefix + hyphenated(b) {
        assert((prefix + hyphenated(a)).subrange(
            prefix.len() as int,
            (prefix + hyphenated(a)).len() as int,
        ) == hyphenated(a));
        assert((prefix + hyphenated(b)).subrange(
            prefix.len() as int,
            (prefix + hyphenated(b)).len() as int,
        ) == hyphenated(b));
    }
    let folder = data_dir + "/"@;
    if folder + hyphenated(a) == folder + hyphenated(b) {
        assert((folder + hyphenated(a)).subrange(
            folder.len() as int,
            (folder + hyphenated(a)).len() as int,
        ) == hyphenated(a));
        assert((folder + hyphenated(b)).subrange(
            folder.len() as int,
            (folder + hyphenated(b)).len() as int,
        ) == hyphenated(b));
    }
}

} // verus!
