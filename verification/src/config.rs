//! Where the settings live on disk: the per-user configuration file,
//! derived from a fixed organization/application identifier through the
//! `directories` crate.

use vstd::prelude::*;
use crate::events::SLASH;

verus! {

#[verifier::external_type_specification]
#[verifier::external_body]
pub struct ExProjectDirs(directories::ProjectDirs);

/// Relies on `directories::ProjectDirs::from`: the per-user directories for
/// this application's fixed identifier, or nothing when the operating
/// system reports no valid home directory. The result depends on the
/// environment, so nothing is claimed of it.
#[verifier::external_body]
fn proj_dirs() -> (r: Option<directories::ProjectDirs>) {
    directories::ProjectDirs::from("com", "landaire", "runny_nose")
}

/// Relies on `directories::ProjectDirs::config_dir`: the per-user
/// configuration directory, handed back as plain path bytes. The value
/// depends on the environment, so nothing is claimed of it.
#[verifier::external_body]
fn config_dir_bytes(dirs: &directories::ProjectDirs) -> (r: Vec<u8>) {
    dirs.config_dir().to_string_lossy().into_owned().into_bytes()
}

/// The bytes of `config.toml`, the settings file's name.
pub open spec fn config_file_name() -> Seq<u8> {
    seq![99u8, 111u8, 110u8, 102u8, 105u8, 103u8, 46u8, 116u8, 111u8, 109u8, 108u8]
}

/// The settings file's name joined onto a directory: exactly the directory's
/// bytes, then one separator, then `config.toml`.
pub fn join_config_file(dir: Vec<u8>) -> (r: Vec<u8>)
    ensures
        r@ == dir@ + seq![SLASH] + config_file_name(),
{
    let ghost base = dir@;
    let mut p = dir;
    p.push(SLASH);
    p.push(99u8);
    p.push(111u8);
    p.push(110u8);
    p.push(102u8);
    p.push(105u8);
    p.push(103u8);
    p.push(46u8);
    p.push(116u8);
    p.push(111u8);
    p.push(109u8);
    p.push(108u8);
    proof {
        assert(p@ =~= base + seq![SLASH] + config_file_name());
    }
    p
}

/// The path of the per-user settings file: the configuration directory the
/// environment supplies, with `config.toml` joined onto it by
/// `join_config_file`. Nothing when the system has no home directory — the
/// caller then neither loads nor saves.
pub fn config_path() -> (r: Option<Vec<u8>>)
    ensures
        r matches Option::Some(p) ==> p@.len() > config_file_name().len() && p@.subrange(
            p@.len() - config_file_name().len() - 1,
            p@.len() as int,
        ) == seq![SLASH] + config_file_name(),
{
    match proj_dirs() {
        Option::None => Option::None,
        Option::Some(dirs) => {
            let p = join_config_file(config_dir_bytes(&dirs));
            proof {
                assert(p@.subrange(
                    p@.len() - config_file_name().len() - 1,
                    p@.len() as int,
                ) =~= seq![SLASH] + config_file_name());
            }
            Option::Some(p)
        },
    }
}

} // verus!
