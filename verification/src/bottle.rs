//! Bottles: the per-game Wine prefixes, cloned from a template.
use vstd::prelude::*;

use crate::error::{Error, Result};
use crate::path::{file_name, spec_file_name};
use crate::text::{concat, copy_str, is_prefix, starts_with};

verus! {

/// Information about an existing bottle.
#[derive(Debug, Clone)]
pub struct BottleInfo {
    pub slug: String,
    pub path: String,
    pub size_bytes: u64,
}

/// What creating a bottle decides, given whether the template directory and
/// the bottle directory exist: the template must exist
/// (`BottleNotFound` with its path) and the bottle must not
/// (`Config("Bottle already exists: <path>")`); then the template is cloned.
pub open spec fn create_allowed(
    template_dir: Seq<char>,
    template_exists: bool,
    bottle_dir: Seq<char>,
    bottle_exists: bool,
    r: Result<()>,
) -> bool {
    if !template_exists {
        r matches Err(Error::BottleNotFound(p)) && p@ == template_dir
    } else if bottle_exists {
        r matches Err(Error::Config(m)) && m@ == "Bottle already exists: "@ + bottle_dir
    } else {
        r is Ok
    }
}

/// Decides whether a new bottle may be cloned from the template: `Ok` when
/// it may, the error to report otherwise.
pub fn create(template_dir: &str, template_exists: bool, bottle_dir: &str, bottle_exists: bool) -> (r: Result<()>)
    ensures
        create_allowed(template_dir@, template_exists, bottle_dir@, bottle_exists, r),
{
    if !template_exists {
        return Err(Error::BottleNotFound(copy_str(template_dir)));
    }
    if bottle_exists {
        return Err(Error::Config(concat("Bottle already exists: ", bottle_dir)));
    }
    Ok(())
}

/// Whether a directory in the bottles directory is listed as a bottle: the
/// template and other directories whose name starts with `_` are not.
pub fn is_listed(name: &str) -> (r: bool)
    ensures
        r == !is_prefix("_"@, name@),
{
    !starts_with(name, "_")
}

/// The name that a bottle's `user.reg` is kept under while the bottle is
/// reset: `<bottle name>.user.reg.bak`, beside the bottle (an empty bottle
/// name where the path has none).
pub fn user_reg_backup_name(bottle_dir: &str) -> (r: String)
    ensures
        r@ == match spec_file_name(bottle_dir@) {
            Some(n) => n,
            None => Seq::<char>::empty(),
        } + ".user.reg.bak"@,
{
    let name = match file_name(bottle_dir) {
        Some(n) => n,
        None => String::new(),
    };
    concat(name.as_str(), ".user.reg.bak")
}

} // verus!
