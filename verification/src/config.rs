//! Defaults of the app's configuration that are not graphics values.
use vstd::prelude::*;

verus! {

/// How many recently opened files the menu remembers unless configured.
pub fn default_recently_opened_files_limit() -> (r: usize)
    ensures
        r == 10,
{
    10
}

/// The default of switches that are on unless configured otherwise.
pub fn default_to_true() -> (r: bool)
    ensures
        r,
{
    true
}

/// The multisample count of the 3D view: 4 samples per pixel.
pub fn default_multisample_count() -> (r: u32)
    ensures
        r == 4,
{
    4
}

} // verus!
