//! Configuration values.
//!
//! Two tables of named settings: display format strings, and the storage
//! collaborator's settings. The executable front end reads these from a
//! configuration file into its own mirror type and converts.

use vstd::prelude::*;
use std::collections::BTreeMap;

verus! {

/// Named settings: `formats` holds display format strings (such as the
/// date format), `db` the storage settings.
pub struct Config {
    pub formats: BTreeMap<String, String>,
    pub db: BTreeMap<String, String>,
}

} // verus!
