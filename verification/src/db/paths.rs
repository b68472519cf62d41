use vstd::prelude::*;

use crate::text::push_str;

verus! {

/// The directory holding the database, inside the user's data directory.
pub fn database_dir(data_dir: &str) -> (r: String)
    ensures
        r@ == data_dir@ + "/Cadence"@,
{
    let mut r = data_dir.to_string();
    push_str(&mut r, "/Cadence");
    r
}

/// The database file, inside the user's data directory.
pub fn database_file(data_dir: &str) -> (r: String)
    ensures
        r@ == data_dir@ + "/Cadence"@ + "/cadence.db"@,
{
    let mut r = database_dir(data_dir);
    push_str(&mut r, "/cadence.db");
    r
}

}
