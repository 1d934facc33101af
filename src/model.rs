use vstd::prelude::*;

verus! {

/// One catalog record: the identifier the store assigned (zero until it is
/// persisted), the file's path and the lowercase hex digest of its bytes.
#[derive(Debug)]
pub struct Photo {
    pub id: i64,
    pub path: String,
    pub hash: String,
}

impl Photo {
    pub fn new(id: i64, path: String, hash: String) -> (r: Self)
        ensures
            r.id == id,
            r.path@ == path@,
            r.hash@ == hash@,
    {
        Photo { id, path, hash }
    }
}

} // verus!
