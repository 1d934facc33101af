use vstd::prelude::*;
use crate::model::Photo;

verus! {

/// A row `(id, path, hash)` read back from the store and the record made of it.
pub open spec fn row_matches(row: (i64, String, String), p: Photo) -> bool {
    &&& p.id == row.0
    &&& p.path@ == row.1@
    &&& p.hash@ == row.2@
}

/// Turns the rows of a full scan of the catalog into records, one for one and
/// in the same order; an empty scan gives an empty list.
pub fn photos_from_rows(rows: Vec<(i64, String, String)>) -> (r: Vec<Photo>)
    ensures
        r.len() == rows.len(),
        forall|i: int| 0 <= i < rows.len() ==> row_matches(#[trigger] rows[i], r[i]),
{
    let mut photos: Vec<Photo> = Vec::new();
    let mut rest = rows;
    let ghost all = rest@;
    let mut i: usize = 0;
    while i < rest.len()
        invariant
            rest@ == all,
            i <= all.len(),
            photos.len() == i,
            forall|j: int| 0 <= j < i ==> row_matches(#[trigger] all[j], photos[j]),
        decreases all.len() - i,
    {
        let id = rest[i].0;
        let path = rest[i].1.clone();
        let hash = rest[i].2.clone();
        photos.push(Photo::new(id, path, hash));
        i = i + 1;
    }
    photos
}

} // verus!
