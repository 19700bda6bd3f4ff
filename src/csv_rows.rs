use vstd::prelude::*;

verus! {

/// The header and field pairs of one record, as far as both reach.
pub open spec fn zip_fields(headers: Seq<String>, record: Seq<String>) -> Seq<(String, String)> {
    Seq::new(
        if headers.len() <= record.len() { headers.len() } else { record.len() },
        |i: int| (headers[i], record[i]),
    )
}

/// Pairs each field of a record with the header of its column; fields or
/// headers beyond the shorter of the two are left out.
pub fn record_fields(headers: &Vec<String>, record: &Vec<String>) -> (r: Vec<(String, String)>)
    ensures
        r@.len() == zip_fields(headers@, record@).len(),
        forall|i: int| 0 <= i < r@.len() ==> (#[trigger] r@[i]).0@ == headers@[i]@ && r@[i].1@ == record@[i]@,
{
    let n = if headers.len() <= record.len() { headers.len() } else { record.len() };
    let mut r: Vec<(String, String)> = Vec::new();
    let mut i: usize = 0;
    while i < n
        invariant
            i <= n,
            n <= headers@.len(),
            n <= record@.len(),
            r@.len() == i,
            forall|k: int| 0 <= k < i ==> (#[trigger] r@[k]).0@ == headers@[k]@ && r@[k].1@ == record@[k]@,
        decreases n - i,
    {
        r.push((headers[i].clone(), record[i].clone()));
        i = i + 1;
    }
    r
}

} // verus!
