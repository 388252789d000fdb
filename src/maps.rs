//! Map identifiers in the map store.

use vstd::prelude::*;
use vstd::string::StringExecFns;
use crate::types::MapUploadRequest;

verus! {

/// The id for a newly imported map: one above the largest id in use, or 1
/// where none is; none where the largest id in use is `u32::MAX`.
pub fn next_map_id(ids: &Vec<u32>) -> (r: Option<u32>)
    ensures
        match r {
            Some(id) => {
                &&& forall|i: int| 0 <= i < ids@.len() ==> ids@[i] < id
                &&& (ids@.len() == 0 && id == 1) || exists|i: int|
                    0 <= i < ids@.len() && ids@[i] + 1 == id
            },
            None => exists|i: int| 0 <= i < ids@.len() && ids@[i] == u32::MAX,
        },
{
    let mut largest: u32 = 0;
    let mut i: usize = 0;
    while i < ids.len()
        invariant
            i <= ids@.len(),
            forall|j: int| 0 <= j < i ==> ids@[j] <= largest,
            i == 0 ==> largest == 0,
            i > 0 ==> exists|j: int| 0 <= j < i && ids@[j] == largest,
        decreases ids@.len() - i,
    {
        if i == 0 || ids[i] > largest {
            largest = ids[i];
        }
        i = i + 1;
    }
    if largest == u32::MAX {
        None
    } else {
        Some(largest + 1)
    }
}

/// Why a map upload form was refused.
#[derive(Debug, Clone, Copy, PartialEq, Eq, Structural)]
pub enum UploadError {
    /// The `data` field was given twice.
    DuplicateData,
    /// A field other than `data` was given.
    ExtraneousField,
    /// No `data` field was given.
    MissingData,
}

/// Reading the fields of an upload form in order: the first `data` field is
/// kept, and each later `data` field or other field records an error, the
/// last of which is reported.
pub open spec fn upload_scan(fields: Seq<(Seq<char>, Seq<u8>)>) -> (Option<Seq<u8>>, Option<UploadError>)
    decreases fields.len(),
{
    if fields.len() == 0 {
        (None, None)
    } else {
        let (data, error) = upload_scan(fields.drop_last());
        let f = fields.last();
        if f.0 == "data"@ {
            if data is Some {
                (data, Some(UploadError::DuplicateData))
            } else {
                (Some(f.1), error)
            }
        } else {
            (data, Some(UploadError::ExtraneousField))
        }
    }
}

/// The verdict on an upload form with the given fields.
pub open spec fn upload_result(fields: Seq<(Seq<char>, Seq<u8>)>) -> Result<Seq<u8>, UploadError> {
    match upload_scan(fields).1 {
        Some(e) => Err(e),
        None => match upload_scan(fields).0 {
            Some(d) => Ok(d),
            None => Err(UploadError::MissingData),
        },
    }
}

/// The fields of a form, as values.
pub open spec fn fields_view(fields: Seq<(String, Vec<u8>)>) -> Seq<(Seq<char>, Seq<u8>)> {
    fields.map_values(|f: (String, Vec<u8>)| (f.0@, f.1@))
}

impl MapUploadRequest {
    /// The upload request that a form with these fields (name and content,
    /// in order) makes: it must have exactly one field, named `data`.
    pub fn from_fields(fields: &Vec<(String, Vec<u8>)>) -> (r: Result<MapUploadRequest, UploadError>)
        ensures
            match upload_result(fields_view(fields@)) {
                Ok(d) => r matches Ok(req) && req.data@ == d,
                Err(e) => r == Err::<MapUploadRequest, UploadError>(e),
            },
    {
        let key = String::from_str("data");
        let ghost all = fields_view(fields@);
        let mut data: Option<Vec<u8>> = None;
        let mut error: Option<UploadError> = None;
        let mut i: usize = 0;
        while i < fields.len()
            invariant
                i <= fields@.len(),
                all == fields_view(fields@),
                key@ == "data"@,
                upload_scan(all.take(i as int)).1 == error,
                match upload_scan(all.take(i as int)).0 {
                    Some(d) => data matches Some(v) && v@ == d,
                    None => data is None,
                },
            decreases fields@.len() - i,
        {
            assert(all.take(i + 1).drop_last() =~= all.take(i as int));
            if fields[i].0 == key {
                if data.is_some() {
                    error = Some(UploadError::DuplicateData);
                } else {
                    let copy = fields[i].1.clone();
                    assert(copy@ =~= fields@[i as int].1@);
                    data = Some(copy);
                }
            } else {
                error = Some(UploadError::ExtraneousField);
            }
            i = i + 1;
        }
        assert(all.take(all.len() as int) =~= all);
        match error {
            Some(e) => Err(e),
            None => match data {
                Some(d) => Ok(MapUploadRequest { data: d }),
                None => Err(UploadError::MissingData),
            },
        }
    }
}

} // verus!
