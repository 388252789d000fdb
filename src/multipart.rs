//! Multipart form uploads: the content-type check that a form request must
//! pass, and the fields of a parsed form, each of which can be taken once.

use vstd::prelude::*;
use vstd::string::{StrSliceExecFns, StringExecFns};
use crate::table::{lemma_absent, lemma_lookup, lemma_push, lemma_restrict_step, restrict, to_map};

verus! {

/// `p` occurs in `s` at position `i`.
pub open spec fn occurs_at(s: Seq<char>, p: Seq<char>, i: int) -> bool {
    0 <= i && i + p.len() <= s.len() && s.subrange(i, i + p.len()) == p
}

/// `i` is the first position at which `p` occurs in `s`.
pub open spec fn first_occurrence(s: Seq<char>, p: Seq<char>, i: int) -> bool {
    occurs_at(s, p, i) && forall|j: int| 0 <= j < i ==> !occurs_at(s, p, j)
}

/// Why a form request or a form field was refused.
#[derive(Debug, PartialEq, Eq)]
pub enum FormError {
    /// The file field has another MIME type than expected.
    BadMime { field: String, got: String, expected: String },
    /// A file field is missing.
    MissingFileField { field: String, mime: String },
    /// A text field is missing.
    MissingText { field: String },
    /// The request has no Content-Type header.
    MissingContentType,
    /// The request is not a multipart form.
    NotMultipart { content_type: String },
    /// The multipart form has no boundary.
    MissingBoundary,
    /// A field was given more than once.
    DuplicateFields { field: String },
    /// A text field is not valid UTF-8.
    InvalidUtf8 { field: String },
}

fn occurs(s: &str, p: &str, i: usize) -> (r: bool)
    ensures
        r == occurs_at(s@, p@, i as int),
{
    let n = s.unicode_len();
    let m = p.unicode_len();
    if i > n || m > n - i {
        return false;
    }
    let mut k: usize = 0;
    while k < m
        invariant
            k <= m,
            i + m <= n,
            n == s@.len(),
            m == p@.len(),
            forall|j: int| 0 <= j < k ==> s@[i + j] == p@[j],
        decreases m - k,
    {
        if s.get_char(i + k) != p.get_char(k) {
            assert(s@.subrange(i as int, i + m)[k as int] != p@[k as int]);
            return false;
        }
        k = k + 1;
    }
    assert(s@.subrange(i as int, i + m) =~= p@);
    true
}

fn find(s: &str, p: &str) -> (r: Option<usize>)
    ensures
        match r {
            Some(i) => first_occurrence(s@, p@, i as int),
            None => forall|j: int| 0 <= j <= s@.len() ==> !occurs_at(s@, p@, j),
        },
{
    let n = s.unicode_len();
    let mut i: usize = 0;
    while i < n
        invariant
            n == s@.len(),
            i <= n,
            forall|j: int| 0 <= j < i ==> !occurs_at(s@, p@, j),
        decreases n - i,
    {
        if occurs(s, p, i) {
            return Some(i);
        }
        i = i + 1;
    }
    if occurs(s, p, n) {
        Some(n)
    } else {
        None
    }
}

/// The boundary of a multipart form request with Content-Type header
/// `content_type` (none where the header is missing): the text after the first
/// `boundary=`, in a content type that starts with `multipart/form-data`.
pub fn form_boundary(content_type: Option<&str>) -> (r: Result<String, FormError>)
    ensures
        content_type is None ==> r == Err::<String, FormError>(FormError::MissingContentType),
        content_type matches Some(ct) ==> {
            let prefix = "multipart/form-data"@;
            let key = "boundary="@;
            if !occurs_at(ct@, prefix, 0) {
                match r {
                    Err(FormError::NotMultipart { content_type: got }) => got@ == ct@,
                    _ => false,
                }
            } else if forall|j: int| 0 <= j <= ct@.len() ==> !occurs_at(ct@, key, j) {
                r == Err::<String, FormError>(FormError::MissingBoundary)
            } else {
                r matches Ok(b) && exists|i: int|
                    first_occurrence(ct@, key, i) && b@ == ct@.subrange(i + key.len(), ct@.len() as int)
            }
        },
{
    let ct = match content_type {
        None => {
            return Err(FormError::MissingContentType);
        },
        Some(ct) => ct,
    };
    if !occurs(ct, "multipart/form-data", 0) {
        return Err(FormError::NotMultipart { content_type: String::from_str(ct) });
    }
    let key = "boundary=";
    match find(ct, key) {
        None => Err(FormError::MissingBoundary),
        Some(i) => {
            let end = ct.unicode_len();
            let start = i + key.unicode_len();
            Ok(String::from_str(ct.substring_char(start, end)))
        },
    }
}

/// A file field of a form: its data and MIME type.
#[derive(Debug)]
pub struct MultipartFile {
    pub data: Vec<u8>,
    pub mime: String,
}

impl MultipartFile {
    fn duplicate(&self) -> (r: MultipartFile)
        ensures
            r.data@ == self.data@,
            r.mime@ == self.mime@,
    {
        MultipartFile { data: self.data.clone(), mime: self.mime.clone() }
    }
}

/// The fields of a multipart form: files by name, and text by name.
// Held as lists read as maps: vstd specifies `HashMap` only for key types it
// knows to hash consistently, and `String` is not among them.
pub struct MultipartForm {
    files: Vec<(String, MultipartFile)>,
    text: Vec<(String, String)>,
}

/// A form's contents: the file fields (data and MIME type) and the text fields.
pub type FormView = (Map<Seq<char>, (Seq<u8>, Seq<char>)>, Map<Seq<char>, Seq<char>>);

/// The file fields as key/value pairs.
pub open spec fn files_seq(t: Seq<(String, MultipartFile)>) -> Seq<(Seq<char>, (Seq<u8>, Seq<char>))> {
    t.map_values(|p: (String, MultipartFile)| (p.0@, (p.1.data@, p.1.mime@)))
}

/// The text fields as key/value pairs.
pub open spec fn text_seq(t: Seq<(String, String)>) -> Seq<(Seq<char>, Seq<char>)> {
    t.map_values(|p: (String, String)| (p.0@, p.1@))
}

/// Whether a form has a field named `name`, of either kind.
pub open spec fn has_field(f: FormView, name: Seq<char>) -> bool {
    f.0.contains_key(name) || f.1.contains_key(name)
}

/// The text of UTF-8 bytes, none where they are not valid UTF-8.
pub uninterp spec fn utf8_of(b: Seq<u8>) -> Option<Seq<char>>;

/// Relies on `String::from_utf8`: it accepts exactly the valid UTF-8 byte
/// sequences and keeps their characters.
#[verifier::external_body]
fn decode_utf8(b: Vec<u8>) -> (r: Option<String>)
    ensures
        match r {
            Some(t) => utf8_of(b@) == Some(t@),
            None => utf8_of(b@) is None,
        },
{
    String::from_utf8(b).ok()
}

impl View for MultipartForm {
    type V = FormView;

    closed spec fn view(&self) -> FormView {
        (to_map(files_seq(self.files@)), to_map(text_seq(self.text@)))
    }
}

fn find_name<V>(t: &Vec<(String, V)>, name: &String) -> (r: Option<usize>)
    ensures
        match r {
            Some(i) => i < t@.len() && t@[i as int].0@ == name@ && forall|k: int|
                i < k < t@.len() ==> t@[k].0@ != name@,
            None => forall|k: int| 0 <= k < t@.len() ==> t@[k].0@ != name@,
        },
{
    let mut found: Option<usize> = None;
    let mut i: usize = 0;
    while i < t.len()
        invariant
            i <= t@.len(),
            match found {
                Some(j) => j < i && t@[j as int].0@ == name@ && forall|k: int|
                    j < k < i ==> t@[k].0@ != name@,
                None => forall|k: int| 0 <= k < i ==> t@[k].0@ != name@,
            },
        decreases t@.len() - i,
    {
        if t[i].0 == *name {
            found = Some(i);
        }
        i = i + 1;
    }
    found
}

/// The key filter that drops `name`.
pub open spec fn other_than(name: Seq<char>) -> spec_fn(Seq<char>) -> bool {
    |k: Seq<char>| k != name
}

fn text_without(t: &Vec<(String, String)>, name: &String) -> (r: Vec<(String, String)>)
    ensures
        to_map(text_seq(r@)) == to_map(text_seq(t@)).remove(name@),
{
    let ghost all = text_seq(t@);
    let mut kept: Vec<(String, String)> = Vec::new();
    assert(all.take(0) =~= Seq::empty());
    assert(to_map(text_seq(kept@)) =~= restrict(to_map(all.take(0)), other_than(name@)));
    let mut i: usize = 0;
    while i < t.len()
        invariant
            i <= t@.len(),
            all == text_seq(t@),
            to_map(text_seq(kept@)) == restrict(to_map(all.take(i as int)), other_than(name@)),
        decreases t@.len() - i,
    {
        let ghost prev = text_seq(kept@);
        proof {
            lemma_restrict_step(all, i as int, prev, other_than(name@));
        }
        if t[i].0 != *name {
            kept.push((t[i].0.clone(), t[i].1.clone()));
            assert(text_seq(kept@) =~= prev.push(all[i as int]));
        }
        i = i + 1;
    }
    assert(all.take(all.len() as int) =~= all);
    assert(restrict(to_map(all), other_than(name@)) =~= to_map(all).remove(name@));
    kept
}

fn files_without(t: &Vec<(String, MultipartFile)>, name: &String) -> (r: Vec<(String, MultipartFile)>)
    ensures
        to_map(files_seq(r@)) == to_map(files_seq(t@)).remove(name@),
{
    let ghost all = files_seq(t@);
    let mut kept: Vec<(String, MultipartFile)> = Vec::new();
    assert(all.take(0) =~= Seq::empty());
    assert(to_map(files_seq(kept@)) =~= restrict(to_map(all.take(0)), other_than(name@)));
    let mut i: usize = 0;
    while i < t.len()
        invariant
            i <= t@.len(),
            all == files_seq(t@),
            to_map(files_seq(kept@)) == restrict(to_map(all.take(i as int)), other_than(name@)),
        decreases t@.len() - i,
    {
        let ghost prev = files_seq(kept@);
        proof {
            lemma_restrict_step(all, i as int, prev, other_than(name@));
        }
        if t[i].0 != *name {
            kept.push((t[i].0.clone(), t[i].1.duplicate()));
            assert(files_seq(kept@) =~= prev.push(all[i as int]));
        }
        i = i + 1;
    }
    assert(all.take(all.len() as int) =~= all);
    assert(restrict(to_map(all), other_than(name@)) =~= to_map(all).remove(name@));
    kept
}

impl MultipartForm {
    /// A form without fields.
    pub fn new() -> (r: MultipartForm)
        ensures
            r@.0 == Map::<Seq<char>, (Seq<u8>, Seq<char>)>::empty(),
            r@.1 == Map::<Seq<char>, Seq<char>>::empty(),
    {
        let r = MultipartForm { files: Vec::new(), text: Vec::new() };
        assert(r@.0 =~= Map::empty());
        assert(r@.1 =~= Map::empty());
        r
    }

    fn contains(&self, name: &String) -> (r: bool)
        ensures
            r == has_field(self@, name@),
    {
        let f = find_name(&self.files, name);
        let t = find_name(&self.text, name);
        proof {
            match f {
                Some(i) => lemma_lookup(files_seq(self.files@), name@, i as int),
                None => lemma_absent(files_seq(self.files@), name@),
            }
            match t {
                Some(i) => lemma_lookup(text_seq(self.text@), name@, i as int),
                None => lemma_absent(text_seq(self.text@), name@),
            }
        }
        f.is_some() || t.is_some()
    }

    /// Adds a text field read as the bytes `value`; refused where the form
    /// already has a field of that name, or the bytes are not UTF-8.
    pub fn add_text(&mut self, name: String, value: Vec<u8>) -> (r: Result<(), FormError>)
        ensures
            has_field(old(self)@, name@) ==> r == Err::<(), FormError>(
                FormError::DuplicateFields { field: name },
            ) && final(self)@ == old(self)@,
            !has_field(old(self)@, name@) ==> match utf8_of(value@) {
                None => r == Err::<(), FormError>(FormError::InvalidUtf8 { field: name })
                    && final(self)@ == old(self)@,
                Some(t) => r is Ok && final(self)@ == (old(self)@.0, old(self)@.1.insert(name@, t)),
            },
    {
        if self.contains(&name) {
            return Err(FormError::DuplicateFields { field: name });
        }
        match decode_utf8(value) {
            None => Err(FormError::InvalidUtf8 { field: name }),
            Some(t) => {
                let ghost before = text_seq(self.text@);
                let ghost entry = (name@, t@);
                self.text.push((name, t));
                proof {
                    assert(text_seq(self.text@) =~= before.push(entry));
                    lemma_push(before, entry);
                }
                Ok(())
            },
        }
    }

    /// Adds a file field; refused where the form already has a field of that
    /// name.
    pub fn add_file(&mut self, name: String, mime: String, data: Vec<u8>) -> (r: Result<(), FormError>)
        ensures
            has_field(old(self)@, name@) ==> r == Err::<(), FormError>(
                FormError::DuplicateFields { field: name },
            ) && final(self)@ == old(self)@,
            !has_field(old(self)@, name@) ==> r is Ok && final(self)@ == (
                old(self)@.0.insert(name@, (data@, mime@)),
                old(self)@.1,
            ),
    {
        if self.contains(&name) {
            return Err(FormError::DuplicateFields { field: name });
        }
        let ghost before = files_seq(self.files@);
        let ghost entry = (name@, (data@, mime@));
        self.files.push((name, MultipartFile { data, mime }));
        proof {
            assert(files_seq(self.files@) =~= before.push(entry));
            lemma_push(before, entry);
        }
        Ok(())
    }

    /// Takes the text field `field` out of the form.
    pub fn get_text(&mut self, field: &str) -> (r: Result<String, FormError>)
        ensures
            old(self)@.1.contains_key(field@) ==> (r matches Ok(t) && t@ == old(self)@.1[field@])
                && final(self)@ == (old(self)@.0, old(self)@.1.remove(field@)),
            !old(self)@.1.contains_key(field@) ==> final(self)@ == old(self)@ && match r {
                Err(FormError::MissingText { field: f }) => f@ == field@,
                _ => false,
            },
    {
        let name = String::from_str(field);
        match find_name(&self.text, &name) {
            None => {
                proof {
                    lemma_absent(text_seq(self.text@), name@);
                }
                Err(FormError::MissingText { field: name })
            },
            Some(i) => {
                proof {
                    lemma_lookup(text_seq(self.text@), name@, i as int);
                }
                let value = self.text[i].1.clone();
                let kept = text_without(&self.text, &name);
                self.text = kept;
                Ok(value)
            },
        }
    }

    /// Takes the file field `field` out of the form, where it has the MIME
    /// type `mime`; one of another type stays in the form.
    pub fn get_file(&mut self, mime: &str, field: &str) -> (r: Result<Vec<u8>, FormError>)
        ensures
            old(self)@.0.contains_key(field@) && old(self)@.0[field@].1 == mime@ ==> (r matches Ok(d)
                && d@ == old(self)@.0[field@].0) && final(self)@ == (
                old(self)@.0.remove(field@),
                old(self)@.1,
            ),
            old(self)@.0.contains_key(field@) && old(self)@.0[field@].1 != mime@ ==> final(self)@
                == old(self)@ && match r {
                Err(FormError::BadMime { field: f, got, expected }) => f@ == field@ && got@ == old(
                    self,
                )@.0[field@].1 && expected@ == mime@,
                _ => false,
            },
            !old(self)@.0.contains_key(field@) ==> final(self)@ == old(self)@ && match r {
                Err(FormError::MissingFileField { field: f, mime: m }) => f@ == field@ && m@ == mime@,
                _ => false,
            },
    {
        let name = String::from_str(field);
        let wanted = String::from_str(mime);
        match find_name(&self.files, &name) {
            None => {
                proof {
                    lemma_absent(files_seq(self.files@), name@);
                }
                Err(FormError::MissingFileField { field: name, mime: wanted })
            },
            Some(i) => {
                proof {
                    lemma_lookup(files_seq(self.files@), name@, i as int);
                }
                if self.files[i].1.mime != wanted {
                    return Err(
                        FormError::BadMime {
                            field: name,
                            got: self.files[i].1.mime.clone(),
                            expected: wanted,
                        },
                    );
                }
                let data = self.files[i].1.data.clone();
                assert(data@ =~= self.files@[i as int].1.data@);
                let kept = files_without(&self.files, &name);
                self.files = kept;
                Ok(data)
            },
        }
    }
}

} // verus!
