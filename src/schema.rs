//! Identifiers, errors, the backend contract and path splitting of the
//! namespace layer.
use vstd::prelude::*;
use vstd::string::*;

verus! {

/// A handle on one open resource, unique across all backends of a registry.
#[derive(Debug, Clone, Copy, PartialEq, Eq, Hash, Structural)]
pub struct FileId(pub usize);

/// The identifier a registry gives a backend when it registers it.
#[derive(Debug, Clone, Copy, PartialEq, Eq, Hash, Structural)]
pub struct SchemaId(pub usize);

/// What a path names inside a backend.
#[derive(Debug, Clone, Copy, PartialEq, Eq, Structural)]
pub enum FileType {
    File,
    Directory,
}

/// A backend's own failure.
#[derive(Debug, Clone, Copy, PartialEq, Eq, Structural)]
pub enum FileError {
    NotFound,
    AlreadyOpen,
}

pub type FileResult = Result<FileId, FileError>;

/// A failure of the registry, returned as a value.
#[derive(Debug, PartialEq, Eq)]
pub enum SchemaError {
    SameNameRegistered(String),
    NoSchema(String),
    NotFound(String),
    AlreadyOpen(String),
    NotOpen(FileId),
    NoRead(FileId),
}

/// `SchemaError` with each string taken as its characters.
pub enum ErrorView {
    SameNameRegistered(Seq<char>),
    NoSchema(Seq<char>),
    NotFound(Seq<char>),
    AlreadyOpen(Seq<char>),
    NotOpen(FileId),
    NoRead(FileId),
}

impl View for SchemaError {
    type V = ErrorView;

    open spec fn view(&self) -> ErrorView {
        match self {
            SchemaError::SameNameRegistered(s) => ErrorView::SameNameRegistered(s@),
            SchemaError::NoSchema(s) => ErrorView::NoSchema(s@),
            SchemaError::NotFound(s) => ErrorView::NotFound(s@),
            SchemaError::AlreadyOpen(s) => ErrorView::AlreadyOpen(s@),
            SchemaError::NotOpen(f) => ErrorView::NotOpen(*f),
            SchemaError::NoRead(f) => ErrorView::NoRead(*f),
        }
    }
}

/// A backend: a named provider of resources over its own path space.
///
/// Its state is seen through `entries` (what each path names), `content`
/// (the bytes a path reads as), `opened` (the handles it holds open, each
/// with its path), `registered` (the id it was bound to) and `read_fails`
/// (the open handles whose reads the backend refuses).
pub trait Schema {
    spec fn registered(&self) -> Option<SchemaId>;

    spec fn entries(&self) -> Map<Seq<char>, FileType>;

    spec fn content(&self, path: Seq<char>) -> Seq<u8>;

    spec fn opened(&self) -> Map<FileId, Seq<char>>;

    /// Whether the backend refuses to read the resource open under `fid`.
    spec fn read_fails(&self, fid: FileId) -> bool;

    /// The backend's own consistency.
    spec fn inv(&self) -> bool;

    fn schema_id(&self) -> (r: SchemaId)
        requires
            self.registered() is Some,
        ensures
            r == self.registered()->0,
    ;

    /// Binds the backend to `id`; a backend is bound at most once.
    fn register(&mut self, id: SchemaId)
        requires
            old(self).inv(),
            old(self).registered() is None,
        ensures
            final(self).inv(),
            final(self).registered() == Some(id),
            final(self).entries() == old(self).entries(),
            final(self).opened() == old(self).opened(),
            forall|p: Seq<char>| #[trigger] final(self).content(p) == old(self).content(p),
    ;

    fn find(&self, path: &String) -> (r: Option<FileType>)
        requires
            self.inv(),
        ensures
            r == (if self.entries().contains_key(path@) {
                Some(self.entries()[path@])
            } else {
                None::<FileType>
            }),
    ;

    /// Opens `path` under the handle `fid`, which the caller guarantees fresh.
    fn open(&mut self, path: &String, fid: FileId) -> (r: FileResult)
        requires
            old(self).inv(),
            !old(self).opened().contains_key(fid),
        ensures
            final(self).inv(),
            final(self).registered() == old(self).registered(),
            final(self).entries() == old(self).entries(),
            forall|p: Seq<char>| #[trigger] final(self).content(p) == old(self).content(p),
            r == backend_open_result(old(self).entries(), old(self).opened(), path@, fid),
            r is Ok ==> final(self).opened() == old(self).opened().insert(fid, path@),
            r is Err ==> final(self).opened() == old(self).opened(),
    ;

    fn close(&mut self, fid: &FileId) -> (r: FileResult)
        requires
            old(self).inv(),
        ensures
            final(self).inv(),
            final(self).registered() == old(self).registered(),
            final(self).entries() == old(self).entries(),
            forall|p: Seq<char>| #[trigger] final(self).content(p) == old(self).content(p),
            old(self).opened().contains_key(*fid) ==> r == Ok::<FileId, FileError>(*fid)
                && final(self).opened() == old(self).opened().remove(*fid),
            !old(self).opened().contains_key(*fid) ==> r == Err::<FileId, FileError>(
                FileError::NotFound,
            ) && final(self).opened() == old(self).opened(),
    ;

    /// Appends the bytes of the resource open under `fid` to `buf` and returns
    /// their number. It fails exactly on a handle that is not open or whose
    /// read the backend refuses, and then leaves `buf` as it was.
    fn read(&self, fid: &FileId, buf: &mut Vec<u8>) -> (r: Result<usize, FileError>)
        requires
            self.inv(),
        ensures
            r is Ok ==> self.opened().contains_key(*fid) && final(buf)@ == old(buf)@
                + self.content(self.opened()[*fid]) && r->Ok_0 == self.content(
                self.opened()[*fid],
            ).len(),
            r is Err ==> final(buf)@ == old(buf)@,
            r is Err <==> (!self.opened().contains_key(*fid) || self.read_fails(*fid)),
    ;
}

/// Whether some handle in `opened` holds `path` open.
pub open spec fn path_is_open(opened: Map<FileId, Seq<char>>, path: Seq<char>) -> bool {
    exists|f: FileId| #[trigger] opened.contains_key(f) && opened[f] == path
}

/// What a backend's `open` returns: the handle when the path exists and is
/// not open yet.
pub open spec fn backend_open_result(
    entries: Map<Seq<char>, FileType>,
    opened: Map<FileId, Seq<char>>,
    path: Seq<char>,
    fid: FileId,
) -> FileResult {
    if !entries.contains_key(path) {
        Err(FileError::NotFound)
    } else if path_is_open(opened, path) {
        Err(FileError::AlreadyOpen)
    } else {
        Ok(fid)
    }
}

/// Whether `i` is the position of the first `:` in `p`.
pub open spec fn is_first_colon(p: Seq<char>, i: int) -> bool {
    &&& 0 <= i < p.len()
    &&& p[i] == ':'
    &&& forall|j: int| 0 <= j < i ==> p[j] != ':'
}

/// Whether `p` holds a `:`.
pub open spec fn has_colon(p: Seq<char>) -> bool {
    exists|i: int| 0 <= i < p.len() && p[i] == ':'
}

/// The position of the first `:` of `p`.
pub open spec fn first_colon(p: Seq<char>) -> int {
    choose|i: int| is_first_colon(p, i)
}

/// `p` without its leading `//` pairs.
pub open spec fn strip_slashes(p: Seq<char>) -> Seq<char>
    decreases p.len(),
{
    if p.len() >= 2 && p[0] == '/' && p[1] == '/' {
        strip_slashes(p.subrange(2, p.len() as int))
    } else {
        p
    }
}

/// The scheme of a path: what stands before its first `:`.
pub open spec fn scheme_of(p: Seq<char>) -> Seq<char> {
    p.subrange(0, first_colon(p))
}

/// The backend-local part of a path: what follows its first `:`, without
/// leading `//` pairs.
pub open spec fn local_of(p: Seq<char>) -> Seq<char> {
    strip_slashes(p.subrange(first_colon(p) + 1, p.len() as int))
}

proof fn lemma_first_colon(p: Seq<char>, i: int)
    requires
        is_first_colon(p, i),
    ensures
        first_colon(p) == i,
{
    let c = first_colon(p);
    assert(is_first_colon(p, c));
    if c < i {
        assert(p[c] != ':');
    } else if i < c {
        assert(p[i] != ':');
    }
}

proof fn lemma_strip_step(p: Seq<char>, k: int)
    requires
        0 <= k <= p.len(),
        k + 2 <= p.len(),
        p[k] == '/',
        p[k + 1] == '/',
    ensures
        strip_slashes(p.subrange(k, p.len() as int)) == strip_slashes(
            p.subrange(k + 2, p.len() as int),
        ),
{
    let s = p.subrange(k, p.len() as int);
    assert(s.subrange(2, s.len() as int) =~= p.subrange(k + 2, p.len() as int));
}

/// Splits `path` into its scheme and its backend-local part, at the first `:`.
pub fn split_schema(path: &str) -> (r: (String, String))
    requires
        has_colon(path@),
    ensures
        r.0@ == scheme_of(path@),
        r.1@ == local_of(path@),
{
    let n = path.unicode_len();
    let mut i: usize = 0;
    while path.get_char(i) != ':'
        invariant
            n == path@.len(),
            has_colon(path@),
            0 <= i < n,
            forall|j: int| 0 <= j < i ==> path@[j] != ':',
        decreases n - i,
    {
        i = i + 1;
        if i == n {
            assert(false);
        }
    }
    proof {
        lemma_first_colon(path@, i as int);
    }
    let mut k: usize = i + 1;
    while k < n - 1 && path.get_char(k) == '/' && path.get_char(k + 1) == '/'
        invariant
            n == path@.len(),
            i < k <= n,
            strip_slashes(path@.subrange(k as int, n as int)) == local_of(path@),
            first_colon(path@) == i,
        decreases n - k,
    {
        proof {
            lemma_strip_step(path@, k as int);
        }
        k = k + 2;
    }
    let scheme = path.substring_char(0, i);
    let rest = path.substring_char(k, n);
    proof {
        let s = path@.subrange(k as int, n as int);
        assert(strip_slashes(s) == s);
    }
    (String::from_str(scheme), String::from_str(rest))
}

} // verus!
