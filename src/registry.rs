//! The namespace registry: named backends, and the open resources of all of
//! them under one handle space.
use vstd::prelude::*;
use vstd::string::*;
use vstd::utf8::{decode_utf8, valid_utf8};

use crate::schema::{
    has_colon, local_of, path_is_open, scheme_of, split_schema, ErrorView,
    FileError, FileId, FileType, Schema, SchemaError, SchemaId,
};
use crate::tables::{
    id_id_entries, id_id_get, id_id_insert, id_id_new, id_id_remove, id_str_entries, id_str_get,
    id_str_insert, id_str_new, id_str_remove, str_id_entries, str_id_get, str_id_insert, str_id_keys,
    str_id_new, str_id_remove, IdIdTable, IdStrTable, StrIdTable,
};

verus! {

/// The registry. Backend `i` is the one registered with `SchemaId(i)`.
pub struct SchemaMap<S> {
    schema_names: StrIdTable,
    schema_handles: Vec<S>,
    path_fid: StrIdTable,
    fid_path: IdStrTable,
    fid_schema: IdIdTable,
    next_fid: usize,
}

/// A registry result with its error seen as an `ErrorView`.
pub open spec fn result_view<T>(r: Result<T, SchemaError>) -> Result<T, ErrorView> {
    match r {
        Ok(v) => Ok(v),
        Err(e) => Err(e@),
    }
}

/// Relies on String::from_utf8: the text the bytes encode when they are valid
/// UTF-8, nothing otherwise.
#[verifier::external_body]
fn string_from_utf8(bytes: Vec<u8>) -> (r: Option<String>)
    ensures
        r is Some <==> valid_utf8(bytes@),
        r is Some ==> r->0@ == decode_utf8(bytes@),
{
    String::from_utf8(bytes).ok()
}

/// Whether the path-to-handle and handle-to-path maps are each other's
/// inverse.
pub open spec fn maps_agree(paths: Map<Seq<char>, usize>, handles: Map<usize, Seq<char>>) -> bool {
    &&& forall|p: Seq<char>| #[trigger]
        paths.contains_key(p) ==> handles.contains_key(paths[p]) && handles[paths[p]] == p
    &&& forall|h: usize| #[trigger]
        handles.contains_key(h) ==> paths.contains_key(handles[h]) && paths[handles[h]] == h
}

/// Adding a fresh path with a fresh handle keeps the two maps inverse.
proof fn lemma_agree_insert(
    paths: Map<Seq<char>, usize>,
    handles: Map<usize, Seq<char>>,
    p: Seq<char>,
    h: usize,
)
    requires
        maps_agree(paths, handles),
        !paths.contains_key(p),
        !handles.contains_key(h),
    ensures
        maps_agree(paths.insert(p, h), handles.insert(h, p)),
{
    let np = paths.insert(p, h);
    let nh = handles.insert(h, p);
    assert forall|q: Seq<char>| #[trigger] np.contains_key(q) implies nh.contains_key(np[q])
        && nh[np[q]] == q by {
        if q != p {
            assert(handles.contains_key(paths[q]));
        }
    }
    assert forall|g: usize| #[trigger] nh.contains_key(g) implies np.contains_key(nh[g])
        && np[nh[g]] == g by {
        if g != h {
            assert(paths.contains_key(handles[g]));
        }
    }
}

/// Dropping a handle and its path keeps the two maps inverse.
proof fn lemma_agree_remove(paths: Map<Seq<char>, usize>, handles: Map<usize, Seq<char>>, h: usize)
    requires
        maps_agree(paths, handles),
        handles.contains_key(h),
    ensures
        maps_agree(paths.remove(handles[h]), handles.remove(h)),
{
    let np = paths.remove(handles[h]);
    let nh = handles.remove(h);
    assert forall|q: Seq<char>| #[trigger] np.contains_key(q) implies nh.contains_key(np[q])
        && nh[np[q]] == q by {
        assert(handles.contains_key(paths[q]));
    }
    assert forall|g: usize| #[trigger] nh.contains_key(g) implies np.contains_key(nh[g])
        && np[nh[g]] == g by {
        assert(paths.contains_key(handles[g]));
    }
}

/// Whether two backends look the same through the backend contract.
pub open spec fn same_backend<S: Schema>(a: S, b: S) -> bool {
    &&& a.registered() == b.registered()
    &&& a.entries() == b.entries()
    &&& a.opened() == b.opened()
    &&& forall|p: Seq<char>| #[trigger] a.content(p) == b.content(p)
}

impl<S: Schema> SchemaMap<S> {
    /// Registered names, each with the id of its backend.
    pub closed spec fn names(&self) -> Map<Seq<char>, usize> {
        str_id_entries(self.schema_names)
    }

    /// The backends, by id.
    pub closed spec fn backends(&self) -> Seq<S> {
        self.schema_handles@
    }

    /// Open paths, each with its handle.
    pub closed spec fn paths(&self) -> Map<Seq<char>, usize> {
        str_id_entries(self.path_fid)
    }

    /// Open handles, each with its path.
    pub closed spec fn handles(&self) -> Map<usize, Seq<char>> {
        id_str_entries(self.fid_path)
    }

    /// Open handles, each with the id of the backend that holds it.
    pub closed spec fn owners(&self) -> Map<usize, usize> {
        id_id_entries(self.fid_schema)
    }

    /// The handle the next successful `open` hands out.
    pub closed spec fn next_handle(&self) -> usize {
        self.next_fid
    }

    /// The registry's consistency: ids match positions, the three handle maps
    /// agree, and the backends hold open exactly the registry's handles.
    pub closed spec fn wf(&self) -> bool {
        let names = str_id_entries(self.schema_names);
        let backends = self.schema_handles@;
        let paths = str_id_entries(self.path_fid);
        let handles = id_str_entries(self.fid_path);
        let owners = id_id_entries(self.fid_schema);
        &&& forall|n: Seq<char>| #[trigger] names.contains_key(n) ==> names[n] < backends.len()
        &&& forall|i: int|
            0 <= i < backends.len() ==> #[trigger] backends[i].inv() && backends[i].registered()
                == Some(SchemaId(i as usize))
        &&& forall|p: Seq<char>| #[trigger]
            paths.contains_key(p) ==> handles.contains_key(paths[p]) && handles[paths[p]] == p
        &&& forall|h: usize| #[trigger]
            handles.contains_key(h) ==> paths.contains_key(handles[h]) && paths[handles[h]] == h
        &&& forall|h: usize| #[trigger] handles.contains_key(h) <==> owners.contains_key(h)
        &&& forall|h: usize| #[trigger]
            handles.contains_key(h) ==> {
                &&& h < self.next_fid
                &&& has_colon(handles[h])
                &&& names.contains_key(scheme_of(handles[h]))
                &&& owners[h] < backends.len()
                &&& backends[owners[h] as int].opened().contains_key(FileId(h))
                &&& backends[owners[h] as int].opened()[FileId(h)] == local_of(handles[h])
            }
        &&& forall|i: int, f: FileId|
            0 <= i < backends.len() && #[trigger] backends[i].opened().contains_key(f)
                ==> handles.contains_key(f.0) && owners[f.0] == i
    }

    /// Whether `b` is `a` with nothing observable changed.
    pub open spec fn unchanged(a: Self, b: Self) -> bool {
        &&& b.names() == a.names()
        &&& b.paths() == a.paths()
        &&& b.handles() == a.handles()
        &&& b.owners() == a.owners()
        &&& b.next_handle() == a.next_handle()
        &&& b.backends().len() == a.backends().len()
        &&& forall|i: int|
            0 <= i < a.backends().len() ==> #[trigger] same_backend(
                b.backends()[i],
                a.backends()[i],
            )
    }

    /// The id of the backend that serves the scheme of `path`.
    pub open spec fn backend_of(self, path: Seq<char>) -> int {
        self.names()[scheme_of(path)] as int
    }

    /// What `find` returns.
    pub open spec fn find_result(self, path: Seq<char>) -> Result<FileType, ErrorView> {
        let scheme = scheme_of(path);
        let local = local_of(path);
        if !self.names().contains_key(scheme) {
            Err(ErrorView::NoSchema(scheme))
        } else if !self.backends()[self.backend_of(path)].entries().contains_key(local) {
            Err(ErrorView::NotFound(local))
        } else {
            Ok(self.backends()[self.backend_of(path)].entries()[local])
        }
    }

    /// What `open` returns.
    pub open spec fn open_result(self, path: Seq<char>) -> Result<FileId, ErrorView> {
        if self.paths().contains_key(path) {
            Err(ErrorView::AlreadyOpen(path))
        } else {
            match self.find_result(path) {
                Err(e) => Err(e),
                Ok(_) => if path_is_open(
                    self.backends()[self.backend_of(path)].opened(),
                    local_of(path),
                ) {
                    Err(ErrorView::AlreadyOpen(path))
                } else {
                    Ok(FileId(self.next_handle()))
                },
            }
        }
    }

    /// How `open` of `path` with result `r` leads from `a` to `b`.
    pub open spec fn open_step(
        a: Self,
        path: Seq<char>,
        r: Result<FileId, ErrorView>,
        b: Self,
    ) -> bool {
        &&& r == a.open_result(path)
        &&& r is Err ==> Self::unchanged(a, b)
        &&& r is Ok ==> {
            let h = a.next_handle();
            let k = a.backend_of(path);
            &&& b.names() == a.names()
            &&& b.paths() == a.paths().insert(path, h)
            &&& b.handles() == a.handles().insert(h, path)
            &&& b.owners() == a.owners().insert(h, k as usize)
            &&& b.next_handle() == a.next_handle() + 1
            &&& b.backends().len() == a.backends().len()
            &&& forall|i: int|
                0 <= i < a.backends().len() && i != k ==> #[trigger] same_backend(
                    b.backends()[i],
                    a.backends()[i],
                )
            &&& b.backends()[k].registered() == a.backends()[k].registered()
            &&& b.backends()[k].entries() == a.backends()[k].entries()
            &&& b.backends()[k].opened() == a.backends()[k].opened().insert(
                FileId(h),
                local_of(path),
            )
            &&& forall|p: Seq<char>| #[trigger]
                b.backends()[k].content(p) == a.backends()[k].content(p)
        }
    }

    /// What `close` returns.
    pub open spec fn close_result(self, fid: FileId) -> Result<FileId, ErrorView> {
        if self.handles().contains_key(fid.0) {
            Ok(fid)
        } else {
            Err(ErrorView::NotOpen(fid))
        }
    }

    /// How `close` of `fid` with result `r` leads from `a` to `b`.
    pub open spec fn close_step(a: Self, fid: FileId, r: Result<FileId, ErrorView>, b: Self) -> bool {
        &&& r == a.close_result(fid)
        &&& r is Err ==> Self::unchanged(a, b)
        &&& r is Ok ==> {
            let k = a.owners()[fid.0] as int;
            &&& b.names() == a.names()
            &&& b.paths() == a.paths().remove(a.handles()[fid.0])
            &&& b.handles() == a.handles().remove(fid.0)
            &&& b.owners() == a.owners().remove(fid.0)
            &&& b.next_handle() == a.next_handle()
            &&& b.backends().len() == a.backends().len()
            &&& forall|i: int|
                0 <= i < a.backends().len() && i != k ==> #[trigger] same_backend(
                    b.backends()[i],
                    a.backends()[i],
                )
            &&& b.backends()[k].registered() == a.backends()[k].registered()
            &&& b.backends()[k].entries() == a.backends()[k].entries()
            &&& b.backends()[k].opened() == a.backends()[k].opened().remove(fid)
            &&& forall|p: Seq<char>| #[trigger]
                b.backends()[k].content(p) == a.backends()[k].content(p)
        }
    }

    /// The bytes the resource open under `fid` reads as.
    pub open spec fn content_of(self, fid: FileId) -> Seq<u8> {
        self.backends()[self.owners()[fid.0] as int].content(local_of(self.handles()[fid.0]))
    }

    /// How `register` of `name` with `schema` and result `r` leads from `a`
    /// to `b`.
    pub open spec fn register_step(
        a: Self,
        name: Seq<char>,
        schema: S,
        r: Result<(), ErrorView>,
        b: Self,
    ) -> bool {
        &&& a.names().contains_key(name) ==> r == Err::<(), ErrorView>(
            ErrorView::SameNameRegistered(name),
        ) && Self::unchanged(a, b)
        &&& !a.names().contains_key(name) ==> {
            let id = a.backends().len();
            &&& r == Ok::<(), ErrorView>(())
            &&& b.names() == a.names().insert(name, id as usize)
            &&& b.paths() == a.paths()
            &&& b.handles() == a.handles()
            &&& b.owners() == a.owners()
            &&& b.next_handle() == a.next_handle()
            &&& b.backends().len() == id + 1
            &&& forall|i: int| 0 <= i < id ==> #[trigger] same_backend(b.backends()[i], a.backends()[i])
            &&& b.backends()[id as int].registered() == Some(SchemaId(id as usize))
            &&& b.backends()[id as int].entries() == schema.entries()
            &&& b.backends()[id as int].opened() == schema.opened()
            &&& forall|p: Seq<char>| #[trigger]
                b.backends()[id as int].content(p) == schema.content(p)
        }
    }

    /// The registry's consistency survives a step that changes backend `k`
    /// (or appends it), keeps every other backend, only adds names, and
    /// changes only handles that backend `k` holds, when backend `k` then
    /// holds open exactly the handles the maps give it.
    proof fn lemma_step_wf(self, before: Self, k: int)
        requires
            before.wf(),
            0 <= k < self.schema_handles@.len(),
            self.schema_handles@.len() == before.schema_handles@.len() || (self.schema_handles@.len() == before.schema_handles@.len() + 1 && k
                == before.schema_handles@.len()),
            forall|i: int|
                0 <= i < self.schema_handles@.len() && i != k ==> self.schema_handles@[i] == before.schema_handles@[i],
            self.schema_handles@[k].inv(),
            self.schema_handles@[k].registered() == Some(SchemaId(k as usize)),
            forall|n: Seq<char>| str_id_entries(before.schema_names).contains_key(n) ==> str_id_entries(self.schema_names).contains_key(n),
            forall|n: Seq<char>| str_id_entries(self.schema_names).contains_key(n) ==> str_id_entries(self.schema_names)[n] < self.schema_handles@.len(),
            maps_agree(str_id_entries(self.path_fid), id_str_entries(self.fid_path)),
            forall|h: usize| id_str_entries(self.fid_path).contains_key(h) <==> id_id_entries(self.fid_schema).contains_key(h),
            before.next_fid <= self.next_fid,
            forall|h: usize|
                id_str_entries(self.fid_path).contains_key(h) && id_str_entries(before.fid_path).contains_key(h) ==> id_str_entries(self.fid_path)[h] == id_str_entries(before.fid_path)[h]
                    && id_id_entries(self.fid_schema)[h] == id_id_entries(before.fid_schema)[h],
            forall|h: usize|
                id_str_entries(before.fid_path).contains_key(h) && id_id_entries(before.fid_schema)[h] != k ==> id_str_entries(self.fid_path).contains_key(h),
            forall|h: usize|
                id_str_entries(self.fid_path).contains_key(h) && !id_str_entries(before.fid_path).contains_key(h) ==> h < self.next_fid
                    && has_colon(id_str_entries(self.fid_path)[h]) && str_id_entries(self.schema_names).contains_key(scheme_of(id_str_entries(self.fid_path)[h])) && id_id_entries(self.fid_schema)[h] == k,
            forall|f: FileId|
                self.schema_handles@[k].opened().contains_key(f) ==> id_str_entries(self.fid_path).contains_key(f.0) && id_id_entries(self.fid_schema)[f.0] == k,
            forall|h: usize|
                id_str_entries(self.fid_path).contains_key(h) && id_id_entries(self.fid_schema)[h] == k ==> self.schema_handles@[k].opened().contains_key(FileId(h))
                    && self.schema_handles@[k].opened()[FileId(h)] == local_of(id_str_entries(self.fid_path)[h]),
        ensures
            self.wf(),
    {
        let bs = self.schema_handles@;
        let old_bs = before.schema_handles@;
        let names = str_id_entries(self.schema_names);
        let handles = id_str_entries(self.fid_path);
        let owners = id_id_entries(self.fid_schema);
        let old_handles = id_str_entries(before.fid_path);
        let old_owners = id_id_entries(before.fid_schema);
        assert forall|i: int| 0 <= i < bs.len() implies #[trigger] bs[i].inv()
            && bs[i].registered() == Some(SchemaId(i as usize)) by {
            if i != k {
                assert(old_bs[i].inv());
                assert(bs[i] == old_bs[i]);
            }
        }
        assert forall|i: int, f: FileId|
            0 <= i < bs.len() && #[trigger] bs[i].opened().contains_key(f) implies
            handles.contains_key(f.0) && owners[f.0] == i by {
            if i != k {
                assert(bs[i] == old_bs[i]);
                assert(old_handles.contains_key(f.0) && old_owners[f.0] == i);
            }
        }
        assert forall|h: usize| #[trigger] handles.contains_key(h) implies {
            &&& h < self.next_fid
            &&& has_colon(handles[h])
            &&& names.contains_key(scheme_of(handles[h]))
            &&& owners[h] < bs.len()
            &&& bs[owners[h] as int].opened().contains_key(FileId(h))
            &&& bs[owners[h] as int].opened()[FileId(h)] == local_of(handles[h])
        } by {
            if old_handles.contains_key(h) {
                assert(handles[h] == old_handles[h] && owners[h] == old_owners[h]);
                assert(old_owners[h] < old_bs.len());
                assert(str_id_entries(before.schema_names).contains_key(scheme_of(old_handles[h])));
                if owners[h] != k {
                    assert(bs[owners[h] as int] == old_bs[owners[h] as int]);
                }
            } else {
                assert(owners[h] == k);
            }
        }
    }

    /// What consistency gives a caller: open paths have registered schemes,
    /// and every handle a backend holds was handed out already.
    pub proof fn lemma_wf_facts(self)
        requires
            self.wf(),
        ensures
            forall|p: Seq<char>| #[trigger]
                self.paths().contains_key(p) ==> has_colon(p) && self.names().contains_key(
                    scheme_of(p),
                ) && self.handles().contains_key(self.paths()[p]) && self.handles()[self.paths()[p]]
                    == p,
            forall|h: usize| #[trigger]
                self.handles().contains_key(h) ==> h < self.next_handle() && self.paths().contains_key(
                    self.handles()[h],
                ) && self.paths()[self.handles()[h]] == h && self.owners().contains_key(h)
                    && self.owners()[h] < self.backends().len(),
            forall|i: int, f: FileId|
                0 <= i < self.backends().len() && #[trigger] self.backends()[i].opened().contains_key(f)
                    ==> f.0 < self.next_handle(),
            forall|n: Seq<char>| #[trigger]
                self.names().contains_key(n) ==> self.names()[n] < self.backends().len(),
            forall|i: int| 0 <= i < self.backends().len() ==> #[trigger] self.backends()[i].inv(),
    {
        assert forall|p: Seq<char>| #[trigger] self.paths().contains_key(p) implies has_colon(p)
            && self.names().contains_key(scheme_of(p)) by {
            assert(id_str_entries(self.fid_path).contains_key(str_id_entries(self.path_fid)[p]));
        }
        assert forall|i: int, f: FileId|
            0 <= i < self.backends().len() && #[trigger] self.backends()[i].opened().contains_key(f)
            implies f.0 < self.next_handle() by {
            assert(id_str_entries(self.fid_path).contains_key(f.0));
        }
        assert forall|i: int| 0 <= i < self.backends().len() implies #[trigger] self.backends()[i].inv() by {
            assert(self.schema_handles@[i].inv());
        }
    }

    /// An empty registry.
    pub fn new() -> (r: Self)
        ensures
            r.wf(),
            r.names() == Map::<Seq<char>, usize>::empty(),
            r.backends() == Seq::<S>::empty(),
            r.paths() == Map::<Seq<char>, usize>::empty(),
            r.handles() == Map::<usize, Seq<char>>::empty(),
            r.owners() == Map::<usize, usize>::empty(),
            r.next_handle() == 0,
    {
        SchemaMap {
            schema_names: str_id_new(),
            schema_handles: Vec::new(),
            path_fid: str_id_new(),
            fid_path: id_str_new(),
            fid_schema: id_id_new(),
            next_fid: 0,
        }
    }

    /// Registers `schema` under `name`, binding it to the next backend id.
    pub fn register(&mut self, name: String, schema: S) -> (r: Result<(), SchemaError>)
        requires
            old(self).wf(),
            old(self).backends().len() < usize::MAX,
            schema.inv(),
            schema.registered() is None,
            schema.opened() == Map::<FileId, Seq<char>>::empty(),
        ensures
            final(self).wf(),
            Self::register_step(*old(self), name@, schema, result_view(r), *final(self)),
    {
        if str_id_get(&self.schema_names, name.as_str()).is_some() {
            return Err(SchemaError::SameNameRegistered(name));
        }
        let id = self.schema_handles.len();
        let ghost before = *self;
        let mut schema = schema;
        schema.register(SchemaId(id));
        str_id_insert(&mut self.schema_names, name, id);
        self.schema_handles.push(schema);
        proof {
            let owners = id_id_entries(self.fid_schema);
            assert forall|h: usize| id_str_entries(self.fid_path).contains_key(h) implies owners[h]
                < id by {}
            self.lemma_step_wf(before, id as int);
        }
        Ok(())
    }

    /// What `path` names: its scheme picks the backend, which looks up the
    /// rest.
    pub fn find(&self, path: &str) -> (r: Result<FileType, SchemaError>)
        requires
            self.wf(),
            has_colon(path@),
        ensures
            result_view(r) == self.find_result(path@),
    {
        let (scheme, rest) = split_schema(path);
        match str_id_get(&self.schema_names, scheme.as_str()) {
            None => Err(SchemaError::NoSchema(scheme)),
            Some(b) => match self.schema_handles[b].find(&rest) {
                Some(t) => Ok(t),
                None => Err(SchemaError::NotFound(rest)),
            },
        }
    }

    /// Opens `path`, handing out a handle that was never handed out before.
    pub fn open(&mut self, path: &str) -> (r: Result<FileId, SchemaError>)
        requires
            old(self).wf(),
            old(self).next_handle() < usize::MAX,
            has_colon(path@),
        ensures
            final(self).wf(),
            Self::open_step(*old(self), path@, result_view(r), *final(self)),
    {
        if str_id_get(&self.path_fid, path).is_some() {
            return Err(SchemaError::AlreadyOpen(String::from_str(path)));
        }
        match self.find(path) {
            Err(e) => Err(e),
            Ok(_) => {
                let (scheme, rest) = split_schema(path);
                let b = match str_id_get(&self.schema_names, scheme.as_str()) {
                    Some(b) => b,
                    None => return Err(SchemaError::NoSchema(scheme)),
                };
                let fid = FileId(self.next_fid);
                assert(!self.schema_handles@[b as int].opened().contains_key(fid));
                let ghost before = *self;
                let outcome = self.schema_handles[b].open(&rest, fid);
                proof {
                    if outcome is Err {
                        assert(before.schema_handles@[b as int].inv());
                        self.lemma_step_wf(before, b as int);
                    }
                }
                match outcome {
                    Err(FileError::NotFound) => Err(SchemaError::NotFound(rest)),
                    Err(FileError::AlreadyOpen) => Err(SchemaError::AlreadyOpen(String::from_str(path))),
                    Ok(fid) => {
                        self.next_fid = self.next_fid + 1;
                        str_id_insert(&mut self.path_fid, String::from_str(path), fid.0);
                        id_str_insert(&mut self.fid_path, fid.0, String::from_str(path));
                        id_id_insert(&mut self.fid_schema, fid.0, b);
                        proof {
                            assert(!id_str_entries(before.fid_path).contains_key(fid.0));
                            lemma_agree_insert(
                                str_id_entries(before.path_fid),
                                id_str_entries(before.fid_path),
                                path@,
                                fid.0,
                            );
                            assert(before.schema_handles@[b as int].inv());
                            self.lemma_step_wf(before, b as int);
                        }
                        Ok(fid)
                    },
                }
            },
        }
    }

    /// Closes the resource open under `fid`, in its backend and in all three
    /// handle maps.
    pub fn close(&mut self, fid: &FileId) -> (r: Result<FileId, SchemaError>)
        requires
            old(self).wf(),
        ensures
            final(self).wf(),
            Self::close_step(*old(self), *fid, result_view(r), *final(self)),
    {
        let b = match id_id_get(&self.fid_schema, fid.0) {
            Some(b) => b,
            None => return Err(SchemaError::NotOpen(*fid)),
        };
        let ghost before = *self;
        let outcome = self.schema_handles[b].close(fid);
        match outcome {
            Ok(f) => {
                let spath = id_str_remove(&mut self.fid_path, f.0);
                id_id_remove(&mut self.fid_schema, f.0);
                if let Some(p) = spath {
                    str_id_remove(&mut self.path_fid, p.as_str());
                }
                proof {
                    lemma_agree_remove(
                        str_id_entries(before.path_fid),
                        id_str_entries(before.fid_path),
                        fid.0,
                    );
                    assert(before.schema_handles@[b as int].inv());
                    self.lemma_step_wf(before, b as int);
                }
                Ok(f)
            },
            Err(_) => Err(SchemaError::NotOpen(*fid)),
        }
    }

    /// Whether the backend that holds `fid` open refuses to read it.
    pub open spec fn read_refused(self, fid: FileId) -> bool {
        self.backends()[self.owners()[fid.0] as int].read_fails(fid)
    }

    /// How `read_to_end` of `fid` with result `r` turns `buf0` into `buf1`.
    pub open spec fn read_step(
        self,
        fid: FileId,
        buf0: Seq<u8>,
        r: Result<usize, ErrorView>,
        buf1: Seq<u8>,
    ) -> bool {
        if !self.handles().contains_key(fid.0) {
            r == Err::<usize, ErrorView>(ErrorView::NotOpen(fid)) && buf1 == buf0
        } else if self.read_refused(fid) {
            r == Err::<usize, ErrorView>(ErrorView::NoRead(fid)) && buf1 == buf0
        } else {
            r == Ok::<usize, ErrorView>(self.content_of(fid).len() as usize) && buf1 == buf0
                + self.content_of(fid)
        }
    }

    /// Appends the bytes of the resource open under `fid` to `buf`.
    pub fn read_to_end(&self, fid: &FileId, buf: &mut Vec<u8>) -> (r: Result<usize, SchemaError>)
        requires
            self.wf(),
        ensures
            self.read_step(*fid, old(buf)@, result_view(r), final(buf)@),
    {
        let b = match id_id_get(&self.fid_schema, fid.0) {
            Some(b) => b,
            None => return Err(SchemaError::NotOpen(*fid)),
        };
        proof {
            assert(id_str_entries(self.fid_path).contains_key(fid.0));
            assert(self.schema_handles@[b as int].inv());
            assert(self.schema_handles@[b as int].opened().contains_key(*fid));
        }
        match self.schema_handles[b].read(fid, buf) {
            Ok(n) => Ok(n),
            Err(_) => Err(SchemaError::NoRead(*fid)),
        }
    }

    /// How `read_to_string` of `fid` with result `r` turns `buf0` into `buf1`.
    pub open spec fn read_text_step(
        self,
        fid: FileId,
        buf0: Seq<char>,
        r: Result<usize, ErrorView>,
        buf1: Seq<char>,
    ) -> bool {
        if !self.handles().contains_key(fid.0) {
            r == Err::<usize, ErrorView>(ErrorView::NotOpen(fid)) && buf1 == buf0
        } else if self.read_refused(fid) {
            r == Err::<usize, ErrorView>(ErrorView::NoRead(fid)) && buf1 == buf0
        } else {
            Self::text_result(fid, self.content_of(fid), buf0, r, buf1)
        }
    }

    /// How the bytes read under `fid` turn into the text in the buffer: their
    /// number and the text they encode when they are UTF-8, `NoRead` with
    /// the buffer kept otherwise.
    pub open spec fn text_result(
        fid: FileId,
        bytes: Seq<u8>,
        buf0: Seq<char>,
        r: Result<usize, ErrorView>,
        buf1: Seq<char>,
    ) -> bool {
        if valid_utf8(bytes) {
            r == Ok::<usize, ErrorView>(bytes.len() as usize) && buf1 == decode_utf8(bytes)
        } else {
            r == Err::<usize, ErrorView>(ErrorView::NoRead(fid)) && buf1 == buf0
        }
    }

    /// Replaces `buf` with the text that `bytes`, read under `fid`, encode.
    pub fn text_from_bytes(fid: FileId, bytes: Vec<u8>, buf: &mut String) -> (r: Result<
        usize,
        SchemaError,
    >)
        ensures
            Self::text_result(fid, bytes@, old(buf)@, result_view(r), final(buf)@),
    {
        let n = bytes.len();
        match string_from_utf8(bytes) {
            None => Err(SchemaError::NoRead(fid)),
            Some(text) => {
                *buf = text;
                Ok(n)
            },
        }
    }

    /// Replaces `buf` with the text of the resource open under `fid`, and
    /// returns its length in bytes; bytes that are not UTF-8 do not read.
    pub fn read_to_string(&self, fid: &FileId, buf: &mut String) -> (r: Result<usize, SchemaError>)
        requires
            self.wf(),
        ensures
            self.read_text_step(*fid, old(buf)@, result_view(r), final(buf)@),
    {
        let mut bytes: Vec<u8> = Vec::new();
        match self.read_to_end(fid, &mut bytes) {
            Err(e) => Err(e),
            Ok(_) => {
                assert(bytes@ =~= self.content_of(*fid));
                Self::text_from_bytes(*fid, bytes, buf)
            },
        }
    }

    /// Whether `open` can still hand out a handle.
    pub fn handles_left(&self) -> (r: bool)
        ensures
            r == (self.next_handle() < usize::MAX),
    {
        self.next_fid < usize::MAX
    }

    /// How many backends are registered.
    pub fn backend_count(&self) -> (r: usize)
        ensures
            r == self.backends().len(),
    {
        self.schema_handles.len()
    }

    /// The registered names, in no given order.
    pub fn dump_names(&self) -> (r: Vec<String>)
        ensures
            r@.len() == self.names().dom().len(),
            forall|i: int| 0 <= i < r@.len() ==> #[trigger] self.names().contains_key(r@[i]@),
            forall|n: Seq<char>| #[trigger] self.names().contains_key(n) ==> exists|i: int|
                0 <= i < r@.len() && r@[i]@ == n,
    {
        str_id_keys(&self.schema_names)
    }
}

} // verus!
