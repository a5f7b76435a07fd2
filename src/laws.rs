//! Laws of the registry, stated over the steps that its operations promise.
use vstd::prelude::*;

use crate::registry::SchemaMap;
use crate::schema::{has_colon, local_of, scheme_of, ErrorView, FileId, Schema};
use crate::sys::SysSchema;
use vstd::utf8::decode_utf8;

verus! {

/// Registering a name a second time fails with `SameNameRegistered`, and the
/// name keeps the backend id of the first registration.
pub proof fn law_register_same_name_twice<S: Schema>(
    m0: SchemaMap<S>,
    m1: SchemaMap<S>,
    m2: SchemaMap<S>,
    name: Seq<char>,
    first: S,
    second: S,
    r1: Result<(), ErrorView>,
    r2: Result<(), ErrorView>,
)
    requires
        SchemaMap::register_step(m0, name, first, r1, m1),
        SchemaMap::register_step(m1, name, second, r2, m2),
    ensures
        r2 == Err::<(), ErrorView>(ErrorView::SameNameRegistered(name)),
        m2.names().contains_key(name),
        m2.names()[name] == m1.names()[name],
{
}

/// A path whose scheme is not registered is neither found nor opened:
/// both fail with `NoSchema`.
pub proof fn law_unregistered_scheme<S: Schema>(m: SchemaMap<S>, path: Seq<char>)
    requires
        m.wf(),
        has_colon(path),
        !m.names().contains_key(scheme_of(path)),
    ensures
        m.find_result(path) == Err::<crate::schema::FileType, ErrorView>(
            ErrorView::NoSchema(scheme_of(path)),
        ),
        m.open_result(path) == Err::<FileId, ErrorView>(ErrorView::NoSchema(scheme_of(path))),
{
    m.lemma_wf_facts();
}

/// Once a path is open, opening the same path again fails with
/// `AlreadyOpen`.
pub proof fn law_open_twice<S: Schema>(
    m0: SchemaMap<S>,
    m1: SchemaMap<S>,
    path: Seq<char>,
    f: FileId,
)
    requires
        m0.wf(),
        SchemaMap::open_step(m0, path, Ok(f), m1),
    ensures
        m1.open_result(path) == Err::<FileId, ErrorView>(ErrorView::AlreadyOpen(path)),
{
}

/// An open path stays open, and so refuses a second `open`, across the
/// opening of any path.
pub proof fn law_still_open_after_open<S: Schema>(
    m0: SchemaMap<S>,
    m1: SchemaMap<S>,
    path: Seq<char>,
    other: Seq<char>,
    r: Result<FileId, ErrorView>,
)
    requires
        m0.wf(),
        m0.paths().contains_key(path),
        SchemaMap::open_step(m0, other, r, m1),
    ensures
        m1.paths().contains_key(path),
        m1.paths()[path] == m0.paths()[path],
        m1.open_result(path) == Err::<FileId, ErrorView>(ErrorView::AlreadyOpen(path)),
{
}

/// An open path stays open across the closing of any handle but its own.
pub proof fn law_still_open_after_other_close<S: Schema>(
    m0: SchemaMap<S>,
    m1: SchemaMap<S>,
    path: Seq<char>,
    f: FileId,
    r: Result<FileId, ErrorView>,
)
    requires
        m0.wf(),
        m0.paths().contains_key(path),
        m0.paths()[path] != f.0,
        SchemaMap::close_step(m0, f, r, m1),
    ensures
        m1.paths().contains_key(path),
        m1.open_result(path) == Err::<FileId, ErrorView>(ErrorView::AlreadyOpen(path)),
{
    m0.lemma_wf_facts();
}

/// A path that exists and is open neither in the registry nor in its backend
/// is opened with the registry's next handle.
pub proof fn law_open_succeeds<S: Schema>(m: SchemaMap<S>, path: Seq<char>)
    requires
        m.wf(),
        has_colon(path),
        m.find_result(path) is Ok,
        !m.paths().contains_key(path),
        !crate::schema::path_is_open(m.backends()[m.backend_of(path)].opened(), local_of(path)),
    ensures
        m.open_result(path) == Ok::<FileId, ErrorView>(FileId(m.next_handle())),
{
}

/// A handle that the registry never handed out does not close: `NotOpen`.
pub proof fn law_close_never_opened<S: Schema>(m: SchemaMap<S>, f: FileId)
    requires
        m.wf(),
        f.0 >= m.next_handle(),
    ensures
        m.close_result(f) == Err::<FileId, ErrorView>(ErrorView::NotOpen(f)),
{
    m.lemma_wf_facts();
}

/// A handle that was closed does not close again: `NotOpen`.
pub proof fn law_close_twice<S: Schema>(
    m0: SchemaMap<S>,
    m1: SchemaMap<S>,
    f: FileId,
    r: Result<FileId, ErrorView>,
)
    requires
        m0.wf(),
        SchemaMap::close_step(m0, f, r, m1),
    ensures
        m1.close_result(f) == Err::<FileId, ErrorView>(ErrorView::NotOpen(f)),
{
}

/// Opening a path, closing it and opening it again succeeds, with a handle
/// other than the first.
pub proof fn law_reopen_after_close<S: Schema>(
    m0: SchemaMap<S>,
    m1: SchemaMap<S>,
    m2: SchemaMap<S>,
    path: Seq<char>,
    f: FileId,
    r: Result<FileId, ErrorView>,
)
    requires
        m0.wf(),
        m1.wf(),
        SchemaMap::open_step(m0, path, Ok(f), m1),
        SchemaMap::close_step(m1, f, r, m2),
    ensures
        r == Ok::<FileId, ErrorView>(f),
        m2.open_result(path) is Ok,
        m2.open_result(path)->Ok_0 != f,
{
    m0.lemma_wf_facts();
    let k = m0.backend_of(path);
    assert(m0.names().contains_key(scheme_of(path)));
    assert(0 <= k < m0.backends().len());
    if m0.backends()[k].opened().contains_key(f) {
        assert(f.0 < m0.next_handle());
    }
    assert(m2.paths() =~= m0.paths());
    assert(m2.backends()[k].opened() =~= m0.backends()[k].opened());
}

/// Handles come from one counter: an open hands out the counter's value and
/// moves it on, a close leaves it, so a later handle is always larger.
pub proof fn law_handles_increase<S: Schema>(
    m0: SchemaMap<S>,
    m1: SchemaMap<S>,
    m2: SchemaMap<S>,
    m3: SchemaMap<S>,
    p: Seq<char>,
    q: Seq<char>,
    f0: FileId,
    f1: FileId,
    rc: Result<FileId, ErrorView>,
    c: FileId,
)
    requires
        SchemaMap::open_step(m0, p, Ok(f0), m1),
        SchemaMap::close_step(m1, c, rc, m2),
        SchemaMap::open_step(m2, q, Ok(f1), m3),
    ensures
        f0.0 == m0.next_handle(),
        f1.0 == m2.next_handle(),
        f0.0 < f1.0,
        f0 != f1,
{
}

/// An opened handle reads as the bytes that its backend holds for the path.
pub proof fn law_read_after_open<S: Schema>(
    m0: SchemaMap<S>,
    m1: SchemaMap<S>,
    path: Seq<char>,
    f: FileId,
)
    requires
        m0.wf(),
        SchemaMap::open_step(m0, path, Ok(f), m1),
    ensures
        m1.content_of(f) == m0.backends()[m0.backend_of(path)].content(local_of(path)),
{
}

/// A closed handle does not read: `NotOpen`, with the buffer unchanged.
pub proof fn law_read_after_close<S: Schema>(
    m0: SchemaMap<S>,
    m1: SchemaMap<S>,
    f: FileId,
    r: Result<FileId, ErrorView>,
    buf0: Seq<u8>,
    rr: Result<usize, ErrorView>,
    buf1: Seq<u8>,
)
    requires
        m0.wf(),
        SchemaMap::close_step(m0, f, r, m1),
        m1.read_step(f, buf0, rr, buf1),
    ensures
        rr == Err::<usize, ErrorView>(ErrorView::NotOpen(f)),
        buf1 == buf0,
{
}

/// On a registry of `sys` backends, an open handle reads exactly the bytes
/// of its file.
pub proof fn law_sys_read_bytes(
    m: SchemaMap<SysSchema>,
    f: FileId,
    buf0: Seq<u8>,
    r: Result<usize, ErrorView>,
    buf1: Seq<u8>,
)
    requires
        m.wf(),
        m.handles().contains_key(f.0),
        m.read_step(f, buf0, r, buf1),
    ensures
        r == Ok::<usize, ErrorView>(m.content_of(f).len() as usize),
        buf1 == buf0 + m.content_of(f),
{
}

/// On a registry of `sys` backends, an open handle reads as the text of its
/// file.
pub proof fn law_sys_read_text(
    m: SchemaMap<SysSchema>,
    f: FileId,
    buf0: Seq<char>,
    r: Result<usize, ErrorView>,
    buf1: Seq<char>,
)
    requires
        m.wf(),
        m.handles().contains_key(f.0),
        m.read_text_step(f, buf0, r, buf1),
    ensures
        r == Ok::<usize, ErrorView>(m.content_of(f).len() as usize),
        buf1 == m.backends()[m.owners()[f.0] as int].texts()[local_of(m.handles()[f.0])],
        buf1 == decode_utf8(m.content_of(f)),
{
    m.backends()[m.owners()[f.0] as int].lemma_content_is_text(local_of(m.handles()[f.0]));
}

} // verus!
