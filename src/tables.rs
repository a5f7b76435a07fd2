//! Hash maps of the `hashbrown` crate, each kept in a struct whose contents
//! Verus sees only through a named map.
use vstd::prelude::*;

verus! {

/// A `hashbrown` map from strings to integers.
#[verifier::external_body]
pub struct StrIdTable {
    inner: hashbrown::HashMap<String, usize>,
}

/// A `hashbrown` map from integers to strings.
#[verifier::external_body]
pub struct IdStrTable {
    inner: hashbrown::HashMap<usize, String>,
}

/// A `hashbrown` map from integers to integers.
#[verifier::external_body]
pub struct IdIdTable {
    inner: hashbrown::HashMap<usize, usize>,
}

/// A `hashbrown` map from strings to strings.
#[verifier::external_body]
pub struct StrStrTable {
    inner: hashbrown::HashMap<String, String>,
}

/// What a map from strings to integers holds, keyed by the characters of
/// each key.
pub uninterp spec fn str_id_entries(t: StrIdTable) -> Map<Seq<char>, usize>;

/// What a map from integers to strings holds.
pub uninterp spec fn id_str_entries(t: IdStrTable) -> Map<usize, Seq<char>>;

/// What a map from integers to integers holds.
pub uninterp spec fn id_id_entries(t: IdIdTable) -> Map<usize, usize>;

/// What a map from strings to strings holds.
pub uninterp spec fn str_str_entries(t: StrStrTable) -> Map<
    Seq<char>,
    Seq<char>,
>;

/// Relies on hashbrown::HashMap::new: a new map holds no entry.
#[verifier::external_body]
pub(crate) fn str_id_new() -> (r: StrIdTable)
    ensures
        str_id_entries(r) =~= Map::empty(),
{
    StrIdTable { inner: hashbrown::HashMap::new() }
}

/// Relies on hashbrown::HashMap::get: the value stored under the key, if any.
#[verifier::external_body]
pub(crate) fn str_id_get(m: &StrIdTable, k: &str) -> (r: Option<usize>)
    ensures
        r == (if str_id_entries(*m).contains_key(k@) {
            Some(str_id_entries(*m)[k@])
        } else {
            None::<usize>
        }),
{
    m.inner.get(k).copied()
}

/// Relies on hashbrown::HashMap::insert: the key now maps to the value, the
/// other entries stay.
#[verifier::external_body]
pub(crate) fn str_id_insert(m: &mut StrIdTable, k: String, v: usize)
    ensures
        str_id_entries(*final(m)) == str_id_entries(*old(m)).insert(k@, v),
{
    m.inner.insert(k, v);
}

/// Relies on hashbrown::HashMap::remove: the key no longer maps to anything,
/// the other entries stay.
#[verifier::external_body]
pub(crate) fn str_id_remove(m: &mut StrIdTable, k: &str)
    ensures
        str_id_entries(*final(m)) == str_id_entries(*old(m)).remove(k@),
{
    m.inner.remove(k);
}

/// Relies on hashbrown::HashMap::keys: each key once, in no given order.
#[verifier::external_body]
pub(crate) fn str_id_keys(m: &StrIdTable) -> (r: Vec<String>)
    ensures
        r@.len() == str_id_entries(*m).dom().len(),
        forall|i: int| 0 <= i < r@.len() ==> #[trigger] str_id_entries(*m).contains_key(r@[i]@),
        forall|k: Seq<char>| #[trigger] str_id_entries(*m).contains_key(k) ==> exists|i: int|
            0 <= i < r@.len() && r@[i]@ == k,
{
    m.inner.keys().cloned().collect()
}

/// Relies on hashbrown::HashMap::new: a new map holds no entry.
#[verifier::external_body]
pub(crate) fn id_str_new() -> (r: IdStrTable)
    ensures
        id_str_entries(r) =~= Map::empty(),
{
    IdStrTable { inner: hashbrown::HashMap::new() }
}

/// Relies on hashbrown::HashMap::get: a copy of the value stored under the
/// key, if any.
#[verifier::external_body]
pub(crate) fn id_str_get(m: &IdStrTable, k: usize) -> (r: Option<String>)
    ensures
        r is Some <==> id_str_entries(*m).contains_key(k),
        r is Some ==> r->0@ == id_str_entries(*m)[k],
{
    m.inner.get(&k).cloned()
}

/// Relies on hashbrown::HashMap::insert: the key now maps to the value, the
/// other entries stay.
#[verifier::external_body]
pub(crate) fn id_str_insert(m: &mut IdStrTable, k: usize, v: String)
    ensures
        id_str_entries(*final(m)) == id_str_entries(*old(m)).insert(k, v@),
{
    m.inner.insert(k, v);
}

/// Relies on hashbrown::HashMap::remove: the key no longer maps to anything,
/// the other entries stay, and the value it had is handed back.
#[verifier::external_body]
pub(crate) fn id_str_remove(m: &mut IdStrTable, k: usize) -> (r: Option<String>)
    ensures
        id_str_entries(*final(m)) == id_str_entries(*old(m)).remove(k),
        r is Some <==> id_str_entries(*old(m)).contains_key(k),
        r is Some ==> r->0@ == id_str_entries(*old(m))[k],
{
    m.inner.remove(&k)
}

/// Relies on hashbrown::HashMap::new: a new map holds no entry.
#[verifier::external_body]
pub(crate) fn id_id_new() -> (r: IdIdTable)
    ensures
        id_id_entries(r) =~= Map::empty(),
{
    IdIdTable { inner: hashbrown::HashMap::new() }
}

/// Relies on hashbrown::HashMap::get: the value stored under the key, if any.
#[verifier::external_body]
pub(crate) fn id_id_get(m: &IdIdTable, k: usize) -> (r: Option<usize>)
    ensures
        r == (if id_id_entries(*m).contains_key(k) {
            Some(id_id_entries(*m)[k])
        } else {
            None::<usize>
        }),
{
    m.inner.get(&k).copied()
}

/// Relies on hashbrown::HashMap::insert: the key now maps to the value, the
/// other entries stay.
#[verifier::external_body]
pub(crate) fn id_id_insert(m: &mut IdIdTable, k: usize, v: usize)
    ensures
        id_id_entries(*final(m)) == id_id_entries(*old(m)).insert(k, v),
{
    m.inner.insert(k, v);
}

/// Relies on hashbrown::HashMap::remove: the key no longer maps to anything,
/// the other entries stay.
#[verifier::external_body]
pub(crate) fn id_id_remove(m: &mut IdIdTable, k: usize)
    ensures
        id_id_entries(*final(m)) == id_id_entries(*old(m)).remove(k),
{
    m.inner.remove(&k);
}

/// Relies on hashbrown::HashMap::new: a new map holds no entry.
#[verifier::external_body]
pub(crate) fn str_str_new() -> (r: StrStrTable)
    ensures
        str_str_entries(r) =~= Map::empty(),
{
    StrStrTable { inner: hashbrown::HashMap::new() }
}

/// Relies on hashbrown::HashMap::get: a copy of the value stored under the
/// key, if any.
#[verifier::external_body]
pub(crate) fn str_str_get(m: &StrStrTable, k: &str) -> (r: Option<String>)
    ensures
        r is Some <==> str_str_entries(*m).contains_key(k@),
        r is Some ==> r->0@ == str_str_entries(*m)[k@],
{
    m.inner.get(k).cloned()
}

/// Relies on hashbrown::HashMap::insert: the key now maps to the value, the
/// other entries stay.
#[verifier::external_body]
pub(crate) fn str_str_insert(m: &mut StrStrTable, k: String, v: String)
    ensures
        str_str_entries(*final(m)) == str_str_entries(*old(m)).insert(k@, v@),
{
    m.inner.insert(k, v);
}

} // verus!
