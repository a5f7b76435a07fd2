//! A backend over a fixed set of text files, one per path.
use vstd::prelude::*;
use vstd::string::*;
use vstd::utf8::{
    decode_utf8, encode_utf8, encode_utf8_decode_utf8, encode_utf8_valid_utf8,
    is_ascii_chars, is_ascii_chars_encode_utf8, valid_utf8,
};

use crate::schema::{path_is_open, FileError, FileId, FileResult, FileType, Schema, SchemaId};
use crate::tables::{
    id_str_entries, id_str_get, id_str_insert, id_str_new, id_str_remove, str_id_entries, str_id_get,
    str_id_insert, str_id_new, str_id_remove, str_str_entries, str_str_get, str_str_insert,
    str_str_new, IdStrTable, StrIdTable, StrStrTable,
};

verus! {

/// System information as text files: each path reads as the UTF-8 bytes of
/// its text.
pub struct SysSchema {
    schema_id: Option<SchemaId>,
    sysinfo: StrStrTable,
    by_path: StrIdTable,
    by_fid: IdStrTable,
}

impl SysSchema {
    /// The text stored under each path.
    pub closed spec fn texts(&self) -> Map<Seq<char>, Seq<char>> {
        str_str_entries(self.sysinfo)
    }

    /// The bytes of a path are the UTF-8 form of its text, so they decode
    /// back to it.
    pub proof fn lemma_content_is_text(&self, path: Seq<char>)
        ensures
            valid_utf8(self.content(path)),
            decode_utf8(self.content(path)) == self.texts()[path],
    {
        encode_utf8_valid_utf8(self.sysinfo_text(path));
        encode_utf8_decode_utf8(self.sysinfo_text(path));
    }

    closed spec fn sysinfo_text(&self, path: Seq<char>) -> Seq<char> {
        str_str_entries(self.sysinfo)[path]
    }

    /// A backend that holds the single file `info`, reading `Hello World`.
    pub fn new() -> (r: SysSchema)
        ensures
            r.inv(),
            r.registered() is None,
            r.opened() == Map::<FileId, Seq<char>>::empty(),
            r.texts() == Map::<Seq<char>, Seq<char>>::empty().insert("info"@, "Hello World"@),
            r.entries() == Map::<Seq<char>, FileType>::empty().insert("info"@, FileType::File),
            r.content("info"@) == encode_utf8("Hello World"@),
            r.content("info"@) == seq![72u8, 101, 108, 108, 111, 32, 87, 111, 114, 108, 100],
    {
        let mut sysinfo = str_str_new();
        str_str_insert(&mut sysinfo, String::from_str("info"), String::from_str("Hello World"));
        let r = SysSchema {
            schema_id: None,
            sysinfo,
            by_path: str_id_new(),
            by_fid: id_str_new(),
        };
        proof {
            reveal_strlit("Hello World");
            let t = "Hello World"@;
            assert(is_ascii_chars(t));
            is_ascii_chars_encode_utf8(t);
            assert(encode_utf8(t) =~= seq![72u8, 101, 108, 108, 111, 32, 87, 111, 114, 108, 100]);
        }
        assert(r.opened() =~= Map::<FileId, Seq<char>>::empty());
        assert(r.entries() =~= Map::<Seq<char>, FileType>::empty().insert("info"@, FileType::File));
        r
    }
}

impl Schema for SysSchema {
    closed spec fn registered(&self) -> Option<SchemaId> {
        self.schema_id
    }

    closed spec fn entries(&self) -> Map<Seq<char>, FileType> {
        Map::new(|p: Seq<char>| str_str_entries(self.sysinfo).contains_key(p), |p: Seq<char>| FileType::File)
    }

    closed spec fn content(&self, path: Seq<char>) -> Seq<u8> {
        encode_utf8(str_str_entries(self.sysinfo)[path])
    }

    closed spec fn opened(&self) -> Map<FileId, Seq<char>> {
        Map::new(|f: FileId| id_str_entries(self.by_fid).contains_key(f.0), |f: FileId| id_str_entries(self.by_fid)[f.0])
    }

    /// Every open file reads.
    open spec fn read_fails(&self, fid: FileId) -> bool {
        false
    }

    closed spec fn inv(&self) -> bool {
        &&& forall|p: Seq<char>| #[trigger]
            str_id_entries(self.by_path).contains_key(p) ==> id_str_entries(self.by_fid).contains_key(str_id_entries(self.by_path)[p])
                && id_str_entries(self.by_fid)[str_id_entries(self.by_path)[p]] == p
        &&& forall|h: usize| #[trigger]
            id_str_entries(self.by_fid).contains_key(h) ==> str_id_entries(self.by_path).contains_key(id_str_entries(self.by_fid)[h])
                && str_id_entries(self.by_path)[id_str_entries(self.by_fid)[h]] == h && str_str_entries(self.sysinfo).contains_key(
                id_str_entries(self.by_fid)[h],
            )
    }

    fn schema_id(&self) -> (r: SchemaId) {
        self.schema_id.unwrap()
    }

    fn register(&mut self, id: SchemaId) {
        self.schema_id = Some(id);
    }

    fn find(&self, path: &String) -> (r: Option<FileType>) {
        match str_str_get(&self.sysinfo, path.as_str()) {
            Some(_) => Some(FileType::File),
            None => None,
        }
    }

    fn open(&mut self, path: &String, fid: FileId) -> (r: FileResult) {
        if str_str_get(&self.sysinfo, path.as_str()).is_none() {
            return Err(FileError::NotFound);
        }
        if str_id_get(&self.by_path, path.as_str()).is_some() {
            assert(self.opened().contains_key(FileId(str_id_entries(self.by_path)[path@])));
            return Err(FileError::AlreadyOpen);
        }
        let ghost before = *self;
        proof {
            if path_is_open(self.opened(), path@) {
                let f = choose|f: FileId| #[trigger]
                    self.opened().contains_key(f) && self.opened()[f] == path@;
                assert(id_str_entries(self.by_fid).contains_key(f.0));
            }
        }
        str_id_insert(&mut self.by_path, path.clone(), fid.0);
        id_str_insert(&mut self.by_fid, fid.0, path.clone());
        proof {
            assert forall|p: Seq<char>| #[trigger] str_id_entries(self.by_path).contains_key(p) implies
                id_str_entries(self.by_fid).contains_key(str_id_entries(self.by_path)[p]) && id_str_entries(self.by_fid)[str_id_entries(self.by_path)[p]]
                == p by {
                if p != path@ {
                    assert(str_id_entries(before.by_path).contains_key(p));
                    assert(id_str_entries(before.by_fid).contains_key(str_id_entries(before.by_path)[p]));
                }
            }
            assert forall|h: usize| #[trigger] id_str_entries(self.by_fid).contains_key(h) implies
                str_id_entries(self.by_path).contains_key(id_str_entries(self.by_fid)[h]) && str_id_entries(self.by_path)[id_str_entries(self.by_fid)[h]] == h
                && str_str_entries(self.sysinfo).contains_key(id_str_entries(self.by_fid)[h]) by {
                if h != fid.0 {
                    assert(id_str_entries(before.by_fid).contains_key(h));
                    assert(str_id_entries(before.by_path).contains_key(id_str_entries(before.by_fid)[h]));
                }
            }
            assert(self.opened() =~= before.opened().insert(fid, path@));
            assert(self.entries() =~= before.entries());
        }
        Ok(fid)
    }

    fn close(&mut self, fid: &FileId) -> (r: FileResult) {
        let ghost before = *self;
        match id_str_remove(&mut self.by_fid, fid.0) {
            None => {
                assert(self.opened() =~= before.opened());
                Err(FileError::NotFound)
            },
            Some(p) => {
                str_id_remove(&mut self.by_path, p.as_str());
                proof {
                    assert forall|q: Seq<char>| #[trigger] str_id_entries(self.by_path).contains_key(q) implies
                        id_str_entries(self.by_fid).contains_key(str_id_entries(self.by_path)[q]) && id_str_entries(self.by_fid)[str_id_entries(self.by_path)[q]]
                        == q by {
                        assert(str_id_entries(before.by_path).contains_key(q));
                        assert(id_str_entries(before.by_fid).contains_key(str_id_entries(before.by_path)[q]));
                    }
                    assert forall|h: usize| #[trigger] id_str_entries(self.by_fid).contains_key(h) implies
                        str_id_entries(self.by_path).contains_key(id_str_entries(self.by_fid)[h]) && str_id_entries(self.by_path)[id_str_entries(self.by_fid)[h]]
                        == h && str_str_entries(self.sysinfo).contains_key(id_str_entries(self.by_fid)[h]) by {
                        assert(id_str_entries(before.by_fid).contains_key(h));
                        assert(str_id_entries(before.by_path).contains_key(id_str_entries(before.by_fid)[h]));
                    }
                    assert(self.opened() =~= before.opened().remove(*fid));
                    assert(self.entries() =~= before.entries());
                }
                Ok(*fid)
            },
        }
    }

    fn read(&self, fid: &FileId, buf: &mut Vec<u8>) -> (r: Result<usize, FileError>) {
        match id_str_get(&self.by_fid, fid.0) {
            None => Err(FileError::NotFound),
            Some(p) => match str_str_get(&self.sysinfo, p.as_str()) {
                None => Err(FileError::NotFound),
                Some(text) => {
                    let start = buf.len();
                    buf.extend_from_slice(text.as_str().as_bytes());
                    Ok(buf.len() - start)
                },
            },
        }
    }
}

} // verus!
