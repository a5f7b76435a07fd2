//! Byte devices and the registry that names them.
use vstd::prelude::*;
use vstd::string::*;

verus! {

/// A device that takes bytes.
pub trait CharDevice {
    fn write_u8(&mut self, val: u8);

    fn write_str(&mut self, val: &str);

    fn get_rw(&self) -> ReadWrite;
}

pub trait BlockDevice {
}

/// Which ways data flows through a device.
#[derive(Debug, Clone, Copy, PartialEq, Eq, Structural)]
pub enum ReadWrite {
    ReadOnly,
    WriteOnly,
    ReadWrite,
}

/// Devices by unique name; the `i`-th device inserted has id `i`.
pub struct DeviceMap<D> {
    next_device: u16,
    dev_names: Vec<(String, u16)>,
    char_dev_handles: Vec<D>,
}

/// The names of a list of (name, id) pairs, each with its id.
pub open spec fn names_of(s: Seq<(String, u16)>) -> Map<Seq<char>, u16>
    decreases s.len(),
{
    if s.len() == 0 {
        Map::empty()
    } else {
        names_of(s.drop_last()).insert(s.last().0@, s.last().1)
    }
}

proof fn lemma_names_of(s: Seq<(String, u16)>, k: Seq<char>)
    requires
        forall|i: int, j: int| 0 <= i < j < s.len() ==> s[i].0@ != s[j].0@,
    ensures
        names_of(s).contains_key(k) <==> exists|i: int| 0 <= i < s.len() && s[i].0@ == k,
        forall|i: int| 0 <= i < s.len() && s[i].0@ == k ==> names_of(s)[k] == s[i].1,
    decreases s.len(),
{
    if s.len() > 0 {
        let t = s.drop_last();
        lemma_names_of(t, k);
        if names_of(t).contains_key(k) {
            let i = choose|i: int| 0 <= i < t.len() && t[i].0@ == k;
            assert(s[i].0@ == k);
        }
        if exists|i: int| 0 <= i < s.len() && s[i].0@ == k {
            let i = choose|i: int| 0 <= i < s.len() && s[i].0@ == k;
            if i < t.len() {
                assert(t[i].0@ == k);
            }
        }
    }
}

impl<D: CharDevice> DeviceMap<D> {
    /// Registered names, each with its device id.
    pub closed spec fn names(&self) -> Map<Seq<char>, u16> {
        names_of(self.dev_names@)
    }

    /// The devices, by id.
    pub closed spec fn devices(&self) -> Seq<D> {
        self.char_dev_handles@
    }

    pub closed spec fn wf(&self) -> bool {
        &&& self.dev_names@.len() == self.char_dev_handles@.len()
        &&& self.next_device as int == self.dev_names@.len()
        &&& forall|i: int| 0 <= i < self.dev_names@.len() ==> #[trigger] self.dev_names@[i].1 == i
        &&& forall|i: int, j: int|
            0 <= i < j < self.dev_names@.len() ==> #[trigger] self.dev_names@[i].0@
                != #[trigger] self.dev_names@[j].0@
    }

    pub fn new() -> (r: Self)
        ensures
            r.wf(),
            r.names() == Map::<Seq<char>, u16>::empty(),
            r.devices() == Seq::<D>::empty(),
    {
        DeviceMap { next_device: 0, dev_names: Vec::new(), char_dev_handles: Vec::new() }
    }

    /// Whether another device fits in the id space.
    pub fn has_room(&self) -> (r: bool)
        requires
            self.wf(),
        ensures
            r == (self.devices().len() < u16::MAX),
    {
        self.next_device < u16::MAX
    }

    fn position(&self, name: &str) -> (r: Option<usize>)
        requires
            self.wf(),
        ensures
            r is None ==> !self.names().contains_key(name@),
            r is Some ==> r->0 < self.devices().len() && self.names().contains_key(name@)
                && self.names()[name@] == r->0 && self.dev_names@[r->0 as int].0@ == name@,
    {
        proof {
            lemma_names_of(self.dev_names@, name@);
        }
        let key = String::from_str(name);
        let mut i: usize = 0;
        while i < self.dev_names.len()
            invariant
                self.wf(),
                key@ == name@,
                i <= self.dev_names@.len(),
                forall|j: int| 0 <= j < i ==> self.dev_names@[j].0@ != name@,
                names_of(self.dev_names@).contains_key(name@) <==> exists|j: int|
                    0 <= j < self.dev_names@.len() && self.dev_names@[j].0@ == name@,
                forall|j: int|
                    0 <= j < self.dev_names@.len() && self.dev_names@[j].0@ == name@
                        ==> names_of(self.dev_names@)[name@] == self.dev_names@[j].1,
            decreases self.dev_names@.len() - i,
        {
            if self.dev_names[i].0 == key {
                return Some(i);
            }
            i = i + 1;
        }
        None
    }

    /// Adds `device` under `name` with the next id; a taken name is refused.
    pub fn insert(&mut self, name: String, device: D) -> (r: Result<(), ()>)
        requires
            old(self).wf(),
            old(self).devices().len() < u16::MAX,
        ensures
            final(self).wf(),
            old(self).names().contains_key(name@) ==> r is Err && final(self).names() == old(
                self,
            ).names() && final(self).devices() == old(self).devices(),
            !old(self).names().contains_key(name@) ==> r is Ok && final(self).names() == old(
                self,
            ).names().insert(name@, old(self).devices().len() as u16) && final(self).devices()
                == old(self).devices().push(device),
    {
        if self.position(name.as_str()).is_some() {
            return Err(());
        }
        let id = self.next_device;
        let ghost before = self.dev_names@;
        self.dev_names.push((name, id));
        self.char_dev_handles.push(device);
        self.next_device = self.next_device + 1;
        proof {
            let s = self.dev_names@;
            assert(s.drop_last() =~= before);
            lemma_names_of(before, name@);
            assert forall|i: int, j: int| 0 <= i < j < s.len() implies #[trigger] s[i].0@
                != #[trigger] s[j].0@ by {
                if j == s.len() - 1 {
                    assert(before[i] == s[i]);
                    assert(before[i].0@ != name@);
                } else {
                    assert(before[i] == s[i] && before[j] == s[j]);
                }
            }
            assert forall|i: int| 0 <= i < s.len() implies #[trigger] s[i].1 == i by {
                if i < before.len() {
                    assert(before[i] == s[i]);
                }
            }
        }
        Ok(())
    }

    /// The device registered under `name`, for writing to it.
    pub fn get(&mut self, name: &str) -> (r: Option<&mut D>)
        requires
            old(self).wf(),
        ensures
            final(self).wf(),
            final(self).names() == old(self).names(),
            old(self).names().contains_key(name@) <==> r is Some,
            match r {
                Some(d) => {
                    let i = old(self).names()[name@] as int;
                    &&& *d == old(self).devices()[i]
                    &&& final(self).devices() == old(self).devices().update(i, *final(d))
                },
                None => final(self).devices() == old(self).devices(),
            },
    {
        match self.position(name) {
            None => None,
            Some(i) => Some(&mut self.char_dev_handles[i]),
        }
    }

    /// The registered names, in order of registration.
    pub fn dump_names(&self) -> (r: Vec<String>)
        requires
            self.wf(),
        ensures
            r@.len() == self.devices().len(),
            forall|i: int| 0 <= i < r@.len() ==> #[trigger] self.names().contains_key(r@[i]@)
                && self.names()[r@[i]@] == i,
    {
        let mut r: Vec<String> = Vec::new();
        let mut i: usize = 0;
        while i < self.dev_names.len()
            invariant
                self.wf(),
                i <= self.dev_names@.len(),
                r@.len() == i,
                forall|j: int| 0 <= j < i ==> #[trigger] r@[j]@ == self.dev_names@[j].0@,
            decreases self.dev_names@.len() - i,
        {
            r.push(self.dev_names[i].0.clone());
            i = i + 1;
        }
        proof {
            assert forall|j: int| 0 <= j < r@.len() implies #[trigger] self.names().contains_key(
                r@[j]@,
            ) && self.names()[r@[j]@] == j by {
                lemma_names_of(self.dev_names@, r@[j]@);
            }
        }
        r
    }
}

} // verus!
