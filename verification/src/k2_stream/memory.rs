//! The named data that a processor keeps: parameters and states.
use vstd::prelude::*;
use crate::name_map::NameMap;
use crate::k2_stream::errors::{K2Error, K2ErrorCode};

verus! {

/// The name under which a datum is kept.
pub type DataHeader = String;

/// A datum that a processor keeps: it knows whether it holds a value, and
/// can take its initial one.
pub trait DataTrait: Sized {
    /// Whether the datum holds a value.
    spec fn setted(&self) -> bool;

    /// Whether this datum is what `initialize` makes of `before`: its
    /// default or initial value, with everything else kept.
    spec fn initialized_from(&self, before: Self) -> bool;

    /// Gives the datum its initial value.
    fn initialize(&mut self)
        ensures
            final(self).setted(),
            final(self).initialized_from(*old(self)),
    ;

    /// Whether the datum holds a value.
    fn is_setted(&self) -> (r: bool)
        ensures
            r == self.setted(),
    ;
}

/// The data of a processor, by name.
pub struct Memory<D> {
    data: NameMap<D>,
}

impl<D: DataTrait> Memory<D> {
    /// The data by name.
    pub closed spec fn contents(&self) -> Map<Seq<char>, D> {
        self.data.as_map()
    }

    /// An empty memory.
    pub fn new() -> (r: Self)
        ensures
            r.contents() == Map::<Seq<char>, D>::empty(),
    {
        Memory { data: NameMap::new() }
    }

    /// Keeps a new datum; `AlreadyExists` when the name is taken.
    pub fn insert(&mut self, header: DataHeader, data: D) -> (r: Result<(), K2Error>)
        ensures
            old(self).contents().contains_key(header@) ==> (r matches Err(e) && e.code
                == K2ErrorCode::AlreadyExists && e.message@ == "Data with this header already exists"@
                && final(self).contents() == old(self).contents()),
            !old(self).contents().contains_key(header@) ==> (r is Ok && final(self).contents()
                == old(self).contents().insert(header@, data)),
    {
        if self.data.contains_key(header.as_str()) {
            return Err(K2Error::new(K2ErrorCode::AlreadyExists, "Data with this header already exists"));
        }
        let ghost h = header@;
        let ghost d = data;
        self.data.insert(header, data);
        assert(self.contents() =~= old(self).contents().insert(h, d));
        Ok(())
    }

    /// Replaces a datum; `NotFound` when the name is not kept.
    pub fn update(&mut self, header: DataHeader, data: D) -> (r: Result<(), K2Error>)
        ensures
            old(self).contents().contains_key(header@) ==> (r is Ok && final(self).contents()
                == old(self).contents().insert(header@, data)),
            !old(self).contents().contains_key(header@) ==> (r matches Err(e) && e.code
                == K2ErrorCode::NotFound && e.message@ == "Data with this header does not exist"@
                && final(self).contents() == old(self).contents()),
    {
        if !self.data.contains_key(header.as_str()) {
            return Err(K2Error::new(K2ErrorCode::NotFound, "Data with this header does not exist"));
        }
        let ghost h = header@;
        let ghost d = data;
        self.data.insert(header, data);
        assert(self.contents() =~= old(self).contents().insert(h, d));
        Ok(())
    }

    /// Forgets a datum; `NotFound` when the name is not kept.
    pub fn remove(&mut self, header: &DataHeader) -> (r: Result<(), K2Error>)
        ensures
            old(self).contents().contains_key(header@) ==> (r is Ok && final(self).contents()
                == old(self).contents().remove(header@)),
            !old(self).contents().contains_key(header@) ==> (r matches Err(e) && e.code
                == K2ErrorCode::NotFound && e.message@ == "Data with this header does not exist"@
                && final(self).contents() == old(self).contents()),
    {
        match self.data.remove(header.as_str()) {
            Some(_) => {
                assert(self.contents() =~= old(self).contents().remove(header@));
                Ok(())
            },
            None => {
                assert(self.contents() =~= old(self).contents());
                Err(K2Error::new(K2ErrorCode::NotFound, "Data with this header does not exist"))
            },
        }
    }

    /// The datum kept under a name.
    pub fn get(&self, header: &DataHeader) -> (r: Option<&D>)
        ensures
            match r {
                Some(d) => self.contents().contains_key(header@) && *d == self.contents()[header@],
                None => !self.contents().contains_key(header@),
            },
    {
        self.data.get(header.as_str())
    }

    /// Takes a datum out, to change it and keep it again.
    pub(crate) fn take(&mut self, header: &str) -> (r: Option<D>)
        ensures
            match r {
                Some(d) => old(self).contents().contains_key(header@) && d == old(self).contents()[header@]
                    && final(self).contents() == old(self).contents().remove(header@),
                None => !old(self).contents().contains_key(header@) && final(self).contents() == old(
                    self,
                ).contents(),
            },
    {
        let r = self.data.remove(header);
        assert(self.contents() =~= old(self).contents().remove(header@));
        r
    }

    /// Keeps a datum under a name, whether or not the name was taken.
    pub(crate) fn put(&mut self, header: String, data: D)
        ensures
            final(self).contents() == old(self).contents().insert(header@, data),
    {
        let ghost h = header@;
        let ghost d = data;
        self.data.insert(header, data);
        assert(self.contents() =~= old(self).contents().insert(h, d));
    }

    /// The data, in the order in which their names were first kept.
    pub fn values(&self) -> (r: Vec<&D>)
        ensures
            r@.len() == self.names().len(),
            forall|i: int| 0 <= i < r@.len() ==> #[trigger] self.contents().contains_key(self.names()[i])
                && *r@[i] == self.contents()[self.names()[i]],
    {
        let mut r: Vec<&D> = Vec::new();
        let mut i: usize = 0;
        while i < self.data.len()
            invariant
                i <= self.data.size(),
                r@.len() == i,
                forall|j: int| 0 <= j < i ==> self.data.has(self.data.keys_seq()[j]) && *r@[j]
                    == self.data.lookup(#[trigger] self.data.keys_seq()[j]),
            decreases self.data.size() - i,
        {
            r.push(self.data.value_at(i));
            i = i + 1;
        }
        r
    }

    /// The names kept, in the order in which they were first kept.
    pub closed spec fn names(&self) -> Seq<Seq<char>> {
        self.data.keys_seq()
    }

    /// Whether every datum holds a value.
    pub fn is_initialized(&self) -> (r: bool)
        ensures
            r <==> forall|k: Seq<char>| #[trigger] self.contents().contains_key(k) ==> self.contents()[k].setted(),
    {
        let keys = self.data.keys();
        let mut i: usize = 0;
        while i < keys.len()
            invariant
                i <= keys@.len(),
                keys.deep_view() == self.data.keys_seq(),
                forall|j: int| 0 <= j < i ==> #[trigger] self.contents()[keys.deep_view()[j]].setted(),
            decreases keys@.len() - i,
        {
            assert(keys.deep_view()[i as int] == keys@[i as int]@);
            match self.data.get(keys[i].as_str()) {
                Some(d) => {
                    if !d.is_setted() {
                        assert(self.contents().contains_key(keys@[i as int]@) && !self.contents()[keys@[
                            i as int]@].setted());
                        return false;
                    }
                },
                None => {},
            }
            i = i + 1;
        }
        proof {
            assert forall|k: Seq<char>| #[trigger] self.contents().contains_key(k) implies self.contents()[k].setted() by {
                let j = choose|j: int| 0 <= j < keys.deep_view().len() && keys.deep_view()[j] == k;
                assert(self.contents()[keys.deep_view()[j]].setted());
            }
        }
        true
    }

    /// Gives every datum that holds no value its initial one; the data that
    /// hold a value keep it.
    pub fn initialize_unset(&mut self)
        ensures
            final(self).contents().dom() == old(self).contents().dom(),
            forall|k: Seq<char>| #[trigger] final(self).contents().contains_key(k) ==> final(self).contents()[k].setted(),
            forall|k: Seq<char>|
                #![trigger final(self).contents()[k]]
                old(self).contents().contains_key(k) && old(self).contents()[k].setted() ==> final(self).contents()[k] == old(self).contents()[k],
            forall|k: Seq<char>|
                #![trigger final(self).contents()[k]]
                old(self).contents().contains_key(k) && !old(self).contents()[k].setted() ==> final(self).contents()[k].initialized_from(old(self).contents()[k]),
    {
        let keys = self.data.keys();
        let mut i: usize = 0;
        while i < keys.len()
            invariant
                i <= keys@.len(),
                keys.deep_view() == old(self).data.keys_seq(),
                keys.deep_view().no_duplicates(),
                self.contents().dom() == old(self).contents().dom(),
                forall|j: int| 0 <= j < i ==> #[trigger] self.contents()[keys.deep_view()[j]].setted(),
                forall|j: int|
                    0 <= j < i && old(self).contents()[keys.deep_view()[j]].setted() ==> #[trigger] self.contents()[keys.deep_view()[j]]
                        == old(self).contents()[keys.deep_view()[j]],
                forall|j: int|
                    0 <= j < i && !old(self).contents()[keys.deep_view()[j]].setted() ==> (#[trigger] self.contents()[keys.deep_view()[j]]).initialized_from(
                        old(self).contents()[keys.deep_view()[j]],
                    ),
                forall|j: int| i <= j < keys.deep_view().len() ==> #[trigger] self.contents()[keys.deep_view()[j]]
                    == old(self).contents()[keys.deep_view()[j]],
            decreases keys@.len() - i,
        {
            assert(keys.deep_view()[i as int] == keys@[i as int]@);
            assert(forall|j: int| i < j < keys.deep_view().len() ==> keys.deep_view()[j] != keys.deep_view()[i as int]);
            let ghost before = self.contents();
            match self.take(keys[i].as_str()) {
                Some(d) => {
                    let mut d = d;
                    if !d.is_setted() {
                        d.initialize();
                    }
                    self.put(keys[i].clone(), d);
                    assert(self.contents().dom() =~= before.dom());
                },
                None => {},
            }
            i = i + 1;
        }
        proof {
            assert forall|k: Seq<char>| #[trigger] self.contents().contains_key(k) implies self.contents()[k].setted() by {
                assert(old(self).data.has(k));
                let j = choose|j: int| 0 <= j < keys.deep_view().len() && keys.deep_view()[j] == k;
                assert(self.contents()[keys.deep_view()[j]].setted());
            }
            assert forall|k: Seq<char>| old(self).contents().contains_key(k) implies (old(self).contents()[k].setted()
                ==> #[trigger] self.contents()[k] == old(self).contents()[k]) && (!old(self).contents()[k].setted()
                ==> self.contents()[k].initialized_from(old(self).contents()[k])) by {
                assert(old(self).data.has(k));
                let j = choose|j: int| 0 <= j < keys.deep_view().len() && keys.deep_view()[j] == k;
                assert(self.contents()[keys.deep_view()[j]] == self.contents()[k]);
            }
        }
    }
}

/// A datum kept under a new name is what `get` gives for that name, and
/// every other name keeps its datum.
pub proof fn law_memory_insert_then_get<D: DataTrait>(before: Memory<D>, after: Memory<D>, header: Seq<char>, data: D)
    requires
        !before.contents().contains_key(header),
        after.contents() == before.contents().insert(header, data),
    ensures
        after.contents().contains_key(header),
        after.contents()[header] == data,
        forall|k: Seq<char>| k != header ==> #[trigger] after.contents().get(k) == before.contents().get(k),
{
}

/// Keeping a datum under a new name and then forgetting that name gives the
/// memory back as it was.
pub proof fn law_memory_insert_then_remove<D: DataTrait>(before: Memory<D>, middle: Memory<D>, after: Memory<D>, header: Seq<char>, data: D)
    requires
        !before.contents().contains_key(header),
        middle.contents() == before.contents().insert(header, data),
        after.contents() == middle.contents().remove(header),
    ensures
        after.contents() == before.contents(),
{
    assert(after.contents() =~= before.contents());
}


} // verus!
