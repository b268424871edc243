//! Libraries of processors: a header that describes the library, and the
//! factories of its processors by name.
use vstd::prelude::*;
use crate::name_map::NameMap;

verus! {

/// What a library says of itself.
#[derive(Clone)]
pub struct LibraryHeader {
    pub name: String,
    pub description: String,
    pub version: String,
    pub author: String,
    pub email: String,
    pub license: String,
    pub repository: String,
}

/// Makes a processor of one kind under a name; `None` when it cannot.
pub trait ProcessorFactory {
    /// What the factory makes.
    type Output;

    /// Whether `r` is an answer the factory may give for the name `name`.
    /// Unless a factory says more, every answer is allowed.
    open spec fn makes(&self, name: Seq<char>, r: Option<Self::Output>) -> bool {
        true
    }

    /// Makes a processor named `name`.
    fn make(&self, name: String) -> (r: Option<Self::Output>)
        ensures
            self.makes(name@, r);
}

/// A loaded library: its header and a factory for each kind of processor.
pub struct LibraryStruct<F> {
    pub header: LibraryHeader,
    processors: NameMap<F>,
}

impl<F: ProcessorFactory> LibraryStruct<F> {
    /// The kinds of processor, in the order they were registered.
    pub closed spec fn kinds(&self) -> Seq<Seq<char>> {
        self.processors.keys_seq()
    }

    /// The factory registered for a kind of processor.
    pub closed spec fn factory(&self, kind: Seq<char>) -> F {
        self.processors.as_map()[kind]
    }

    /// A library with no processors yet.
    pub fn new(header: LibraryHeader) -> (r: Self)
        ensures
            r.kinds() == Seq::<Seq<char>>::empty(),
    {
        LibraryStruct { header, processors: NameMap::new() }
    }

    /// Registers the factory of a kind of processor; a kind registered
    /// before gets the new factory.
    pub fn register(&mut self, proc_name: String, factory: F)
        ensures
            forall|k: Seq<char>| #[trigger] final(self).kinds().contains(k) <==> (k == proc_name@ || old(self).kinds().contains(k)),
            final(self).factory(proc_name@) == factory,
            forall|k: Seq<char>| k != proc_name@ && old(self).kinds().contains(k) ==> #[trigger] final(self).factory(k)
                == old(self).factory(k),
    {
        let ghost k = proc_name@;
        self.processors.insert(proc_name, factory);
        proof {
            if !old(self).processors.has(k) {
                assert forall|q: Seq<char>| #[trigger] self.kinds().contains(q) <==> (q == k || old(self).kinds().contains(q)) by {
                    if q == k {
                        assert(self.kinds()[old(self).kinds().len() as int] == k);
                    }
                    if old(self).kinds().contains(q) {
                        let i = choose|i: int| 0 <= i < old(self).kinds().len() && old(self).kinds()[i] == q;
                        assert(self.kinds()[i] == q);
                    }
                    if self.kinds().contains(q) && q != k {
                        let i = choose|i: int| 0 <= i < self.kinds().len() && self.kinds()[i] == q;
                        assert(old(self).kinds()[i] == q);
                    }
                }
            }
        }
    }

    /// The kinds of processor the library provides.
    pub fn provide(&self) -> (r: Vec<String>)
        ensures
            r.deep_view() == self.kinds(),
    {
        self.processors.keys()
    }

    /// Makes a processor of the kind `proc_name`, named `name`; `None` when
    /// the library has no such kind, or when its factory fails.
    pub fn new_processor(&self, proc_name: &String, name: &String) -> (r: Option<F::Output>)
        ensures
            !self.kinds().contains(proc_name@) ==> r is None,
            self.kinds().contains(proc_name@) ==> self.factory(proc_name@).makes(name@, r),
    {
        match self.processors.get(proc_name.as_str()) {
            Some(factory) => factory.make(name.clone()),
            None => None,
        }
    }
}

} // verus!
