//! Chains: the blocks of a stream that run in one task, in an order in which
//! every connection between them goes forward.
use vstd::prelude::*;
use crate::k2_stream::errors::{K2Error, K2ErrorCode};
use crate::k2_stream::connections::{ConnectionGraph, sorted_order, backward};
use crate::k2_stream::processors::{StreamBlock, StreamType, stream_type_of};
use crate::text::{str_eq, contains_name};
use crate::name_map::NameMap;

verus! {

/// Hands out chains, each with its own task number, counting up from zero.
pub struct ChainBuilder {
    next_task_id: isize,
}

/// A chain of blocks that run in one task.
pub struct Chain {
    pub name: String,
    stream_id: isize,
    task_id: isize,
    blocks: Vec<String>,
    connections: ConnectionGraph,
    input_present: bool,
    initialized: bool,
    running: bool,
}

/// What `create` does: the chain `name` gets the builder's next task
/// number, which is never negative, and the builder counts on by one.
pub open spec fn chain_created(o: ChainBuilder, name: Seq<char>, r: Result<Chain, K2Error>, f: ChainBuilder) -> bool {
    &&& r matches Ok(c) && c.task() == o.next() && c.task() >= 0 && c.label() == name && c.stream()
        == -1 && c.block_names() == Seq::<Seq<char>>::empty() && !c.ready()
    &&& f.next() == o.next() + 1
}

/// Chains made one after the other by one builder get task numbers that are
/// never negative and go up by one, so no two of them share a task.
pub proof fn law_chain_tasks_count_up(
    b0: ChainBuilder,
    n1: Seq<char>,
    r1: Result<Chain, K2Error>,
    b1: ChainBuilder,
    n2: Seq<char>,
    r2: Result<Chain, K2Error>,
    b2: ChainBuilder,
)
    requires
        chain_created(b0, n1, r1, b1),
        chain_created(b1, n2, r2, b2),
    ensures
        r1 matches Ok(c1) && r2 matches Ok(c2) && c1.task() >= 0 && c2.task() == c1.task() + 1
            && c1.task() != c2.task(),
        b2.next() > b0.next(),
{
}

impl ChainBuilder {
    /// The number the next chain gets.
    pub closed spec fn next(&self) -> isize {
        self.next_task_id
    }

    /// The next number is never negative.
    #[verifier::type_invariant]
    closed spec fn counts_from_zero(&self) -> bool {
        self.next_task_id >= 0
    }

    /// A builder whose first chain gets task 0.
    pub fn new() -> (r: Self)
        ensures
            r.next() == 0,
    {
        ChainBuilder { next_task_id: 0 }
    }

    /// A new chain named `name`, with the next task number.
    pub fn create(&mut self, name: String) -> (r: Result<Chain, K2Error>)
        requires
            old(self).next() < isize::MAX,
        ensures
            chain_created(*old(self), name@, r, *final(self)),
    {
        proof {
            use_type_invariant(&*self);
        }
        let task_id = self.next_task_id;
        self.next_task_id = task_id + 1;
        Ok(Chain::new(name, task_id))
    }
}

impl Chain {
    /// The chain's name.
    pub closed spec fn label(&self) -> Seq<char> {
        self.name@
    }

    /// The stream the chain runs in; -1 before it is set.
    pub closed spec fn stream(&self) -> isize {
        self.stream_id
    }

    /// The task the chain runs in.
    pub closed spec fn task(&self) -> isize {
        self.task_id
    }

    /// The names of its blocks, in the order they were added.
    pub closed spec fn block_names(&self) -> Seq<Seq<char>> {
        self.blocks.deep_view()
    }

    /// The connections between its blocks.
    pub closed spec fn links(&self) -> Seq<(Seq<char>, Seq<char>)> {
        self.connections.links()
    }

    /// The order in which the blocks run.
    pub closed spec fn order(&self) -> Seq<Seq<char>> {
        self.connections.order()
    }

    /// Whether the connections were checked since the last was added.
    pub closed spec fn checked(&self) -> bool {
        self.connections.checked()
    }

    /// Whether a block with outputs only was added.
    pub closed spec fn has_input(&self) -> bool {
        self.input_present
    }

    /// Whether the chain was initialized.
    pub closed spec fn ready(&self) -> bool {
        self.initialized
    }

    /// Whether the chain runs.
    pub closed spec fn runs(&self) -> bool {
        self.running
    }

    /// A chain named `name` that runs in the task `task_id`, with no blocks,
    /// in no stream.
    pub fn new(name: String, task_id: isize) -> (r: Self)
        ensures
            r.label() == name@,
            r.task() == task_id,
            r.stream() == -1,
            r.block_names() == Seq::<Seq<char>>::empty(),
            r.links() == Seq::<(Seq<char>, Seq<char>)>::empty(),
            !r.checked(),
            !r.has_input(),
            !r.ready(),
            !r.runs(),
    {
        let r = Chain {
            name,
            blocks: Vec::new(),
            connections: ConnectionGraph::new(),
            input_present: false,
            initialized: false,
            stream_id: -1,
            task_id,
            running: false,
        };
        assert(r.blocks.deep_view() =~= Seq::<Seq<char>>::empty());
        r
    }

    /// The stream the chain runs in.
    pub fn get_stream_id(&self) -> (r: isize)
        ensures
            r == self.stream(),
    {
        self.stream_id
    }

    /// The task the chain runs in.
    pub fn get_task_id(&self) -> (r: isize)
        ensures
            r == self.task(),
    {
        self.task_id
    }

    /// Puts the chain in a stream.
    pub fn set_stream_id(&mut self, stream_id: isize)
        ensures
            final(self).stream() == stream_id,
            final(self).task() == old(self).task(),
            final(self).label() == old(self).label(),
            final(self).block_names() == old(self).block_names(),
            final(self).links() == old(self).links(),
            final(self).order() == old(self).order(),
            final(self).checked() == old(self).checked(),
            final(self).has_input() == old(self).has_input(),
            final(self).ready() == old(self).ready(),
            final(self).runs() == old(self).runs(),
    {
        self.stream_id = stream_id;
    }

    /// Adds a block under a name: `AlreadyExists` when the name is taken,
    /// or when the block has outputs only and the chain already has such a
    /// block.
    pub fn add_block<T: Clone + Default + PartialOrd>(&mut self, block_name: String, block: &StreamBlock<T>) -> (r: Result<(), K2Error>)
        ensures
            old(self).block_names().contains(block_name@) ==> (r matches Err(e) && e.code
                == K2ErrorCode::AlreadyExists && e.message@ == "Block already exists"@ && *final(self)
                == *old(self)),
            !old(self).block_names().contains(block_name@) && stream_type_of(
                block.port_counts().0,
                block.port_counts().1,
            ) == StreamType::RECEIVER && old(self).has_input() ==> (r matches Err(e) && e.code
                == K2ErrorCode::AlreadyExists && e.message@ == "An input block already exists"@
                && *final(self) == *old(self)),
            r is Ok ==> final(self).block_names() == old(self).block_names().push(block_name@)
                && final(self).has_input() == (old(self).has_input() || stream_type_of(
                block.port_counts().0,
                block.port_counts().1,
            ) == StreamType::RECEIVER),
            !old(self).block_names().contains(block_name@) && !(stream_type_of(
                block.port_counts().0,
                block.port_counts().1,
            ) == StreamType::RECEIVER && old(self).has_input()) ==> r is Ok,
            final(self).stream() == old(self).stream(),
            final(self).task() == old(self).task(),
            final(self).label() == old(self).label(),
            final(self).links() == old(self).links(),
            final(self).order() == old(self).order(),
            final(self).checked() == old(self).checked(),
            final(self).ready() == old(self).ready(),
            final(self).runs() == old(self).runs(),
    {
        if contains_name(&self.blocks, block_name.as_str()) {
            return Err(K2Error::new(K2ErrorCode::AlreadyExists, "Block already exists"));
        }
        if block.get_processor_type() == StreamType::RECEIVER {
            if self.input_present {
                return Err(K2Error::new(K2ErrorCode::AlreadyExists, "An input block already exists"));
            }
            self.input_present = true;
        }
        let ghost n = block_name@;
        self.blocks.push(block_name);
        assert(self.blocks.deep_view() =~= old(self).blocks.deep_view().push(n));
        Ok(())
    }

    /// The names of the blocks, in the order they were added.
    pub fn get_blocks(&self) -> (r: Vec<String>)
        ensures
            r.deep_view() == self.block_names(),
    {
        crate::text::clone_strings(&self.blocks)
    }

    /// Connects two blocks of the chain; `NotFound` when either is not in it.
    pub fn connect(&mut self, from_block: String, to_block: String) -> (r: Result<(), K2Error>)
        ensures
            old(self).block_names().contains(from_block@) && old(self).block_names().contains(
                to_block@,
            ) ==> (r is Ok && final(self).links() == old(self).links().push((from_block@, to_block@))
                && !final(self).checked() && final(self).order() == old(self).order()),
            !(old(self).block_names().contains(from_block@) && old(self).block_names().contains(
                to_block@,
            )) ==> (r matches Err(e) && e.code == K2ErrorCode::NotFound && e.message@
                == "Blocks not found in chain"@ && *final(self) == *old(self)),
            final(self).block_names() == old(self).block_names(),
            final(self).stream() == old(self).stream(),
            final(self).task() == old(self).task(),
            final(self).label() == old(self).label(),
            final(self).has_input() == old(self).has_input(),
            final(self).ready() == old(self).ready(),
            final(self).runs() == old(self).runs(),
    {
        if contains_name(&self.blocks, from_block.as_str()) && contains_name(&self.blocks, to_block.as_str()) {
            self.connections.add_connection(from_block, to_block);
            Ok(())
        } else {
            Err(K2Error::new(K2ErrorCode::NotFound, "Blocks not found in chain"))
        }
    }

    /// Initializes the chain: the first time, it needs a stream
    /// (`Uninitialized`) and connections that all go forward in the order of
    /// the blocks (the errors of `ConnectionGraph::check`).
    pub fn initialize(&mut self) -> (r: Result<(), K2Error>)
        ensures
            old(self).ready() ==> r is Ok && *final(self) == *old(self),
            !old(self).ready() && old(self).stream() == -1 ==> (r matches Err(e) && e.code
                == K2ErrorCode::Uninitialized && e.message@ == "Stream ID is not set"@ && *final(self)
                == *old(self)),
            !old(self).ready() && old(self).stream() != -1 ==> final(self).order() == (if old(self).checked() {
                old(self).order()
            } else {
                sorted_order(old(self).links())
            }) && (r is Ok <==> forall|i: int|
                0 <= i < old(self).links().len() ==> !backward(final(self).order(), old(self).links(), i))
                && (r is Ok ==> final(self).ready() && final(self).checked())
                && (r matches Err(e) ==> e.code == K2ErrorCode::BadFormat && !final(self).ready()),
            final(self).block_names() == old(self).block_names(),
            final(self).links() == old(self).links(),
            final(self).stream() == old(self).stream(),
            final(self).task() == old(self).task(),
            final(self).label() == old(self).label(),
            final(self).has_input() == old(self).has_input(),
            final(self).runs() == old(self).runs(),
    {
        if !self.initialized {
            if self.stream_id == -1 {
                return Err(K2Error::new(K2ErrorCode::Uninitialized, "Stream ID is not set"));
            }
            match self.connections.check() {
                Ok(()) => {},
                Err(e) => {
                    return Err(e);
                },
            }
        }
        self.initialized = true;
        Ok(())
    }

    /// Starts the chain: `Uninitialized` before it was initialized; then the
    /// chain runs, and the answer lists its blocks in the order the caller
    /// runs them, one round after the other.
    pub fn process(&mut self) -> (r: Result<Vec<String>, K2Error>)
        ensures
            !old(self).ready() ==> (r matches Err(e) && e.code == K2ErrorCode::Uninitialized
                && e.message@ == "Chain is not initialized"@ && *final(self) == *old(self)),
            old(self).ready() ==> (r matches Ok(v) && v.deep_view() == old(self).block_names()
                && final(self).runs()),
            final(self).block_names() == old(self).block_names(),
            final(self).links() == old(self).links(),
            final(self).order() == old(self).order(),
            final(self).stream() == old(self).stream(),
            final(self).ready() == old(self).ready(),
    {
        if !self.initialized {
            return Err(K2Error::new(K2ErrorCode::Uninitialized, "Chain is not initialized"));
        }
        self.running = true;
        Ok(crate::text::clone_strings(&self.blocks))
    }

    /// Stops the chain; the answer lists its blocks in the order the caller
    /// finalizes them: the last added first.
    pub fn finalize(&mut self) -> (r: Vec<String>)
        ensures
            r.deep_view().len() == old(self).block_names().len(),
            forall|j: int|
                0 <= j < r.deep_view().len() ==> #[trigger] r.deep_view()[j] == old(self).block_names()[old(self).block_names().len() - 1 - j],
            !final(self).runs(),
            final(self).block_names() == old(self).block_names(),
            final(self).ready() == old(self).ready(),
            final(self).stream() == old(self).stream(),
            final(self).label() == old(self).label(),
            final(self).task() == old(self).task(),
            final(self).links() == old(self).links(),
            final(self).order() == old(self).order(),
    {
        self.running = false;
        let mut r: Vec<String> = Vec::new();
        let mut i: usize = self.blocks.len();
        while i > 0
            invariant
                i <= self.blocks@.len(),
                r.deep_view().len() == self.blocks@.len() - i,
                forall|j: int|
                    0 <= j < r.deep_view().len() ==> #[trigger] r.deep_view()[j] == self.blocks.deep_view()[self.blocks@.len()
                        - 1 - j],
            decreases i,
        {
            i = i - 1;
            let ghost before = r.deep_view();
            r.push(self.blocks[i].clone());
            assert(r.deep_view() =~= before.push(self.blocks.deep_view()[i as int]));
        }
        r
    }
}

/// Chain `b` is chain `a` put in the stream `s`.
pub open spec fn moved_to_stream(a: Chain, b: Chain, s: isize) -> bool {
    &&& b.stream() == s
    &&& b.task() == a.task()
    &&& b.label() == a.label()
    &&& b.block_names() == a.block_names()
    &&& b.links() == a.links()
    &&& b.order() == a.order()
    &&& b.checked() == a.checked()
    &&& b.has_input() == a.has_input()
    &&& b.ready() == a.ready()
    &&& b.runs() == a.runs()
}

/// Whether initializing a chain succeeds: it already was initialized, or it
/// is in a stream and its connections all go forward in its order.
pub open spec fn chain_init_ok(c: Chain) -> bool {
    c.ready() || (c.stream() != -1 && forall|i: int|
        0 <= i < c.links().len() ==> !#[trigger] backward(init_order(c), c.links(), i))
}

/// The order of a chain's blocks once it is initialized: the one it has
/// when its connections were checked since the last was added, else the
/// order its connections give.
pub open spec fn init_order(c: Chain) -> Seq<Seq<char>> {
    if c.checked() {
        c.order()
    } else {
        sorted_order(c.links())
    }
}

/// A mode of a stream: chains that run side by side, each in its own task.
pub struct OperativeMode {
    pub name: String,
    pub id: usize,
    stream_id: isize,
    chains: NameMap<Chain>,
    started: Vec<String>,
}

impl OperativeMode {
    /// The stream the mode runs in; -1 before it is set.
    pub closed spec fn stream(&self) -> isize {
        self.stream_id
    }

    /// The mode's name.
    pub closed spec fn label(&self) -> Seq<char> {
        self.name@
    }

    /// The mode's number.
    pub closed spec fn number(&self) -> usize {
        self.id
    }

    /// The names of its chains, in the order they were added.
    pub closed spec fn chain_names(&self) -> Seq<Seq<char>> {
        self.chains.keys_seq()
    }

    /// Its chains, in the order they were added.
    pub closed spec fn chain_list(&self) -> Seq<Chain> {
        self.chains.vals_seq()
    }

    /// Its chains, by name.
    pub closed spec fn chain_map(&self) -> Map<Seq<char>, Chain> {
        self.chains.as_map()
    }

    /// The chains that were started and not finalized since.
    pub closed spec fn running(&self) -> Seq<Seq<char>> {
        self.started.deep_view()
    }

    /// A mode named `name` with number `id`, in no stream, with no chains.
    pub fn new(name: String, id: usize) -> (r: Self)
        ensures
            r.label() == name@,
            r.number() == id,
            r.stream() == -1,
            r.chain_names() == Seq::<Seq<char>>::empty(),
            r.chain_list() == Seq::<Chain>::empty(),
            r.running() == Seq::<Seq<char>>::empty(),
    {
        let r = OperativeMode { name, id, stream_id: -1, chains: NameMap::new(), started: Vec::new() };
        assert(r.started.deep_view() =~= Seq::<Seq<char>>::empty());
        r
    }

    /// The stream the mode runs in.
    pub fn get_stream_id(&self) -> (r: isize)
        ensures
            r == self.stream(),
    {
        self.stream_id
    }

    /// The mode's name.
    pub fn get_name(&self) -> (r: &String)
        ensures
            r@ == self.label(),
    {
        &self.name
    }

    /// Puts the mode, and every chain of it, in a stream.
    pub fn set_stream_id(&mut self, stream_id: isize) -> (r: Result<(), K2Error>)
        ensures
            r is Ok,
            final(self).stream() == stream_id,
            final(self).chain_names() == old(self).chain_names(),
            final(self).chain_list().len() == old(self).chain_list().len(),
            forall|j: int| 0 <= j < old(self).chain_list().len() ==> moved_to_stream(
                #[trigger] old(self).chain_list()[j],
                final(self).chain_list()[j],
                stream_id,
            ),
            final(self).running() == old(self).running(),
            final(self).label() == old(self).label(),
            final(self).number() == old(self).number(),
    {
        self.stream_id = stream_id;
        let n = self.chains.len();
        let mut i: usize = 0;
        while i < n
            invariant
                i <= n,
                n == old(self).chain_list().len(),
                n == old(self).chain_names().len(),
                self.stream_id == stream_id,
                self.chain_names() == old(self).chain_names(),
                self.chain_list().len() == n,
                forall|j: int| 0 <= j < i ==> moved_to_stream(
                    #[trigger] old(self).chain_list()[j],
                    self.chain_list()[j],
                    stream_id,
                ),
                forall|j: int| i <= j < n ==> #[trigger] self.chain_list()[j] == old(self).chain_list()[j],
                self.started == old(self).started,
                self.name == old(self).name,
                self.id == old(self).id,
            decreases n - i,
        {
            let mut c = self.chains.swap_value(i, Chain::new(String::new(), 0));
            c.set_stream_id(stream_id);
            let _ = self.chains.swap_value(i, c);
            i = i + 1;
        }
        Ok(())
    }

    /// Adds a chain under a name and puts it in the mode's stream;
    /// `AlreadyExists` when the name is taken.
    pub fn add_chain(&mut self, name: String, chain: Chain) -> (r: Result<(), K2Error>)
        ensures
            old(self).chain_map().contains_key(name@) ==> (r matches Err(e) && e.code
                == K2ErrorCode::AlreadyExists && e.message@ == "Chain already exists"@ && *final(self)
                == *old(self)),
            !old(self).chain_map().contains_key(name@) ==> (r is Ok && final(self).chain_names()
                == old(self).chain_names().push(name@) && final(self).chain_list().len()
                == old(self).chain_list().len() + 1 && final(self).chain_list().take(
                old(self).chain_list().len() as int,
            ) == old(self).chain_list() && moved_to_stream(
                chain,
                final(self).chain_list().last(),
                old(self).stream(),
            )),
            final(self).stream() == old(self).stream(),
            final(self).running() == old(self).running(),
            final(self).label() == old(self).label(),
            final(self).number() == old(self).number(),
    {
        if self.chains.contains_key(name.as_str()) {
            return Err(K2Error::new(K2ErrorCode::AlreadyExists, "Chain already exists"));
        }
        let mut chain = chain;
        chain.set_stream_id(self.stream_id);
        self.chains.insert(name, chain);
        assert(self.chain_list().take(old(self).chain_list().len() as int) =~= old(self).chain_list());
        Ok(())
    }

    /// The chain named `name`; `NotFound` when there is none.
    pub fn get_chain(&self, name: &String) -> (r: Result<&Chain, K2Error>)
        ensures
            self.chain_map().contains_key(name@) ==> (r matches Ok(c) && *c == self.chain_map()[name@]),
            !self.chain_map().contains_key(name@) ==> (r matches Err(e) && e.code == K2ErrorCode::NotFound
                && e.message@ == "Chain not found"@),
    {
        match self.chains.get(name.as_str()) {
            Some(c) => Ok(c),
            None => Err(K2Error::new(K2ErrorCode::NotFound, "Chain not found")),
        }
    }

    /// Initializes the chains in the order they were added; the first that
    /// fails stops it with its error. The mode needs a stream
    /// (`Uninitialized`).
    pub fn initialize(&mut self) -> (r: Result<(), K2Error>)
        ensures
            old(self).stream() == -1 ==> (r matches Err(e) && e.code == K2ErrorCode::Uninitialized
                && e.message@ == "Stream ID is not set"@ && *final(self) == *old(self)),
            old(self).stream() != -1 ==> ((r is Ok <==> forall|j: int|
                0 <= j < old(self).chain_list().len() ==> chain_init_ok(#[trigger] old(self).chain_list()[j]))
                && (r is Ok ==> forall|j: int|
                0 <= j < final(self).chain_list().len() ==> (#[trigger] final(self).chain_list()[j]).ready())),
            final(self).chain_names() == old(self).chain_names(),
            final(self).chain_list().len() == old(self).chain_list().len(),
            forall|j: int| 0 <= j < old(self).chain_list().len() ==> (#[trigger] final(self).chain_list()[j]).label()
                == old(self).chain_list()[j].label() && final(self).chain_list()[j].block_names()
                == old(self).chain_list()[j].block_names() && final(self).chain_list()[j].stream()
                == old(self).chain_list()[j].stream(),
            final(self).stream() == old(self).stream(),
            final(self).running() == old(self).running(),
    {
        if self.stream_id == -1 {
            return Err(K2Error::new(K2ErrorCode::Uninitialized, "Stream ID is not set"));
        }
        let n = self.chains.len();
        let mut i: usize = 0;
        while i < n
            invariant
                i <= n,
                n == old(self).chain_list().len(),
                n == old(self).chain_names().len(),
                self.stream_id == old(self).stream_id,
                self.stream_id != -1,
                self.chain_names() == old(self).chain_names(),
                self.chain_list().len() == n,
                forall|j: int| 0 <= j < i ==> chain_init_ok(#[trigger] old(self).chain_list()[j]),
                forall|j: int| 0 <= j < i ==> (#[trigger] self.chain_list()[j]).ready(),
                forall|j: int| 0 <= j < n ==> (#[trigger] self.chain_list()[j]).label()
                    == old(self).chain_list()[j].label() && self.chain_list()[j].block_names()
                    == old(self).chain_list()[j].block_names() && self.chain_list()[j].stream()
                    == old(self).chain_list()[j].stream(),
                forall|j: int| i <= j < n ==> #[trigger] self.chain_list()[j] == old(self).chain_list()[j],
                self.started == old(self).started,
            decreases n - i,
        {
            let mut c = self.chains.swap_value(i, Chain::new(String::new(), 0));
            let ghost c0 = c;
            let r = c.initialize();
            let ghost c1 = c;
            let _ = self.chains.swap_value(i, c);
            match r {
                Ok(()) => {
                    assert(chain_init_ok(c0));
                },
                Err(e) => {
                    proof {
                        if c0.stream() != -1 {
                            let k = choose|k: int| 0 <= k < c0.links().len() && backward(c1.order(), c0.links(), k);
                            assert(backward(init_order(c0), c0.links(), k));
                        }
                        assert(!chain_init_ok(c0));
                    }
                    return Err(e);
                },
            }
            i = i + 1;
        }
        Ok(())
    }

    /// Starts the mode: the answer names the chains for the caller to run,
    /// each in a task of its own, in the order they were added. The mode
    /// needs a stream (`Uninitialized`).
    pub fn process(&mut self) -> (r: Result<Vec<String>, K2Error>)
        ensures
            old(self).stream() == -1 ==> (r matches Err(e) && e.code == K2ErrorCode::Uninitialized
                && e.message@ == "Stream ID is not set"@ && *final(self) == *old(self)),
            old(self).stream() != -1 ==> (r matches Ok(v) && v.deep_view() == old(self).chain_names()
                && final(self).running() == old(self).chain_names()),
            final(self).chain_names() == old(self).chain_names(),
            final(self).chain_list() == old(self).chain_list(),
            final(self).stream() == old(self).stream(),
    {
        if self.stream_id == -1 {
            return Err(K2Error::new(K2ErrorCode::Uninitialized, "Stream ID is not set"));
        }
        let names = self.chains.keys();
        self.started = crate::text::clone_strings(&names);
        Ok(names)
    }

    /// Stops every chain; `NotFound` when a chain was never started. No
    /// chain counts as started afterwards.
    pub fn finalize(&mut self) -> (r: Result<(), K2Error>)
        ensures
            (r is Ok) == (forall|j: int|
                0 <= j < old(self).chain_names().len() ==> old(self).running().contains(
                    #[trigger] old(self).chain_names()[j],
                )),
            r matches Err(e) ==> e.code == K2ErrorCode::NotFound && e.message@ == "Chain handle not found"@,
            final(self).running() == Seq::<Seq<char>>::empty(),
            final(self).chain_names() == old(self).chain_names(),
            final(self).chain_list().len() == old(self).chain_list().len(),
            forall|j: int| 0 <= j < old(self).chain_list().len() ==> !(#[trigger] final(self).chain_list()[j]).runs()
                && final(self).chain_list()[j].label() == old(self).chain_list()[j].label()
                && final(self).chain_list()[j].block_names() == old(self).chain_list()[j].block_names(),
            final(self).stream() == old(self).stream(),
    {
        let names = self.chains.keys();
        let n = self.chains.len();
        let mut all_started = true;
        let mut i: usize = 0;
        while i < n
            invariant
                i <= n,
                n == old(self).chain_list().len(),
                n == old(self).chain_names().len(),
                names.deep_view() == old(self).chain_names(),
                self.stream_id == old(self).stream_id,
                self.chain_names() == old(self).chain_names(),
                self.chain_list().len() == n,
                self.started == old(self).started,
                all_started == (forall|j: int| 0 <= j < i ==> old(self).running().contains(
                    #[trigger] old(self).chain_names()[j],
                )),
                forall|j: int| 0 <= j < i ==> !(#[trigger] self.chain_list()[j]).runs(),
                forall|j: int| 0 <= j < n ==> (#[trigger] self.chain_list()[j]).label()
                    == old(self).chain_list()[j].label() && self.chain_list()[j].block_names()
                    == old(self).chain_list()[j].block_names(),
                forall|j: int| i <= j < n ==> #[trigger] self.chain_list()[j] == old(self).chain_list()[j],
            decreases n - i,
        {
            let mut c = self.chains.swap_value(i, Chain::new(String::new(), 0));
            let _ = c.finalize();
            let _ = self.chains.swap_value(i, c);
            assert(names.deep_view()[i as int] == names@[i as int]@);
            if !contains_name(&self.started, names[i].as_str()) {
                all_started = false;
            }
            i = i + 1;
        }
        self.started = Vec::new();
        assert(self.started.deep_view() =~= Seq::<Seq<char>>::empty());
        if all_started {
            Ok(())
        } else {
            Err(K2Error::new(K2ErrorCode::NotFound, "Chain handle not found"))
        }
    }
}

} // verus!
