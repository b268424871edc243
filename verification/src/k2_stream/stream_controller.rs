//! The controller of a stream: its number, its modes and the current one, the
//! commands it answers and the block that answers each, and the names of the
//! processors registered with the framework. Running the processors
//! themselves is left to the caller.
use vstd::prelude::*;
use crate::name_map::NameMap;
use crate::text::{contains_name, split_char, split_on};
use crate::k2_stream::errors::{K2Error, K2ErrorCode};
use crate::k2_stream::modes::{Chain, OperativeMode};
use crate::k2_stream::processors::{ProcessorHeader, StreamBlock, StreamState};

verus! {

/// Hands out stream numbers, counting up from one.
pub struct StreamIds {
    last: isize,
}

impl StreamIds {
    /// The last number handed out; zero before the first.
    pub closed spec fn last_id(&self) -> isize {
        self.last
    }

    /// A counter that has handed out no number yet.
    pub fn new() -> (r: Self)
        ensures
            r.last_id() == 0,
    {
        StreamIds { last: 0 }
    }
}

/// The names of the processors registered with the framework.
pub struct ProcessorRegistry {
    names: Vec<String>,
}

impl ProcessorRegistry {
    /// The registered names, in the order they were registered.
    pub closed spec fn registered(&self) -> Seq<Seq<char>> {
        self.names.deep_view()
    }

    /// A registry with no processors.
    pub fn new() -> (r: Self)
        ensures
            r.registered() == Seq::<Seq<char>>::empty(),
    {
        let r = ProcessorRegistry { names: Vec::new() };
        assert(r.names.deep_view() =~= Seq::<Seq<char>>::empty());
        r
    }

    /// Whether a processor of that name is registered.
    pub fn contains(&self, name: &str) -> (r: bool)
        ensures
            r == self.registered().contains(name@),
    {
        contains_name(&self.names, name)
    }

    /// Registers a name, once.
    fn register(&mut self, name: String)
        ensures
            final(self).registered() == if old(self).registered().contains(name@) {
                old(self).registered()
            } else {
                old(self).registered().push(name@)
            },
    {
        if !contains_name(&self.names, name.as_str()) {
            let ghost before = self.names.deep_view();
            let ghost n = name@;
            self.names.push(name);
            assert(self.names.deep_view() =~= before.push(n));
        }
    }
}

/// The controller of a stream.
pub struct StreamController {
    pub name: String,
    pub header: ProcessorHeader,
    stream_id: isize,
    modes: NameMap<OperativeMode>,
    current_mode: String,
    command_map: NameMap<String>,
    state: StreamState,
}

/// The commands every controller answers itself.
pub open spec fn own_commands(name: Seq<char>) -> Map<Seq<char>, Seq<char>> {
    Map::empty().insert("init"@, name).insert("run"@, name).insert("stand-by"@, name)
}

/// The processor and the connector that a dotted name gives, or the error
/// for a missing part.
pub open spec fn connector_of(s: Seq<char>, which: Seq<char>) -> Result<(Seq<char>, Seq<char>), Seq<char>> {
    let parts = split_on(s, '.');
    if parts.len() < 2 {
        Err(which + " connector not found"@)
    } else {
        Ok((parts[0], parts[1]))
    }
}

impl StreamController {
    /// The stream's number.
    pub closed spec fn stream(&self) -> isize {
        self.stream_id
    }

    /// The controller's name.
    pub closed spec fn label(&self) -> Seq<char> {
        self.name@
    }

    /// The names of its modes, in the order they were added.
    pub closed spec fn mode_names(&self) -> Seq<Seq<char>> {
        self.modes.keys_seq()
    }

    /// Its modes, by name.
    pub closed spec fn mode_map(&self) -> Map<Seq<char>, OperativeMode> {
        self.modes.as_map()
    }

    /// The current mode's name.
    pub closed spec fn current(&self) -> Seq<char> {
        self.current_mode@
    }

    /// The commands it answers, and the block that answers each.
    pub closed spec fn commands(&self) -> Map<Seq<char>, Seq<char>> {
        self.command_map.as_map().map_values(|b: String| b@)
    }

    /// Where the stream is in its life.
    pub closed spec fn life(&self) -> StreamState {
        self.state
    }

    /// Creates the controller `name` of the next stream: it takes the next
    /// number, answers `init`, `run` and `stand-by` itself, has a `default`
    /// mode that is also its current one, and is registered as a processor.
    pub fn create(name: String, ids: &mut StreamIds, registry: &mut ProcessorRegistry) -> (r: Result<StreamController, K2Error>)
        requires
            old(ids).last_id() < isize::MAX,
        ensures
            final(ids).last_id() == old(ids).last_id() + 1,
            final(registry).registered() == if old(registry).registered().contains(name@) {
                old(registry).registered()
            } else {
                old(registry).registered().push(name@)
            },
            r matches Ok(c) && c.label() == name@ && c.stream() == final(ids).last_id() && c.current()
                == "default"@ && c.mode_names() == seq!["default"@] && c.mode_map()["default"@].stream()
                == c.stream() && c.mode_map()["default"@].chain_names() == Seq::<Seq<char>>::empty()
                && c.commands() == own_commands(name@) && c.life() == StreamState::Uninitialized,
    {
        ids.last = ids.last + 1;
        let stream_id = ids.last;
        let commands: NameMap<String> = NameMap::new();
        let mut mode = OperativeMode::new("default".to_owned(), 0);
        let _ = mode.set_stream_id(stream_id);
        let mut modes: NameMap<OperativeMode> = NameMap::new();
        modes.insert("default".to_owned(), mode);
        registry.register(name.clone());
        let mut c = StreamController {
            name,
            header: ProcessorHeader {
                proc_name: "StreamController".to_owned(),
                description: "A processor that controls the stream blocks and the execution of the modes".to_owned(),
                version: "0.1.0".to_owned(),
                author: "Sofia Silvestri".to_owned(),
                email: "ms.sofia.silvestri@gmail.com".to_owned(),
                license: "LGPLv2.0".to_owned(),
                repository: "".to_owned(),
            },
            stream_id,
            modes,
            current_mode: "default".to_owned(),
            command_map: commands,
            state: StreamState::Uninitialized,
        };
        assert(c.commands() =~= Map::<Seq<char>, Seq<char>>::empty());
        let _ = c.register_commands();
        assert(c.modes.keys_seq() =~= seq!["default"@]);
        assert(c.commands() =~= own_commands(c.name@));
        Ok(c)
    }

    /// Answers `init`, `run` and `stand-by` itself.
    pub fn register_commands(&mut self) -> (r: Result<(), K2Error>)
        ensures
            r is Ok,
            final(self).commands() == old(self).commands().insert("init"@, old(self).label()).insert(
                "run"@,
                old(self).label(),
            ).insert("stand-by"@, old(self).label()),
            final(self).label() == old(self).label(),
            final(self).stream() == old(self).stream(),
            final(self).mode_names() == old(self).mode_names(),
            final(self).mode_map() == old(self).mode_map(),
            final(self).current() == old(self).current(),
            final(self).life() == old(self).life(),
    {
        let ghost before = self.commands();
        let ghost n = self.name@;
        self.command_map.insert("init".to_owned(), self.name.clone());
        self.command_map.insert("run".to_owned(), self.name.clone());
        self.command_map.insert("stand-by".to_owned(), self.name.clone());
        assert(self.commands() =~= before.insert("init"@, n).insert("run"@, n).insert("stand-by"@, n));
        Ok(())
    }

    /// A controller is not made as other processors are; this always refuses
    /// with `InvalidOperation`, and `create` is the way.
    pub fn new(_name: String) -> (r: Result<StreamController, K2Error>)
        ensures
            r matches Err(e) && e.code == K2ErrorCode::InvalidOperation && e.message@
                == "Use the method StreamController::create(\"name\") instead"@,
    {
        Err(K2Error::new(K2ErrorCode::InvalidOperation, "Use the method StreamController::create(\"name\") instead"))
    }

    /// The stream's number.
    pub fn get_stream_id(&self) -> (r: isize)
        ensures
            r == self.stream(),
    {
        self.stream_id
    }

    /// Adds a mode and puts it in the stream; `AlreadyExists` when a mode of
    /// that name is there.
    pub fn add_mode(&mut self, mode: OperativeMode) -> (r: Result<(), K2Error>)
        ensures
            old(self).mode_map().contains_key(mode.label()) ==> (r matches Err(e) && e.code
                == K2ErrorCode::AlreadyExists && e.message@ == "Mode with this ID already exists"@
                && *final(self) == *old(self)),
            !old(self).mode_map().contains_key(mode.label()) ==> (r is Ok && final(self).mode_names()
                == old(self).mode_names().push(mode.label()) && final(self).mode_map().contains_key(mode.label())
                && final(self).mode_map()[mode.label()].label() == mode.label() && final(self).mode_map()[mode.label()].stream()
                == old(self).stream() && final(self).mode_map()[mode.label()].chain_names()
                == mode.chain_names() && forall|k: Seq<char>|
                k != mode.label() ==> #[trigger] final(self).mode_map().get(k) == old(self).mode_map().get(k)),
            final(self).stream() == old(self).stream(),
            final(self).current() == old(self).current(),
            final(self).commands() == old(self).commands(),
            final(self).life() == old(self).life(),
    {
        if self.modes.contains_key(mode.get_name().as_str()) {
            return Err(K2Error::new(K2ErrorCode::AlreadyExists, "Mode with this ID already exists"));
        }
        let mut mode = mode;
        let _ = mode.set_stream_id(self.stream_id);
        let key = mode.get_name().clone();
        self.modes.insert(key, mode);
        Ok(())
    }

    /// The mode named `name`; `NotFound` when there is none.
    pub fn get_mode(&self, name: &String) -> (r: Result<&OperativeMode, K2Error>)
        ensures
            self.mode_map().contains_key(name@) ==> (r matches Ok(m) && *m == self.mode_map()[name@]),
            !self.mode_map().contains_key(name@) ==> (r matches Err(e) && e.code == K2ErrorCode::NotFound
                && e.message@ == "Mode not found"@),
    {
        match self.modes.get(name.as_str()) {
            Some(m) => Ok(m),
            None => Err(K2Error::new(K2ErrorCode::NotFound, "Mode not found")),
        }
    }

    /// Leaves the current mode for the mode `name`: `NotFound` when there is
    /// no such mode, or no current one; otherwise the current mode is
    /// finalized (its error stops the change), and the answer is the mode to
    /// configure before `finish_mode_change`.
    pub fn begin_mode_change(&mut self, name: &String) -> (r: Result<String, K2Error>)
        ensures
            !old(self).mode_map().contains_key(name@) ==> (r matches Err(e) && e.code
                == K2ErrorCode::NotFound && e.message@ == "Mode not found"@ && *final(self) == *old(self)),
            old(self).mode_map().contains_key(name@) && !old(self).mode_map().contains_key(old(self).current())
                ==> (r matches Err(e) && e.code == K2ErrorCode::NotFound && e.message@
                == "Current mode not found"@ && *final(self) == *old(self)),
            r matches Ok(m) ==> m@ == name@,
            final(self).mode_names() == old(self).mode_names(),
            final(self).stream() == old(self).stream(),
            final(self).current() == old(self).current(),
            final(self).commands() == old(self).commands(),
    {
        if !self.modes.contains_key(name.as_str()) {
            return Err(K2Error::new(K2ErrorCode::NotFound, "Mode not found"));
        }
        let i = match self.modes.find(self.current_mode.as_str()) {
            Some(i) => i,
            None => {
                return Err(K2Error::new(K2ErrorCode::NotFound, "Current mode not found"));
            },
        };
        let mut current = self.modes.swap_value(i, OperativeMode::new(String::new(), 0));
        let r = current.finalize();
        let _ = self.modes.swap_value(i, current);
        match r {
            Ok(()) => Ok(name.clone()),
            Err(e) => Err(e),
        }
    }

    /// Makes `name` the current mode once it was configured: it is
    /// initialized and started (the first error stops it), and the answer
    /// names its chains to run.
    pub fn finish_mode_change(&mut self, name: &String) -> (r: Result<Vec<String>, K2Error>)
        ensures
            !old(self).mode_map().contains_key(name@) ==> (r matches Err(e) && e.code
                == K2ErrorCode::NotFound && e.message@ == "Mode not found"@ && *final(self) == *old(self)),
            r matches Ok(v) ==> final(self).current() == name@ && old(self).mode_map().contains_key(name@)
                && v.deep_view() == old(self).mode_map()[name@].chain_names(),
            r is Err ==> final(self).current() == old(self).current(),
            final(self).mode_names() == old(self).mode_names(),
            final(self).stream() == old(self).stream(),
            final(self).commands() == old(self).commands(),
    {
        let i = match self.modes.find(name.as_str()) {
            Some(i) => i,
            None => {
                return Err(K2Error::new(K2ErrorCode::NotFound, "Mode not found"));
            },
        };
        let mut mode = self.modes.swap_value(i, OperativeMode::new(String::new(), 0));
        let started = match mode.initialize() {
            Ok(()) => mode.process(),
            Err(e) => Err(e),
        };
        let _ = self.modes.swap_value(i, mode);
        match started {
            Ok(v) => {
                self.current_mode = name.clone();
                Ok(v)
            },
            Err(e) => Err(e),
        }
    }

    /// Registers a processor's block in a chain of the stream: the block
    /// takes the stream's number and the chain's task, and joins the chain
    /// (its errors stop it); `AlreadyExists` when the name is registered.
    pub fn add_processor<T: Clone + Default + PartialOrd>(&mut self, registry: &mut ProcessorRegistry, chain: &mut Chain, name: String, block: &mut StreamBlock<T>) -> (r: Result<(), K2Error>)
        ensures
            old(registry).registered().contains(name@) ==> (r matches Err(e) && e.code
                == K2ErrorCode::AlreadyExists && e.message@ == "Processor with this name already exists"@
                && *final(registry) == *old(registry) && *final(chain) == *old(chain) && *final(block)
                == *old(block)),
            !old(registry).registered().contains(name@) ==> final(block).stream() == old(self).stream()
                && final(block).tasks() == old(block).tasks().push(old(chain).task()),
            r is Ok ==> final(registry).registered() == old(registry).registered().push(name@)
                && final(chain).block_names() == old(chain).block_names().push(name@),
            r is Err ==> final(registry).registered() == old(registry).registered() && final(chain).block_names()
                == old(chain).block_names(),
            *final(self) == *old(self),
    {
        if registry.contains(name.as_str()) {
            return Err(K2Error::new(K2ErrorCode::AlreadyExists, "Processor with this name already exists"));
        }
        block.set_stream_id(self.stream_id);
        block.set_task_id(chain.get_task_id());
        match chain.add_block(name.clone(), block) {
            Ok(()) => {},
            Err(e) => {
                return Err(e);
            },
        }
        registry.register(name);
        Ok(())
    }

    /// Lets a block answer a command; `AlreadyExists` when the command is
    /// taken, `NotFound` when no processor of that name is registered. The
    /// controller keeps which block answers the command; the function that
    /// answers it is kept, and run on that block, by the caller.
    pub fn add_command(&mut self, registry: &ProcessorRegistry, command: String, block_name: String) -> (r: Result<(), K2Error>)
        ensures
            old(self).commands().contains_key(command@) ==> (r matches Err(e) && e.code
                == K2ErrorCode::AlreadyExists && e.message@ == "Command already exists"@ && *final(self)
                == *old(self)),
            !old(self).commands().contains_key(command@) && !registry.registered().contains(block_name@)
                ==> (r matches Err(e) && e.code == K2ErrorCode::NotFound && e.message@
                == "Block does not exist"@ && *final(self) == *old(self)),
            !old(self).commands().contains_key(command@) && registry.registered().contains(block_name@)
                ==> (r is Ok && final(self).commands() == old(self).commands().insert(command@, block_name@)),
            final(self).mode_names() == old(self).mode_names(),
            final(self).stream() == old(self).stream(),
            final(self).current() == old(self).current(),
    {
        if self.command_map.contains_key(command.as_str()) {
            return Err(K2Error::new(K2ErrorCode::AlreadyExists, "Command already exists"));
        }
        if !registry.contains(block_name.as_str()) {
            return Err(K2Error::new(K2ErrorCode::NotFound, "Block does not exist"));
        }
        let ghost c = command@;
        let ghost b = block_name@;
        self.command_map.insert(command, block_name);
        assert(self.commands() =~= old(self).commands().insert(c, b));
        Ok(())
    }

    /// The block that answers a command; `NotFound` when the command is
    /// unknown. The caller runs the command's function on that block, and its
    /// answer is the answer to the command.
    pub fn execute_command(&self, command: &String) -> (r: Result<String, K2Error>)
        ensures
            self.commands().contains_key(command@) ==> (r matches Ok(b) && b@ == self.commands()[command@]),
            !self.commands().contains_key(command@) ==> (r matches Err(e) && e.code == K2ErrorCode::NotFound
                && e.message@ == "Command not found"@),
    {
        match self.command_map.get(command.as_str()) {
            Some(b) => Ok(b.clone()),
            None => Err(K2Error::new(K2ErrorCode::NotFound, "Command not found")),
        }
    }

    /// The processors and connectors of a connection between two dotted
    /// names, as `processor.connector`.
    pub fn connection_ends(from: &String, to: &String) -> (r: Result<((String, String), (String, String)), K2Error>)
        ensures
            match (connector_of(from@, "From"@), connector_of(to@, "To"@)) {
                (Err(m), _) => r matches Err(e) && e.code == K2ErrorCode::NotFound && e.message@ == m,
                (Ok(_), Err(m)) => r matches Err(e) && e.code == K2ErrorCode::NotFound && e.message@ == m,
                (Ok(a), Ok(b)) => r matches Ok((x, y)) && x.0@ == a.0 && x.1@ == a.1 && y.0@ == b.0 && y.1@
                    == b.1,
            },
    {
        proof {
            reveal_strlit("From");
            reveal_strlit("To");
            reveal_strlit(" connector not found");
            reveal_strlit("From connector not found");
            reveal_strlit("To connector not found");
            assert("From"@ + " connector not found"@ =~= "From connector not found"@);
            assert("To"@ + " connector not found"@ =~= "To connector not found"@);
        }
        let from_split = split_char(from.as_str(), '.');
        let to_split = split_char(to.as_str(), '.');
        if from_split.len() < 2 {
            return Err(K2Error::new(K2ErrorCode::NotFound, "From connector not found"));
        }
        if to_split.len() < 2 {
            return Err(K2Error::new(K2ErrorCode::NotFound, "To connector not found"));
        }
        assert(from_split.deep_view()[0] == from_split@[0]@ && from_split.deep_view()[1] == from_split@[1]@);
        assert(to_split.deep_view()[0] == to_split@[0]@ && to_split.deep_view()[1] == to_split@[1]@);
        Ok(((from_split[0].clone(), from_split[1].clone()), (to_split[0].clone(), to_split[1].clone())))
    }

    /// Starts a run of the stream: a stream that was never initialized is
    /// refused with `Uninitialized`; any other is running from now on.
    pub fn start_run(&mut self) -> (r: Result<(), K2Error>)
        ensures
            old(self).life() == StreamState::Uninitialized ==> (r matches Err(e) && e.code
                == K2ErrorCode::Uninitialized && e.message@ == "Stream is not initialized"@)
                && *final(self) == *old(self),
            old(self).life() != StreamState::Uninitialized ==> r is Ok && final(self).life()
                == StreamState::Running,
            final(self).label() == old(self).label(),
            final(self).stream() == old(self).stream(),
            final(self).mode_names() == old(self).mode_names(),
            final(self).mode_map() == old(self).mode_map(),
            final(self).current() == old(self).current(),
            final(self).commands() == old(self).commands(),
    {
        if self.state == StreamState::Uninitialized {
            return Err(K2Error::new(K2ErrorCode::Uninitialized, "Stream is not initialized"));
        }
        self.state = StreamState::Running;
        Ok(())
    }

    /// What a run does after one round of processing with `outcome`: an
    /// error ends the run with that error and the stream waits again;
    /// otherwise the run ends well once the stream was put to waiting, and
    /// goes on (`None`) while it was not.
    pub fn after_round(&mut self, outcome: Result<(), K2Error>) -> (r: Option<Result<(), K2Error>>)
        ensures
            match outcome {
                Err(e) => (r matches Some(Err(x)) && x.code == e.code && x.message@ == e.message@)
                    && final(self).life() == StreamState::Waiting,
                Ok(_) => *final(self) == *old(self) && if old(self).life() == StreamState::Waiting {
                    r matches Some(Ok(_))
                } else {
                    r is None
                },
            },
            final(self).label() == old(self).label(),
            final(self).stream() == old(self).stream(),
            final(self).mode_names() == old(self).mode_names(),
            final(self).mode_map() == old(self).mode_map(),
            final(self).current() == old(self).current(),
            final(self).commands() == old(self).commands(),
    {
        match outcome {
            Err(e) => {
                self.state = StreamState::Waiting;
                Some(Err(K2Error { code: e.code, message: e.message }))
            },
            Ok(_) => {
                if self.state == StreamState::Waiting {
                    Some(Ok(()))
                } else {
                    None
                }
            },
        }
    }

    /// Initializes the stream's modes once its processors were: it needs a
    /// stream number (`Uninitialized`) and a stream that is not running
    /// (`NotAllowed`); the first mode that fails stops it with its error.
    pub fn initialize(&mut self) -> (r: Result<(), K2Error>)
        ensures
            old(self).stream() == -1 ==> (r matches Err(e) && e.code == K2ErrorCode::Uninitialized
                && e.message@ == "Stream ID is not set"@ && *final(self) == *old(self)),
            old(self).stream() != -1 && old(self).life() == StreamState::Running ==> (r matches Err(e)
                && e.code == K2ErrorCode::NotAllowed && e.message@ == "Stream is already running"@
                && *final(self) == *old(self)),
            r is Ok ==> final(self).life() == StreamState::Initialized,
            r is Err ==> final(self).life() == old(self).life(),
            final(self).mode_names() == old(self).mode_names(),
            final(self).stream() == old(self).stream(),
            final(self).current() == old(self).current(),
            final(self).commands() == old(self).commands(),
    {
        if self.stream_id == -1 {
            return Err(K2Error::new(K2ErrorCode::Uninitialized, "Stream ID is not set"));
        }
        if self.state == StreamState::Running {
            return Err(K2Error::new(K2ErrorCode::NotAllowed, "Stream is already running"));
        }
        let n = self.modes.len();
        let mut i: usize = 0;
        while i < n
            invariant
                i <= n,
                n == self.modes.keys_seq().len(),
                self.modes.keys_seq() == old(self).modes.keys_seq(),
                self.stream_id == old(self).stream_id,
                self.current_mode == old(self).current_mode,
                self.command_map == old(self).command_map,
                self.state == old(self).state,
                self.name == old(self).name,
                old(self).stream_id != -1,
                old(self).state != StreamState::Running,
            decreases n - i,
        {
            let mut mode = self.modes.swap_value(i, OperativeMode::new(String::new(), 0));
            let r = mode.initialize();
            let _ = self.modes.swap_value(i, mode);
            match r {
                Ok(()) => {},
                Err(e) => {
                    return Err(e);
                },
            }
            i = i + 1;
        }
        self.state = StreamState::Initialized;
        Ok(())
    }

    /// Stops every mode of the stream, in the order they were added; the
    /// first that fails stops it with its error. It succeeds exactly when
    /// every mode had started each of its chains.
    pub fn finalize(&mut self) -> (r: Result<(), K2Error>)
        ensures
            (r is Ok) == (forall|j: int|
                0 <= j < old(self).mode_names().len() ==> mode_stops_cleanly(
                    #[trigger] old(self).mode_map()[old(self).mode_names()[j]],
                )),
            r matches Err(e) ==> e.code == K2ErrorCode::NotFound && e.message@ == "Chain handle not found"@,
            final(self).mode_names() == old(self).mode_names(),
            final(self).stream() == old(self).stream(),
            final(self).current() == old(self).current(),
            final(self).commands() == old(self).commands(),
            final(self).life() == old(self).life(),
    {
        let n = self.modes.len();
        let mut i: usize = 0;
        while i < n
            invariant
                i <= n,
                n == self.modes.keys_seq().len(),
                self.modes.keys_seq() == old(self).modes.keys_seq(),
                self.stream_id == old(self).stream_id,
                self.current_mode == old(self).current_mode,
                self.command_map == old(self).command_map,
                self.state == old(self).state,
                self.name == old(self).name,
                forall|j: int| 0 <= j < i ==> mode_stops_cleanly(
                    #[trigger] old(self).modes.as_map()[old(self).modes.keys_seq()[j]],
                ),
                forall|j: int| i <= j < n ==> #[trigger] self.modes.as_map()[old(self).modes.keys_seq()[j]]
                    == old(self).modes.as_map()[old(self).modes.keys_seq()[j]],
            decreases n - i,
        {
            let ghost keys = self.modes.keys_seq();
            let ghost before = self.modes.as_map();
            assert(keys.contains(keys[i as int]));
            assert(self.modes.as_map()[old(self).modes.keys_seq()[i as int]]
                == old(self).modes.as_map()[old(self).modes.keys_seq()[i as int]]);
            assert(before[keys[i as int]] == self.modes.lookup(keys[i as int]));
            let mut mode = self.modes.swap_value(i, OperativeMode::new(String::new(), 0));
            assert(mode == old(self).modes.as_map()[keys[i as int]]);
            let ghost mid = self.modes.as_map();
            let r = mode.finalize();
            let _ = self.modes.swap_value(i, mode);
            assert forall|j: int| i < j < n implies #[trigger] self.modes.as_map()[old(self).modes.keys_seq()[j]]
                == old(self).modes.as_map()[old(self).modes.keys_seq()[j]] by {
                assert(keys[j] != keys[i as int]);
                assert(mid[keys[j]] == before[keys[j]]);
            }
            match r {
                Ok(()) => {},
                Err(e) => {
                    assert(!mode_stops_cleanly(old(self).mode_map()[old(self).mode_names()[i as int]]));
                    return Err(e);
                },
            }
            i = i + 1;
        }
        Ok(())
    }
}

/// A mode had started each of its chains, so stopping it succeeds.
pub open spec fn mode_stops_cleanly(m: OperativeMode) -> bool {
    forall|j: int| 0 <= j < m.chain_names().len() ==> m.running().contains(#[trigger] m.chain_names()[j])
}

} // verus!
