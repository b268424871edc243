//! Stream blocks: the ports, parameters and states that a processor owns.
use vstd::prelude::*;
use crate::name_map::NameMap;
use crate::k2_stream::errors::{K2Error, K2ErrorCode};
use crate::k2_stream::memory::{DataHeader, DataTrait, Memory};
use crate::k2_stream::parameters::{Parameter, ParameterType, set_outcome};
use crate::k2_stream::states::{State, state_set_outcome};
use crate::k2_stream::connections::{Input, Output};
use crate::k2_stream::stream_controller::{ProcessorRegistry, StreamController};
use crate::text::{split_char, split_on};

verus! {

/// Which ports a processor has.
#[derive(Debug, Clone, Copy, PartialEq, Eq, Structural)]
pub enum StreamType {
    NONE,
    RECEIVER,
    SENDER,
    BOTH,
}

/// Where a processor is in its life.
#[derive(Debug, Clone, Copy, PartialEq, Eq, Structural)]
pub enum StreamState {
    Uninitialized,
    Initialized,
    Running,
    Waiting,
}

/// Who wrote a processor, and how it is published.
#[derive(Clone)]
pub struct ProcessorHeader {
    pub proc_name: String,
    pub description: String,
    pub license: String,
    pub version: String,
    pub author: String,
    pub email: String,
    pub repository: String,
}

/// A datum of a stream block: a parameter or a state.
pub enum BlockDatum<T> {
    Parameter(Parameter<T>),
    State(State<T>),
}

impl<T: Clone + Default> DataTrait for BlockDatum<T> {
    open spec fn setted(&self) -> bool {
        match self {
            BlockDatum::Parameter(p) => p.setted(),
            BlockDatum::State(s) => s.setted(),
        }
    }

    open spec fn initialized_from(&self, before: Self) -> bool {
        match (*self, before) {
            (BlockDatum::Parameter(p), BlockDatum::Parameter(b)) => p.initialized_from(b),
            (BlockDatum::State(s), BlockDatum::State(b)) => s.initialized_from(b),
            _ => false,
        }
    }

    /// Initializes the parameter or the state.
    fn initialize(&mut self)
        ensures
            (*old(self) is Parameter <==> *final(self) is Parameter),
    {
        match self {
            BlockDatum::Parameter(p) => p.initialize(),
            BlockDatum::State(s) => s.initialize(),
        }
    }

    fn is_setted(&self) -> (r: bool) {
        match self {
            BlockDatum::Parameter(p) => p.is_setted(),
            BlockDatum::State(s) => s.is_setted(),
        }
    }
}

/// Calls `rand::random::<u64>()`, which draws from the thread's generator;
/// the contract claims nothing of the number.
#[verifier::external_body]
fn random_id() -> u64 {
    rand::random::<u64>()
}

/// The ports, parameters and states of a processor, with the stream and the
/// tasks it runs in. Every port and datum of a block carries values of the
/// type `T`.
#[verifier::reject_recursive_types(T)]
pub struct StreamBlock<T> {
    id: usize,
    stream_id: isize,
    task_id: Vec<isize>,
    memory: Memory<BlockDatum<T>>,
    initialized: bool,
    inputs: NameMap<Input<T>>,
    outputs: NameMap<Output<T>>,
}

/// The kind of ports a processor has, from the numbers of its inputs and
/// outputs.
pub open spec fn stream_type_of(inputs: nat, outputs: nat) -> StreamType {
    if inputs == 0 && outputs == 0 {
        StreamType::NONE
    } else if inputs == 0 {
        StreamType::RECEIVER
    } else if outputs == 0 {
        StreamType::SENDER
    } else {
        StreamType::BOTH
    }
}

impl<T: Clone + Default + PartialOrd> StreamBlock<T> {
    /// The block's identifier.
    pub closed spec fn ident(&self) -> usize {
        self.id
    }

    /// The stream the block runs in; -1 before it is set.
    pub closed spec fn stream(&self) -> isize {
        self.stream_id
    }

    /// The tasks the block runs in, in the order they were given.
    pub closed spec fn tasks(&self) -> Seq<isize> {
        self.task_id@
    }

    /// The parameters and states, by name.
    pub closed spec fn data(&self) -> Map<Seq<char>, BlockDatum<T>> {
        self.memory.contents()
    }

    /// Whether the block was found initialized.
    pub closed spec fn ready(&self) -> bool {
        self.initialized
    }

    /// The input ports, by name.
    pub closed spec fn input_ports(&self) -> Map<Seq<char>, Input<T>> {
        self.inputs.as_map()
    }

    /// The output ports, by name.
    pub closed spec fn output_ports(&self) -> Map<Seq<char>, Output<T>> {
        self.outputs.as_map()
    }

    /// The numbers of input and of output ports.
    pub closed spec fn port_counts(&self) -> (nat, nat) {
        (self.inputs.size(), self.outputs.size())
    }

    /// A block with no ports and no data, in no stream, with a random
    /// identifier.
    pub fn new() -> (r: Self)
        ensures
            r.stream() == -1,
            r.tasks() == Seq::<isize>::empty(),
            r.data() == Map::<Seq<char>, BlockDatum<T>>::empty(),
            !r.ready(),
            r.input_ports() == Map::<Seq<char>, Input<T>>::empty(),
            r.output_ports() == Map::<Seq<char>, Output<T>>::empty(),
            r.port_counts() == (0nat, 0nat),
    {
        let id = random_id() as usize;
        StreamBlock {
            id,
            stream_id: -1,
            task_id: Vec::new(),
            memory: Memory::new(),
            initialized: false,
            inputs: NameMap::new(),
            outputs: NameMap::new(),
        }
    }

    /// The block's identifier.
    pub fn get_id(&self) -> (r: usize)
        ensures
            r == self.ident(),
    {
        self.id
    }

    /// The stream the block runs in.
    pub fn get_stream_id(&self) -> (r: isize)
        ensures
            r == self.stream(),
    {
        self.stream_id
    }

    /// The tasks the block runs in.
    pub fn get_task_id(&self) -> (r: &Vec<isize>)
        ensures
            r@ == self.tasks(),
    {
        &self.task_id
    }

    /// Puts the block in a stream.
    pub fn set_stream_id(&mut self, stream_id: isize)
        ensures
            final(self).stream() == stream_id,
            final(self).tasks() == old(self).tasks(),
            final(self).data() == old(self).data(),
            final(self).ready() == old(self).ready(),
            final(self).input_ports() == old(self).input_ports(),
            final(self).output_ports() == old(self).output_ports(),
            final(self).port_counts() == old(self).port_counts(),
            final(self).ident() == old(self).ident(),
    {
        self.stream_id = stream_id;
    }

    /// Adds a task the block runs in.
    pub fn set_task_id(&mut self, task_id: isize)
        ensures
            final(self).tasks() == old(self).tasks().push(task_id),
            final(self).stream() == old(self).stream(),
            final(self).data() == old(self).data(),
            final(self).ready() == old(self).ready(),
            final(self).input_ports() == old(self).input_ports(),
            final(self).output_ports() == old(self).output_ports(),
            final(self).port_counts() == old(self).port_counts(),
            final(self).ident() == old(self).ident(),
    {
        self.task_id.push(task_id);
    }

    /// Adds an input port; `AlreadyExists` when the name is taken.
    pub fn add_input(&mut self, name: String) -> (r: Result<(), K2Error>)
        ensures
            old(self).input_ports().contains_key(name@) ==> (r matches Err(e) && e.code
                == K2ErrorCode::AlreadyExists && e.message@ == "Input already exists"@ && *final(self)
                == *old(self)),
            !old(self).input_ports().contains_key(name@) ==> (r is Ok && final(self).input_ports().dom()
                == old(self).input_ports().dom().insert(name@) && final(self).input_ports()[name@].label()
                == name@ && final(self).port_counts() == (old(self).port_counts().0 + 1, old(self).port_counts().1)),
            final(self).output_ports() == old(self).output_ports(),
            final(self).data() == old(self).data(),
            final(self).stream() == old(self).stream(),
            final(self).tasks() == old(self).tasks(),
            final(self).ready() == old(self).ready(),
    {
        if self.inputs.contains_key(name.as_str()) {
            return Err(K2Error::new(K2ErrorCode::AlreadyExists, "Input already exists"));
        }
        let port = Input::new(name.clone());
        self.inputs.insert(name, port);
        assert(self.input_ports().dom() =~= old(self).input_ports().dom().insert(name@));
        Ok(())
    }

    /// Adds an output port; `AlreadyExists` when the name is taken.
    pub fn add_output(&mut self, name: String) -> (r: Result<(), K2Error>)
        ensures
            old(self).output_ports().contains_key(name@) ==> (r matches Err(e) && e.code
                == K2ErrorCode::AlreadyExists && e.message@ == "Output already exists"@ && *final(self)
                == *old(self)),
            !old(self).output_ports().contains_key(name@) ==> (r is Ok && final(self).output_ports().dom()
                == old(self).output_ports().dom().insert(name@) && final(self).output_ports()[name@].label()
                == name@ && final(self).output_ports()[name@].connections() == 0
                && final(self).port_counts() == (old(self).port_counts().0, old(self).port_counts().1 + 1)),
            final(self).input_ports() == old(self).input_ports(),
            final(self).data() == old(self).data(),
            final(self).stream() == old(self).stream(),
            final(self).tasks() == old(self).tasks(),
            final(self).ready() == old(self).ready(),
    {
        if self.outputs.contains_key(name.as_str()) {
            return Err(K2Error::new(K2ErrorCode::AlreadyExists, "Output already exists"));
        }
        let port = Output::new(name.clone());
        self.outputs.insert(name, port);
        assert(self.output_ports().dom() =~= old(self).output_ports().dom().insert(name@));
        Ok(())
    }

    /// Adds a parameter with the default value of `T`, of the given kind;
    /// `AlreadyExists` when the name is taken.
    pub fn add_parameter(&mut self, name: String, parameter: ParameterType) -> (r: Result<(), K2Error>)
        ensures
            old(self).data().contains_key(name@) ==> (r matches Err(e) && e.code
                == K2ErrorCode::AlreadyExists && final(self).data() == old(self).data()),
            !old(self).data().contains_key(name@) ==> (final(self).data()[name@] matches BlockDatum::Parameter(p)
                && p.label() == name@ && p.kind() == parameter && !p.ready() && !p.bounded()
                && p.low() is None && p.high() is None && p.allowed() == Seq::<T>::empty()
                && r is Ok && final(self).data() == old(self).data().insert(
                name@,
                BlockDatum::Parameter(p),
            )),
            final(self).input_ports() == old(self).input_ports(),
            final(self).output_ports() == old(self).output_ports(),
            final(self).stream() == old(self).stream(),
            final(self).tasks() == old(self).tasks(),
            final(self).ready() == old(self).ready(),
    {
        let d = T::default();
        let param = match Parameter::new(name.clone(), d, parameter) {
            Ok(p) => p,
            Err(e) => {
                return Err(e);
            },
        };
        let r = self.memory.insert(name, BlockDatum::Parameter(param));
        proof {
        }
        r
    }

    /// Adds a state that waits for its initial value; `AlreadyExists` when
    /// the name is taken.
    pub fn add_state(&mut self, name: String) -> (r: Result<(), K2Error>)
        ensures
            old(self).data().contains_key(name@) ==> (r matches Err(e) && e.code
                == K2ErrorCode::AlreadyExists && final(self).data() == old(self).data()),
            !old(self).data().contains_key(name@) ==> (final(self).data()[name@] matches BlockDatum::State(s)
                && s.label() == name@ && !s.ready() && r is Ok && final(self).data().dom()
                == old(self).data().dom().insert(name@)),
            final(self).input_ports() == old(self).input_ports(),
            final(self).output_ports() == old(self).output_ports(),
            final(self).stream() == old(self).stream(),
            final(self).tasks() == old(self).tasks(),
            final(self).ready() == old(self).ready(),
    {
        let state = match State::new(name.clone()) {
            Ok(s) => s,
            Err(e) => {
                return Err(e);
            },
        };
        let r = self.memory.insert(name, BlockDatum::State(state));
        proof {
            if r is Ok {
                assert(self.data().dom() =~= old(self).data().dom().insert(name@));
            }
        }
        r
    }

    /// Whether the block is initialized: once every datum holds a value, it
    /// stays so.
    pub fn is_initialized(&mut self) -> (r: bool)
        ensures
            r == (old(self).ready() || forall|k: Seq<char>| #[trigger] old(self).data().contains_key(k)
                ==> old(self).data()[k].setted()),
            final(self).ready() == r,
            final(self).data() == old(self).data(),
            final(self).stream() == old(self).stream(),
            final(self).tasks() == old(self).tasks(),
            final(self).input_ports() == old(self).input_ports(),
            final(self).output_ports() == old(self).output_ports(),
    {
        if !self.initialized {
            let all = self.memory.is_initialized();
            proof {
                assert(self.data() == self.memory.contents());
                if all {
                    assert forall|k: Seq<char>| #[trigger] old(self).data().contains_key(k) implies old(
                        self,
                    ).data()[k].setted() by {
                        assert(self.memory.contents().contains_key(k));
                    }
                } else {
                    let k = choose|k: Seq<char>|
                        self.memory.contents().contains_key(k) && !self.memory.contents()[k].setted();
                    assert(old(self).data().contains_key(k) && !old(self).data()[k].setted());
                }
            }
            self.initialized = all;
        }
        self.initialized
    }

    /// Gives every datum without a value its initial one. Needs a stream and
    /// a task (`Uninitialized`).
    pub fn initialize(&mut self) -> (r: Result<(), K2Error>)
        ensures
            old(self).stream() == -1 ==> (r matches Err(e) && e.code == K2ErrorCode::Uninitialized
                && e.message@ == "Stream ID is not set"@ && *final(self) == *old(self)),
            old(self).stream() != -1 && old(self).tasks().len() == 0 ==> (r matches Err(e) && e.code
                == K2ErrorCode::Uninitialized && e.message@ == "Task ID is not set"@ && *final(self)
                == *old(self)),
            old(self).stream() != -1 && old(self).tasks().len() > 0 ==> (r is Ok && final(self).ready()
                && final(self).data().dom() == old(self).data().dom() && forall|k: Seq<char>|
                #[trigger] final(self).data().contains_key(k) ==> final(self).data()[k].setted()),
            old(self).stream() != -1 && old(self).tasks().len() > 0 ==> forall|k: Seq<char>|
                #![trigger final(self).data()[k]]
                old(self).data().contains_key(k) && old(self).data()[k].setted() ==> final(self).data()[k]
                    == old(self).data()[k],
            old(self).stream() != -1 && old(self).tasks().len() > 0 ==> forall|k: Seq<char>|
                #![trigger final(self).data()[k]]
                old(self).data().contains_key(k) && !old(self).data()[k].setted() ==> final(self).data()[k].initialized_from(old(self).data()[k]),
            final(self).stream() == old(self).stream(),
            final(self).tasks() == old(self).tasks(),
            final(self).input_ports() == old(self).input_ports(),
            final(self).output_ports() == old(self).output_ports(),
    {
        if self.stream_id == -1 {
            return Err(K2Error::new(K2ErrorCode::Uninitialized, "Stream ID is not set"));
        }
        if self.task_id.len() == 0 {
            return Err(K2Error::new(K2ErrorCode::Uninitialized, "Task ID is not set"));
        }
        self.memory.initialize_unset();
        self.initialized = true;
        Ok(())
    }

    /// The parameter named `name`: `NotFound` when there is none, `BadFormat`
    /// when the datum is a state.
    pub fn get_parameter(&self, name: &String) -> (r: Result<&Parameter<T>, K2Error>)
        ensures
            match self.data().get(name@) {
                None => r matches Err(e) && e.code == K2ErrorCode::NotFound && e.message@
                    == "Parameter not found"@,
                Some(BlockDatum::State(_)) => r matches Err(e) && e.code == K2ErrorCode::BadFormat
                    && e.message@ == "Failed to downcast parameter"@,
                Some(BlockDatum::Parameter(p)) => r matches Ok(q) && *q == p,
            },
    {
        match self.memory.get(name) {
            None => Err(K2Error::new(K2ErrorCode::NotFound, "Parameter not found")),
            Some(BlockDatum::State(_)) => Err(
                K2Error::new(K2ErrorCode::BadFormat, "Failed to downcast parameter"),
            ),
            Some(BlockDatum::Parameter(p)) => Ok(p),
        }
    }

    /// The state named `name`: `NotFound` when there is none, `BadFormat`
    /// when the datum is a parameter.
    pub fn get_state(&self, name: &String) -> (r: Result<&State<T>, K2Error>)
        ensures
            match self.data().get(name@) {
                None => r matches Err(e) && e.code == K2ErrorCode::NotFound && e.message@
                    == "State not found"@,
                Some(BlockDatum::Parameter(_)) => r matches Err(e) && e.code
                    == K2ErrorCode::BadFormat && e.message@ == "Failed to downcast state"@,
                Some(BlockDatum::State(s)) => r matches Ok(q) && *q == s,
            },
    {
        match self.memory.get(name) {
            None => Err(K2Error::new(K2ErrorCode::NotFound, "State not found")),
            Some(BlockDatum::Parameter(_)) => Err(
                K2Error::new(K2ErrorCode::BadFormat, "Failed to downcast state"),
            ),
            Some(BlockDatum::State(s)) => Ok(s),
        }
    }

    /// The input port named `name`; `NotFound` when there is none.
    pub fn get_input(&self, name: &String) -> (r: Result<&Input<T>, K2Error>)
        ensures
            match self.input_ports().get(name@) {
                None => r matches Err(e) && e.code == K2ErrorCode::NotFound && e.message@
                    == "Input not found"@,
                Some(p) => r matches Ok(q) && *q == p,
            },
    {
        match self.inputs.get(name.as_str()) {
            None => Err(K2Error::new(K2ErrorCode::NotFound, "Input not found")),
            Some(p) => Ok(p),
        }
    }

    /// The output port named `name`; `NotFound` when there is none.
    pub fn get_output(&self, name: &String) -> (r: Result<&Output<T>, K2Error>)
        ensures
            match self.output_ports().get(name@) {
                None => r matches Err(e) && e.code == K2ErrorCode::NotFound && e.message@
                    == "Output not found"@,
                Some(p) => r matches Ok(q) && *q == p,
            },
    {
        match self.outputs.get(name.as_str()) {
            None => Err(K2Error::new(K2ErrorCode::NotFound, "Output not found")),
            Some(p) => Ok(p),
        }
    }

    /// Sets the value of the parameter named `name`, as `Parameter::set`
    /// does; `NotFound` when there is none, `BadFormat` when the datum is a
    /// state.
    pub fn set_param(&mut self, name: &String, value: T) -> (r: Result<(), K2Error>)
        ensures
            match old(self).data().get(name@) {
                None => r matches Err(e) && e.code == K2ErrorCode::NotFound && e.message@
                    == "Parameter not found"@ && final(self).data() == old(self).data(),
                Some(BlockDatum::State(_)) => r matches Err(e) && e.code == K2ErrorCode::BadFormat
                    && e.message@ == "Failed to downcast parameter"@ && final(self).data() == old(
                    self).data(),
                Some(BlockDatum::Parameter(p)) => final(self).data()[name@] matches BlockDatum::Parameter(q)
                    && final(self).data().dom() == old(self).data().dom() && set_outcome(
                    p,
                    value,
                    q,
                    r,
                ) && forall|k: Seq<char>| k != name@ ==> #[trigger] final(self).data().get(k)
                    == old(self).data().get(k),
            },
            final(self).input_ports() == old(self).input_ports(),
            final(self).output_ports() == old(self).output_ports(),
            final(self).stream() == old(self).stream(),
            final(self).tasks() == old(self).tasks(),
            final(self).ready() == old(self).ready(),
    {
        match self.memory.take(name.as_str()) {
            None => Err(K2Error::new(K2ErrorCode::NotFound, "Parameter not found")),
            Some(BlockDatum::State(s)) => {
                self.memory.put(name.clone(), BlockDatum::State(s));
                assert(self.data() =~= old(self).data());
                Err(K2Error::new(K2ErrorCode::BadFormat, "Failed to downcast parameter"))
            },
            Some(BlockDatum::Parameter(p)) => {
                let mut p = p;
                let r = p.set(value);
                self.memory.put(name.clone(), BlockDatum::Parameter(p));
                assert(self.data().dom() =~= old(self).data().dom());
                r
            },
        }
    }

    /// Sets the value of the state named `name`, as `State::set` does;
    /// `NotFound` when there is none, `BadFormat` when the datum is a
    /// parameter.
    pub fn set_state(&mut self, name: &String, value: T) -> (r: Result<(), K2Error>)
        ensures
            match old(self).data().get(name@) {
                None => r matches Err(e) && e.code == K2ErrorCode::NotFound && e.message@
                    == "State not found"@ && final(self).data() == old(self).data(),
                Some(BlockDatum::Parameter(_)) => r matches Err(e) && e.code
                    == K2ErrorCode::BadFormat && e.message@ == "Failed to downcast state"@ && final(
                    self).data() == old(self).data(),
                Some(BlockDatum::State(s)) => final(self).data()[name@] matches BlockDatum::State(q)
                    && final(self).data().dom() == old(self).data().dom() && state_set_outcome(
                    s,
                    value,
                    q,
                    r,
                ) && forall|k: Seq<char>| k != name@ ==> #[trigger] final(self).data().get(k)
                    == old(self).data().get(k),
            },
            final(self).input_ports() == old(self).input_ports(),
            final(self).output_ports() == old(self).output_ports(),
            final(self).stream() == old(self).stream(),
            final(self).tasks() == old(self).tasks(),
            final(self).ready() == old(self).ready(),
    {
        match self.memory.take(name.as_str()) {
            None => Err(K2Error::new(K2ErrorCode::NotFound, "State not found")),
            Some(BlockDatum::Parameter(p)) => {
                self.memory.put(name.clone(), BlockDatum::Parameter(p));
                assert(self.data() =~= old(self).data());
                Err(K2Error::new(K2ErrorCode::BadFormat, "Failed to downcast state"))
            },
            Some(BlockDatum::State(s)) => {
                let mut s = s;
                let r = s.set(value);
                self.memory.put(name.clone(), BlockDatum::State(s));
                assert(self.data().dom() =~= old(self).data().dom());
                r
            },
        }
    }

    /// Gives the state named `name` its initial value, as `State::set_init`
    /// does; `NotFound` when there is none, `BadFormat` when the datum is a
    /// parameter.
    pub fn set_state_init(&mut self, name: &String, value: T) -> (r: Result<(), K2Error>)
        ensures
            match old(self).data().get(name@) {
                None => r matches Err(e) && e.code == K2ErrorCode::NotFound && e.message@
                    == "State not found"@ && final(self).data() == old(self).data(),
                Some(BlockDatum::Parameter(_)) => r matches Err(e) && e.code
                    == K2ErrorCode::BadFormat && e.message@ == "Failed to downcast state"@ && final(self).data()
                    == old(self).data(),
                Some(BlockDatum::State(s)) => final(self).data()[name@] matches BlockDatum::State(q) && r is Ok
                    && q.initial() == value && cloned(value, q.current()) && q.ready() && q.label() == s.label()
                    && final(self).data().dom() == old(self).data().dom() && forall|k: Seq<char>|
                    k != name@ ==> #[trigger] final(self).data().get(k) == old(self).data().get(k),
            },
            final(self).input_ports() == old(self).input_ports(),
            final(self).output_ports() == old(self).output_ports(),
            final(self).stream() == old(self).stream(),
            final(self).tasks() == old(self).tasks(),
            final(self).ready() == old(self).ready(),
    {
        match self.memory.take(name.as_str()) {
            None => Err(K2Error::new(K2ErrorCode::NotFound, "State not found")),
            Some(BlockDatum::Parameter(p)) => {
                self.memory.put(name.clone(), BlockDatum::Parameter(p));
                assert(self.data() =~= old(self).data());
                Err(K2Error::new(K2ErrorCode::BadFormat, "Failed to downcast state"))
            },
            Some(BlockDatum::State(s)) => {
                let mut s = s;
                let r = s.set_init(value);
                self.memory.put(name.clone(), BlockDatum::State(s));
                assert(self.data().dom() =~= old(self).data().dom());
                r
            },
        }
    }

    /// Brings the state named `name` back to its initial value, as
    /// `State::initialize` does; `NotFound` when there is none, `BadFormat`
    /// when the datum is a parameter.
    pub fn initialize_state(&mut self, name: &String) -> (r: Result<(), K2Error>)
        ensures
            match old(self).data().get(name@) {
                None => r matches Err(e) && e.code == K2ErrorCode::NotFound && e.message@
                    == "State not found"@ && final(self).data() == old(self).data(),
                Some(BlockDatum::Parameter(_)) => r matches Err(e) && e.code
                    == K2ErrorCode::BadFormat && e.message@ == "Failed to downcast state"@ && final(self).data()
                    == old(self).data(),
                Some(BlockDatum::State(s)) => final(self).data()[name@] matches BlockDatum::State(q) && r is Ok
                    && q.initialized_from(s) && final(self).data().dom() == old(self).data().dom()
                    && forall|k: Seq<char>| k != name@ ==> #[trigger] final(self).data().get(k) == old(
                    self).data().get(k),
            },
            final(self).input_ports() == old(self).input_ports(),
            final(self).output_ports() == old(self).output_ports(),
            final(self).stream() == old(self).stream(),
            final(self).tasks() == old(self).tasks(),
            final(self).ready() == old(self).ready(),
    {
        match self.memory.take(name.as_str()) {
            None => Err(K2Error::new(K2ErrorCode::NotFound, "State not found")),
            Some(BlockDatum::Parameter(p)) => {
                self.memory.put(name.clone(), BlockDatum::Parameter(p));
                assert(self.data() =~= old(self).data());
                Err(K2Error::new(K2ErrorCode::BadFormat, "Failed to downcast state"))
            },
            Some(BlockDatum::State(s)) => {
                let mut s = s;
                s.initialize();
                self.memory.put(name.clone(), BlockDatum::State(s));
                assert(self.data().dom() =~= old(self).data().dom());
                Ok(())
            },
        }
    }

    /// Sets the value of the parameter named `name`; as `set_param`.
    pub fn set_param_value(&mut self, name: &String, value: T) -> (r: Result<(), K2Error>)
        ensures
            match old(self).data().get(name@) {
                None => r matches Err(e) && e.code == K2ErrorCode::NotFound && e.message@
                    == "Parameter not found"@ && final(self).data() == old(self).data(),
                Some(BlockDatum::State(_)) => r matches Err(e) && e.code == K2ErrorCode::BadFormat
                    && e.message@ == "Failed to downcast parameter"@ && final(self).data() == old(
                    self).data(),
                Some(BlockDatum::Parameter(p)) => final(self).data()[name@] matches BlockDatum::Parameter(q)
                    && final(self).data().dom() == old(self).data().dom() && set_outcome(
                    p,
                    value,
                    q,
                    r,
                ) && forall|k: Seq<char>| k != name@ ==> #[trigger] final(self).data().get(k)
                    == old(self).data().get(k),
            },
            final(self).input_ports() == old(self).input_ports(),
            final(self).output_ports() == old(self).output_ports(),
            final(self).stream() == old(self).stream(),
            final(self).tasks() == old(self).tasks(),
            final(self).ready() == old(self).ready(),
    {
        self.set_param(name, value)
    }

    /// Sets the value of the state named `name`; as `set_state`.
    pub fn set_state_value(&mut self, name: &String, value: T) -> (r: Result<(), K2Error>)
        ensures
            match old(self).data().get(name@) {
                None => r matches Err(e) && e.code == K2ErrorCode::NotFound && e.message@
                    == "State not found"@ && final(self).data() == old(self).data(),
                Some(BlockDatum::Parameter(_)) => r matches Err(e) && e.code
                    == K2ErrorCode::BadFormat && e.message@ == "Failed to downcast state"@ && final(
                    self).data() == old(self).data(),
                Some(BlockDatum::State(s)) => final(self).data()[name@] matches BlockDatum::State(q)
                    && final(self).data().dom() == old(self).data().dom() && state_set_outcome(
                    s,
                    value,
                    q,
                    r,
                ) && forall|k: Seq<char>| k != name@ ==> #[trigger] final(self).data().get(k)
                    == old(self).data().get(k),
            },
            final(self).input_ports() == old(self).input_ports(),
            final(self).output_ports() == old(self).output_ports(),
            final(self).stream() == old(self).stream(),
            final(self).tasks() == old(self).tasks(),
            final(self).ready() == old(self).ready(),
    {
        self.set_state(name, value)
    }

    /// The current value of the parameter named `name`; the errors of
    /// `get_parameter`.
    pub fn get_param_value(&self, name: &String) -> (r: Result<&T, K2Error>)
        ensures
            match self.data().get(name@) {
                None => r matches Err(e) && e.code == K2ErrorCode::NotFound && e.message@
                    == "Parameter not found"@,
                Some(BlockDatum::State(_)) => r matches Err(e) && e.code == K2ErrorCode::BadFormat
                    && e.message@ == "Failed to downcast parameter"@,
                Some(BlockDatum::Parameter(p)) => r matches Ok(v) && *v == p.current(),
            },
    {
        match self.get_parameter(name) {
            Ok(p) => Ok(p.get()),
            Err(e) => Err(e),
        }
    }

    /// The current value of the state named `name`; the errors of
    /// `get_state`.
    pub fn get_state_value(&self, name: &String) -> (r: Result<&T, K2Error>)
        ensures
            match self.data().get(name@) {
                None => r matches Err(e) && e.code == K2ErrorCode::NotFound && e.message@
                    == "State not found"@,
                Some(BlockDatum::Parameter(_)) => r matches Err(e) && e.code
                    == K2ErrorCode::BadFormat && e.message@ == "Failed to downcast state"@,
                Some(BlockDatum::State(s)) => r matches Ok(v) && *v == s.current(),
            },
    {
        match self.get_state(name) {
            Ok(s) => Ok(s.get()),
            Err(e) => Err(e),
        }
    }

    /// Connects the output `output_name` of this block to the input
    /// `input_name` of `other_block`: `NotFound` when either is missing.
    pub fn connect(&mut self, output_name: &String, input_name: &String, other_block: &StreamBlock<T>) -> (r: Result<(), K2Error>)
        ensures
            !old(self).output_ports().contains_key(output_name@) ==> (r matches Err(e) && e.code
                == K2ErrorCode::NotFound && e.message@ == "Output not found"@),
            old(self).output_ports().contains_key(output_name@) && !other_block.input_ports().contains_key(
                input_name@,
            ) ==> (r matches Err(e) && e.code == K2ErrorCode::NotFound && e.message@
                == "Input not found"@),
            r is Err ==> final(self).output_ports() == old(self).output_ports(),
            old(self).output_ports().contains_key(output_name@) && other_block.input_ports().contains_key(
                input_name@,
            ) ==> (r is Ok && final(self).output_ports().dom() == old(self).output_ports().dom()
                && final(self).output_ports()[output_name@].connections() == old(self).output_ports()[output_name@].connections() + 1
                && final(self).output_ports()[output_name@].label() == old(self).output_ports()[output_name@].label()
                && forall|k: Seq<char>| k != output_name@ ==> #[trigger] final(self).output_ports().get(k)
                    == old(self).output_ports().get(k)),
            final(self).input_ports() == old(self).input_ports(),
            final(self).data() == old(self).data(),
            final(self).stream() == old(self).stream(),
            final(self).tasks() == old(self).tasks(),
            final(self).ready() == old(self).ready(),
            final(self).port_counts() == old(self).port_counts(),
    {
        if !self.outputs.contains_key(output_name.as_str()) {
            return Err(K2Error::new(K2ErrorCode::NotFound, "Output not found"));
        }
        let input = match other_block.inputs.get(input_name.as_str()) {
            Some(p) => p,
            None => {
                return Err(K2Error::new(K2ErrorCode::NotFound, "Input not found"));
            },
        };
        let sender = input.get_sender();
        match self.outputs.remove(output_name.as_str()) {
            Some(output) => {
                let mut output = output;
                output.connect(sender);
                self.outputs.insert(output_name.clone(), output);
                assert(self.output_ports().dom() =~= old(self).output_ports().dom());
                Ok(())
            },
            None => Err(K2Error::new(K2ErrorCode::NotFound, "Output not found")),
        }
    }

    /// Waits for the next value at the input `name`; `NotFound` when there
    /// is no such input, or when no sending end is left.
    pub fn receive_input(&self, name: &String) -> (r: Result<T, K2Error>)
        ensures
            !self.input_ports().contains_key(name@) ==> (r matches Err(e) && e.code
                == K2ErrorCode::NotFound && e.message@ == "Input not found"@),
            self.input_ports().contains_key(name@) ==> (r matches Err(e) ==> e.code == K2ErrorCode::NotFound
                && e.message@ == "Failed to receive data"@),
            r matches Err(e) ==> e.code == K2ErrorCode::NotFound,
    {
        match self.inputs.get(name.as_str()) {
            Some(p) => p.receive(),
            None => Err(K2Error::new(K2ErrorCode::NotFound, "Input not found")),
        }
    }

    /// Sends a value through the output `name` to every input connected to
    /// it; `NotFound` when there is no such output, or at an input that is
    /// gone.
    pub fn send_output(&self, name: &String, data: T) -> (r: Result<(), K2Error>)
        ensures
            !self.output_ports().contains_key(name@) ==> (r matches Err(e) && e.code
                == K2ErrorCode::NotFound && e.message@ == "Output not found"@),
            self.output_ports().contains_key(name@) && self.output_ports()[name@].connections() == 0
                ==> r is Ok,
            self.output_ports().contains_key(name@) ==> (r matches Err(e) ==> e.code == K2ErrorCode::NotFound
                && e.message@ == "Failed to send data"@),
            r matches Err(e) ==> e.code == K2ErrorCode::NotFound,
    {
        match self.outputs.get(name.as_str()) {
            Some(p) => p.send(data),
            None => Err(K2Error::new(K2ErrorCode::NotFound, "Output not found")),
        }
    }

    /// Which ports the block has: none, outputs only (`RECEIVER`), inputs
    /// only (`SENDER`), or both.
    pub fn get_processor_type(&self) -> (r: StreamType)
        ensures
            r == stream_type_of(self.port_counts().0, self.port_counts().1),
    {
        let i = self.inputs.len();
        let o = self.outputs.len();
        if i == 0 && o == 0 {
            StreamType::NONE
        } else if i == 0 {
            StreamType::RECEIVER
        } else if o == 0 {
            StreamType::SENDER
        } else {
            StreamType::BOTH
        }
    }

    /// Lets a block answer `command` in `controller`, the controller of this
    /// block's stream: the block is the one named by the command's first
    /// dotted piece, and the controller's own rules decide.
    pub fn add_command(&self, controller: &mut StreamController, registry: &ProcessorRegistry, command: String) -> (r: Result<(), K2Error>)
        ensures
            old(controller).commands().contains_key(command@) ==> (r matches Err(e) && e.code
                == K2ErrorCode::AlreadyExists && e.message@ == "Command already exists"@ && *final(controller)
                == *old(controller)),
            !old(controller).commands().contains_key(command@) && !registry.registered().contains(
                command_block(command@),
            ) ==> (r matches Err(e) && e.code == K2ErrorCode::NotFound && e.message@ == "Block does not exist"@
                && *final(controller) == *old(controller)),
            !old(controller).commands().contains_key(command@) && registry.registered().contains(
                command_block(command@),
            ) ==> (r is Ok && final(controller).commands() == old(controller).commands().insert(
                command@,
                command_block(command@),
            )),
            final(controller).mode_names() == old(controller).mode_names(),
            final(controller).stream() == old(controller).stream(),
            final(controller).current() == old(controller).current(),
    {
        let pieces = split_char(command.as_str(), '.');
        proof {
            reveal_with_fuel(split_on, 1);
        }
        assert(pieces.deep_view().len() >= 1);
        let name = pieces[0].clone();
        assert(name@ == pieces.deep_view()[0]);
        controller.add_command(registry, command, name)
    }
}

/// The block that a dotted command names: the piece before its first dot.
pub open spec fn command_block(command: Seq<char>) -> Seq<char> {
    split_on(command, '.')[0]
}

} // verus!
