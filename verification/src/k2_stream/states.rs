//! States: data that a processor sets while it runs, once they were given an
//! initial value.
use vstd::prelude::*;
use crate::k2_stream::errors::{K2Error, K2ErrorCode};
use crate::k2_stream::memory::{DataHeader, DataTrait};
use crate::text::concat3;

verus! {

/// A state of a processor.
pub struct State<T> {
    pub name: DataHeader,
    value: T,
    init: T,
    initialized: bool,
}

/// What setting `value` does to a state `s`, giving `q` and the answer `r`:
/// a state takes values once it has an initial one (`InvalidOperation`
/// before).
pub open spec fn state_set_outcome<T: Clone + Default>(s: State<T>, value: T, q: State<T>, r: Result<(), K2Error>) -> bool {
    &&& s.ready() ==> (r is Ok && q.current() == value && q.initial() == s.initial() && q.ready()
        && q.label() == s.label())
    &&& !s.ready() ==> (r matches Err(e) && e.code == K2ErrorCode::InvalidOperation && e.message@
        == "State "@ + s.label() + " not initialized"@ && q == s)
}

impl<T: Clone + Default> State<T> {
    /// The state's name.
    pub closed spec fn label(&self) -> Seq<char> {
        self.name@
    }

    /// The current value.
    pub closed spec fn current(&self) -> T {
        self.value
    }

    /// The initial value.
    pub closed spec fn initial(&self) -> T {
        self.init
    }

    /// Whether the state was given an initial value.
    pub closed spec fn ready(&self) -> bool {
        self.initialized
    }

    /// A state that waits for its initial value.
    pub fn new(name: DataHeader) -> (r: Result<Self, K2Error>)
        ensures
            r matches Ok(s) && s.label() == name@ && !s.ready(),
    {
        Ok(State { name, value: T::default(), init: T::default(), initialized: false })
    }

    /// Sets the value; `InvalidOperation` before the state has an initial
    /// value.
    pub fn set(&mut self, value: T) -> (r: Result<(), K2Error>)
        ensures
            state_set_outcome(*old(self), value, *final(self), r),
    {
        if self.initialized {
            self.value = value;
            Ok(())
        } else {
            Err(
                K2Error {
                    code: K2ErrorCode::InvalidOperation,
                    message: concat3("State ", self.name.as_str(), " not initialized"),
                },
            )
        }
    }

    /// The current value.
    pub fn get(&self) -> (r: &T)
        ensures
            *r == self.current(),
    {
        &self.value
    }

    /// Gives the state its initial value, which also becomes its current
    /// value.
    pub fn set_init(&mut self, value: T) -> (r: Result<(), K2Error>)
        ensures
            r is Ok,
            cloned(value, final(self).current()),
            final(self).initial() == value,
            final(self).ready(),
            final(self).label() == old(self).label(),
    {
        self.value = value.clone();
        self.init = value;
        self.initialized = true;
        Ok(())
    }

    /// Whether the state was given an initial value.
    pub fn is_initialized(&self) -> (r: bool)
        ensures
            r == self.ready(),
    {
        self.initialized
    }
}

impl<T: Clone + Default> DataTrait for State<T> {
    open spec fn setted(&self) -> bool {
        self.ready()
    }

    open spec fn initialized_from(&self, before: Self) -> bool {
        &&& cloned(before.initial(), self.current())
        &&& self.initial() == before.initial()
        &&& self.label() == before.label()
        &&& self.ready()
    }

    /// Goes back to the initial value.
    fn initialize(&mut self)
        ensures
            cloned(old(self).initial(), final(self).current()),
            final(self).initial() == old(self).initial(),
            final(self).label() == old(self).label(),
    {
        self.value = self.init.clone();
        self.initialized = true;
    }

    fn is_setted(&self) -> (r: bool) {
        self.initialized
    }
}

/// Setting a state never touches its initial value, so `initialize` after
/// `set_init(v)` and any later `set` gives back a clone of `v`.
pub proof fn law_state_initialize_returns_to_init<T: Clone + Default>(s1: State<T>, v: T, w: T, s2: State<T>, r: Result<(), K2Error>, s3: State<T>)
    requires
        s1.ready(),
        s1.initial() == v,
        state_set_outcome(s1, w, s2, r),
        cloned(s2.initial(), s3.current()),
    ensures
        cloned(v, s3.current()),
        r is Ok,
        s2.current() == w,
{
}

} // verus!
