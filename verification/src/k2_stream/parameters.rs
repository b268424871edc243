//! Parameters: data that a processor is configured with, optionally bounded
//! or restricted to a list of values, and set once when static.
use vstd::prelude::*;
use vstd::std_specs::cmp::{PartialEqIs, PartialOrdIs, PartialEqSpec, PartialOrdSpec};
use num_traits::{Float, PrimInt};
use crate::k2_stream::errors::{K2Error, K2ErrorCode};
use crate::k2_stream::memory::{DataHeader, DataTrait};

verus! {

/// Which bound `set_range` changes, or whether it adds an allowed value.
pub enum ParameterRangeType {
    Range,
    RangeStart,
    RangeEnd,
}

/// Whether a parameter may be set more than once.
#[derive(Debug, Clone, Copy, PartialEq, Eq, Structural)]
pub enum ParameterType {
    STATIC,
    DYNAMIC,
}

/// The kind of value a parameter holds.
#[derive(Debug, Clone, Copy, PartialEq, Eq, Structural)]
pub enum ParameterValueType {
    INTEGER,
    FLOAT,
    OTHERS,
}

impl ParameterType {
    /// The name under which the type is shown.
    pub fn to_string(&self) -> (r: String)
        ensures
            r@ == (match *self {
                ParameterType::STATIC => "STATIC"@,
                ParameterType::DYNAMIC => "DYNAMIC"@,
            }),
    {
        match self {
            ParameterType::STATIC => "STATIC".to_owned(),
            ParameterType::DYNAMIC => "DYNAMIC".to_owned(),
        }
    }
}

impl ParameterValueType {
    /// The name under which the kind is shown.
    pub fn to_string(&self) -> (r: String)
        ensures
            r@ == (match *self {
                ParameterValueType::INTEGER => "INTEGER"@,
                ParameterValueType::FLOAT => "FLOAT"@,
                ParameterValueType::OTHERS => "OTHERS"@,
            }),
    {
        match self {
            ParameterValueType::INTEGER => "INTEGER".to_owned(),
            ParameterValueType::FLOAT => "FLOAT".to_owned(),
            ParameterValueType::OTHERS => "OTHERS".to_owned(),
        }
    }
}

/// Calls `num_traits::Bounded::min_value` (a supertrait of `PrimInt`): the
/// smallest value of the integer type. The contract claims that, where the
/// type's ordering follows its specification, no value is below it.
#[verifier::external_body]
fn integer_min<T: PrimInt>() -> (r: T)
    ensures
        T::obeys_partial_cmp_spec() ==> forall|x: T| !x.is_lt(&r),
{
    T::min_value()
}

/// Calls `num_traits::Bounded::max_value`: the largest value of the integer
/// type. The contract claims that, where the type's ordering follows its
/// specification, no value is above it.
#[verifier::external_body]
fn integer_max<T: PrimInt>() -> (r: T)
    ensures
        T::obeys_partial_cmp_spec() ==> forall|x: T| !x.is_gt(&r),
{
    T::max_value()
}

/// Calls `num_traits::Float::neg_infinity`. The contract claims nothing of
/// the value.
#[verifier::external_body]
fn float_neg_infinity<T: Float>() -> T {
    T::neg_infinity()
}

/// Calls `num_traits::Float::infinity`. The contract claims nothing of the
/// value.
#[verifier::external_body]
fn float_infinity<T: Float>() -> T {
    T::infinity()
}

/// A parameter of a processor.
pub struct Parameter<T> {
    pub name: DataHeader,
    value: T,
    default: T,
    boundable: bool,
    min_value: Option<T>,
    max_value: Option<T>,
    values: Vec<T>,
    param_type: ParameterType,
    setted: bool,
}

/// Whether `v` is one of the allowed values.
pub open spec fn among<T: PartialEq>(vals: Seq<T>, v: T) -> bool {
    exists|i: int| 0 <= i < vals.len() && (#[trigger] vals[i]).is_eq(&v)
}

impl<T> Parameter<T> {
    /// The parameter's name.
    pub closed spec fn label(&self) -> Seq<char> {
        self.name@
    }

    /// The current value.
    pub closed spec fn current(&self) -> T {
        self.value
    }

    /// The default value.
    pub closed spec fn default_value(&self) -> T {
        self.default
    }

    /// Whether the parameter may have bounds.
    pub closed spec fn bounded(&self) -> bool {
        self.boundable
    }

    /// The lower bound.
    pub closed spec fn low(&self) -> Option<T> {
        self.min_value
    }

    /// The upper bound.
    pub closed spec fn high(&self) -> Option<T> {
        self.max_value
    }

    /// The allowed values; every value is allowed when there are none.
    pub closed spec fn allowed(&self) -> Seq<T> {
        self.values@
    }

    /// Whether the parameter may be set more than once.
    pub closed spec fn kind(&self) -> ParameterType {
        self.param_type
    }

    /// Whether the parameter was set.
    pub closed spec fn ready(&self) -> bool {
        self.setted
    }
}

impl<T: PrimInt + Clone> Parameter<T> {
    /// An integer parameter, bounded by the range of its type.
    pub fn integer(name: DataHeader, default: T, param_type: ParameterType) -> (r: Result<Self, K2Error>)
        ensures
            r matches Ok(p) && p.label() == name@ && cloned(default, p.current())
                && p.default_value() == default && p.bounded() && p.low() is Some
                && p.high() is Some && p.allowed() == Seq::<T>::empty() && p.kind() == param_type
                && !p.ready() && (T::obeys_partial_cmp_spec() ==> forall|x: T| #[trigger] p.accepts(x)),
    {
        let param = Parameter {
            name,
            value: default.clone(),
            default,
            boundable: true,
            min_value: Some(integer_min()),
            max_value: Some(integer_max()),
            values: Vec::new(),
            param_type,
            setted: false,
        };
        Ok(param)
    }
}

impl<T: Float + Clone> Parameter<T> {
    /// A floating-point parameter, bounded by the infinities.
    pub fn float(name: DataHeader, default: T, param_type: ParameterType) -> (r: Result<Self, K2Error>)
        ensures
            r matches Ok(p) && p.label() == name@ && cloned(default, p.current())
                && p.default_value() == default && p.bounded() && p.low() is Some
                && p.high() is Some && p.allowed() == Seq::<T>::empty() && p.kind() == param_type
                && !p.ready(),
    {
        let param = Parameter {
            name,
            value: default.clone(),
            default,
            boundable: true,
            min_value: Some(float_neg_infinity()),
            max_value: Some(float_infinity()),
            values: Vec::new(),
            param_type,
            setted: false,
        };
        Ok(param)
    }
}

/// What setting `value` does to a parameter `p`, giving `q` and the answer
/// `r`: a static parameter is set once (`InvalidOperation`); a value must be
/// allowed and within the bounds (`OutOfRange`); a refusal changes nothing.
pub open spec fn set_outcome<T: Clone + PartialOrd>(p: Parameter<T>, value: T, q: Parameter<T>, r: Result<(), K2Error>) -> bool {
    &&& p.kind() == ParameterType::STATIC && p.ready() ==> (r matches Err(e) && e.code
        == K2ErrorCode::InvalidOperation && e.message@ == "Cannot set static parameter"@)
    &&& r is Ok ==> q.current() == value && q.ready()
    &&& r is Err ==> q == p
    &&& r matches Err(e) ==> (e.code == K2ErrorCode::InvalidOperation || (e.code
        == K2ErrorCode::OutOfRange && (e.message@ == "Value is not in range"@ || e.message@
        == "Value is out of range"@)))
    &&& q.label() == p.label()
    &&& q.default_value() == p.default_value()
    &&& q.bounded() == p.bounded()
    &&& q.low() == p.low()
    &&& q.high() == p.high()
    &&& q.allowed() == p.allowed()
    &&& q.kind() == p.kind()
    &&& T::obeys_eq_spec() && T::obeys_partial_cmp_spec() && !(p.kind() == ParameterType::STATIC
        && p.ready()) ==> (r is Ok <==> p.accepts(value))
}

/// What setting a range does to a parameter `o`, giving `f` and the answer
/// `r`: an allowed value is added, or the lower or upper bound is set when
/// the parameter may have bounds and the new bound does not pass the other.
pub open spec fn range_set<T: Clone + PartialOrd>(o: Parameter<T>, value: T, rt: ParameterRangeType, f: Parameter<T>, r: Result<(), K2Error>) -> bool {
    &&& f.label() == o.label()
    &&& f.current() == o.current()
    &&& f.default_value() == o.default_value()
    &&& f.bounded() == o.bounded()
    &&& f.kind() == o.kind()
    &&& f.ready() == o.ready()
    &&& match rt {
        ParameterRangeType::Range => r is Ok && f.allowed() == o.allowed().push(
            value,
        ) && f.low() == o.low() && f.high() == o.high(),
        ParameterRangeType::RangeStart => if !o.bounded() {
            r matches Err(e) && e.code == K2ErrorCode::ErrorRange && e.message@
                == "Parameter can't have RangeStart"@ && f == o
        } else {
            &&& f.allowed() == o.allowed()
            &&& f.high() == o.high()
            &&& r is Ok ==> f.low() == Some(value)
            &&& r matches Err(e) ==> e.code == K2ErrorCode::OutOfRange && e.message@
                == "Miminum range shall be less or equal to current max range"@ && f.low() == o.low()
            &&& o.high() is None ==> r is Ok
            &&& T::obeys_partial_cmp_spec() ==> (o.high() matches Some(m) ==> (r is Ok
                <==> value.is_le(&m)))
        },
        ParameterRangeType::RangeEnd => if !o.bounded() {
            r matches Err(e) && e.code == K2ErrorCode::ErrorRange && e.message@
                == "Parameter can't have RangeEnd"@ && f == o
        } else {
            &&& f.allowed() == o.allowed()
            &&& f.low() == o.low()
            &&& r is Ok ==> f.high() == Some(value)
            &&& r matches Err(e) ==> e.code == K2ErrorCode::OutOfRange && e.message@
                == "Miminum range shall be less or equal to current max range"@ && f.high() == o.high()
            &&& o.low() is None ==> r is Ok
            &&& T::obeys_partial_cmp_spec() ==> (o.low() matches Some(m) ==> (r is Ok
                <==> value.is_ge(&m)))
        },
    }
}

/// Whether the lower bound is at or below the upper one, when the parameter
/// has both, as its type compares them either way round.
pub open spec fn bounds_in_order<T: Clone + PartialOrd>(p: Parameter<T>) -> bool {
    p.low() matches Some(a) && p.high() matches Some(b) ==> a.is_le(&b) || b.is_ge(&a)
}

/// For whole-number parameters the law needs no assumption on the ordering:
/// setting a range keeps the lower bound at or below the upper one.
pub proof fn law_set_range_keeps_integer_bounds_in_order(
    p: Parameter<i64>,
    value: i64,
    rt: ParameterRangeType,
    q: Parameter<i64>,
    r: Result<(), K2Error>,
)
    requires
        p.low() matches Some(a) && p.high() matches Some(b) ==> a <= b,
        range_set(p, value, rt, q, r),
    ensures
        q.low() matches Some(a) && q.high() matches Some(b) ==> a <= b,
{
    law_set_range_keeps_bounds_in_order(p, value, rt, q, r);
}

/// Setting a range keeps the lower bound at or below the upper one: a new
/// bound is taken only when it does not pass the other.
pub proof fn law_set_range_keeps_bounds_in_order<T: Clone + PartialOrd>(
    p: Parameter<T>,
    value: T,
    rt: ParameterRangeType,
    q: Parameter<T>,
    r: Result<(), K2Error>,
)
    requires
        T::obeys_partial_cmp_spec(),
        bounds_in_order(p),
        range_set(p, value, rt, q, r),
    ensures
        bounds_in_order(q),
{
}

impl<T: Clone + PartialOrd> Parameter<T> {
    /// A parameter without bounds.
    pub fn new(name: DataHeader, default: T, param_type: ParameterType) -> (r: Result<Self, K2Error>)
        ensures
            r matches Ok(p) && p.label() == name@ && cloned(default, p.current())
                && p.default_value() == default && !p.bounded() && p.low() is None
                && p.high() is None && p.allowed() == Seq::<T>::empty() && p.kind() == param_type
                && !p.ready(),
    {
        let param = Parameter {
            name,
            value: default.clone(),
            default,
            boundable: false,
            min_value: None,
            max_value: None,
            values: Vec::new(),
            param_type,
            setted: false,
        };
        Ok(param)
    }

    /// A parameter that may have bounds, and has none yet.
    pub fn create(name: DataHeader, default: T, param_type: ParameterType) -> (r: Result<Self, K2Error>)
        ensures
            r matches Ok(p) && p.label() == name@ && cloned(default, p.current())
                && p.default_value() == default && p.bounded() && p.low() is None
                && p.high() is None && p.allowed() == Seq::<T>::empty() && p.kind() == param_type
                && !p.ready(),
    {
        let param = Parameter {
            name,
            value: default.clone(),
            default,
            boundable: true,
            min_value: None,
            max_value: None,
            values: Vec::new(),
            param_type,
            setted: false,
        };
        Ok(param)
    }

    /// Adds an allowed value, or sets the lower or the upper bound. A bound
    /// needs a parameter that may have bounds (`ErrorRange`), and may not pass
    /// the other bound (`OutOfRange`).
    pub fn set_range(&mut self, value: T, range_type: ParameterRangeType) -> (r: Result<(), K2Error>)
        ensures
            range_set(*old(self), value, range_type, *final(self), r),
    {
        match range_type {
            ParameterRangeType::Range => {
                self.values.push(value);
            },
            ParameterRangeType::RangeStart => {
                if !self.boundable {
                    return Err(K2Error::new(K2ErrorCode::ErrorRange, "Parameter can't have RangeStart"));
                }
                let fits = match &self.max_value {
                    Some(max_value) => value <= *max_value,
                    None => true,
                };
                if fits {
                    self.min_value = Some(value);
                } else {
                    return Err(
                        K2Error::new(
                            K2ErrorCode::OutOfRange,
                            "Miminum range shall be less or equal to current max range",
                        ),
                    );
                }
            },
            ParameterRangeType::RangeEnd => {
                if !self.boundable {
                    return Err(K2Error::new(K2ErrorCode::ErrorRange, "Parameter can't have RangeEnd"));
                }
                let fits = match &self.min_value {
                    Some(min_value) => value >= *min_value,
                    None => true,
                };
                if fits {
                    self.max_value = Some(value);
                } else {
                    return Err(
                        K2Error::new(
                            K2ErrorCode::OutOfRange,
                            "Miminum range shall be less or equal to current max range",
                        ),
                    );
                }
            },
        }
        Ok(())
    }

    /// Whether `value` is one of the allowed values.
    fn is_allowed(&self, value: &T) -> (r: bool)
        ensures
            T::obeys_eq_spec() ==> (r <==> among(self.allowed(), *value)),
    {
        let mut i: usize = 0;
        while i < self.values.len()
            invariant
                i <= self.values@.len(),
                T::obeys_eq_spec() ==> forall|j: int| 0 <= j < i ==> !(#[trigger] self.values@[j]).is_eq(value),
            decreases self.values@.len() - i,
        {
            if self.values[i] == *value {
                return true;
            }
            i = i + 1;
        }
        false
    }
    /// Whether a value may be set: it is allowed, and within the bounds.
    pub open spec fn accepts(&self, v: T) -> bool {
        &&& (self.allowed().len() == 0 || among(self.allowed(), v))
        &&& (self.low() matches Some(m) ==> !v.is_lt(&m))
        &&& (self.high() matches Some(m) ==> !v.is_gt(&m))
    }

    /// Sets the value. A static parameter is set once (`InvalidOperation`);
    /// a value must be allowed and within the bounds (`OutOfRange`).
    pub fn set(&mut self, value: T) -> (r: Result<(), K2Error>)
        ensures
            set_outcome(*old(self), value, *final(self), r),
    {
        if self.param_type == ParameterType::STATIC && self.setted {
            return Err(K2Error::new(K2ErrorCode::InvalidOperation, "Cannot set static parameter"));
        }
        if self.values.len() > 0 {
            if !self.is_allowed(&value) {
                return Err(K2Error::new(K2ErrorCode::OutOfRange, "Value is not in range"));
            }
        }
        let below = match &self.min_value {
            Some(min_value) => value < *min_value,
            None => false,
        };
        if below {
            return Err(K2Error::new(K2ErrorCode::OutOfRange, "Value is out of range"));
        }
        let above = match &self.max_value {
            Some(max_value) => value > *max_value,
            None => false,
        };
        if above {
            return Err(K2Error::new(K2ErrorCode::OutOfRange, "Value is out of range"));
        }
        self.value = value;
        self.setted = true;
        Ok(())
    }

    /// The current value.
    pub fn get(&self) -> (r: &T)
        ensures
            *r == self.current(),
    {
        &self.value
    }

    /// The current value, to change in place: the change bypasses the
    /// bounds, the allowed values and the static rule, and the parameter
    /// keeps the rest.
    pub fn get_mut(&mut self) -> (r: &mut T)
        ensures
            *r == old(self).current(),
            final(self).current() == *final(r),
            final(self).label() == old(self).label(),
            final(self).default_value() == old(self).default_value(),
            final(self).bounded() == old(self).bounded(),
            final(self).low() == old(self).low(),
            final(self).high() == old(self).high(),
            final(self).allowed() == old(self).allowed(),
            final(self).kind() == old(self).kind(),
            final(self).ready() == old(self).ready(),
    {
        &mut self.value
    }

    /// Goes back to the default value, and counts as set.
    pub fn default(&mut self)
        ensures
            cloned(old(self).default_value(), final(self).current()),
            final(self).ready(),
            final(self).label() == old(self).label(),
            final(self).default_value() == old(self).default_value(),
            final(self).bounded() == old(self).bounded(),
            final(self).low() == old(self).low(),
            final(self).high() == old(self).high(),
            final(self).allowed() == old(self).allowed(),
            final(self).kind() == old(self).kind(),
    {
        self.value = self.default.clone();
        self.setted = true;
    }

    /// Whether the current value equals the default one.
    pub fn is_default(&self) -> (r: bool)
        ensures
            T::obeys_eq_spec() ==> r == self.current().is_eq(&self.default_value()),
    {
        self.value == self.default
    }
}

impl<T: Clone> DataTrait for Parameter<T> {
    open spec fn setted(&self) -> bool {
        self.ready()
    }

    open spec fn initialized_from(&self, before: Self) -> bool {
        &&& cloned(before.default_value(), self.current())
        &&& self.label() == before.label()
        &&& self.default_value() == before.default_value()
        &&& self.bounded() == before.bounded()
        &&& self.low() == before.low()
        &&& self.high() == before.high()
        &&& self.allowed() == before.allowed()
        &&& self.kind() == before.kind()
        &&& self.ready()
    }

    /// Takes the default value.
    fn initialize(&mut self)
        ensures
            cloned(old(self).default_value(), final(self).current()),
            final(self).label() == old(self).label(),
            final(self).default_value() == old(self).default_value(),
            final(self).bounded() == old(self).bounded(),
            final(self).low() == old(self).low(),
            final(self).high() == old(self).high(),
            final(self).allowed() == old(self).allowed(),
            final(self).kind() == old(self).kind(),
    {
        self.value = self.default.clone();
        self.setted = true;
    }

    fn is_setted(&self) -> (r: bool) {
        self.setted
    }
}

/// A static parameter takes one value: once a `set` succeeded, every later
/// `set` is refused with `InvalidOperation` and changes nothing.
pub proof fn law_static_parameter_set_once<T: Clone + PartialOrd>(p: Parameter<T>, v: T, q: Parameter<T>, r: Result<(), K2Error>, w: T, q2: Parameter<T>, r2: Result<(), K2Error>)
    requires
        p.kind() == ParameterType::STATIC,
        set_outcome(p, v, q, r),
        r is Ok,
        set_outcome(q, w, q2, r2),
    ensures
        r2 matches Err(e) && e.code == K2ErrorCode::InvalidOperation,
        q2 == q,
        q.current() == v,
{
}

/// A value that `set` took is allowed and within the bounds, and the bounds
/// and allowed values stay as they were, so the parameter's value is one it
/// accepts.
pub proof fn law_set_value_is_accepted<T: Clone + PartialOrd>(p: Parameter<T>, v: T, q: Parameter<T>, r: Result<(), K2Error>)
    requires
        T::obeys_eq_spec(),
        T::obeys_partial_cmp_spec(),
        set_outcome(p, v, q, r),
        r is Ok,
    ensures
        p.accepts(v),
        q.accepts(q.current()),
{
}

} // verus!