//! Event numbers, aggregate versions and the preconditions that guard appends.
use vstd::prelude::*;

verus! {

/// The number of an event in an aggregate's stream; the first event is number 1.
#[derive(Debug, Clone, Copy, Hash, PartialEq, Eq, PartialOrd, Ord, Structural)]
pub struct EventNumber(usize);

impl EventNumber {
    #[verifier::type_invariant]
    spec fn is_positive(self) -> bool {
        self.0 >= 1
    }

    /// The number as a mathematical integer.
    pub closed spec fn value(self) -> nat {
        self.0 as nat
    }

    /// The event number whose value is `n` (meaningful for `1 <= n <= usize::MAX`).
    pub closed spec fn from_value(n: nat) -> EventNumber {
        EventNumber(n as usize)
    }

    /// `from_value` gives back the number it was given, and every event
    /// number is `from_value` of its value.
    pub proof fn lemma_from_value(n: nat, en: EventNumber)
        ensures
            1 <= n <= usize::MAX ==> Self::from_value(n).value() == n,
            Self::from_value(en.value()) == en,
    {
    }

    /// Two event numbers are equal exactly when their values are.
    pub proof fn lemma_value_injective(self, other: EventNumber)
        ensures
            self.value() == other.value() <==> self == other,
    {
    }

    /// The number of the first event of a stream.
    pub fn min_value() -> (n: EventNumber)
        ensures
            n.value() == 1,
            n == Self::from_value(1),
    {
        EventNumber(1)
    }

    /// `Some` number `x`, or `None` when `x` is 0.
    pub fn new(x: usize) -> (r: Option<Self>)
        ensures
            x == 0 <==> r is None,
            r matches Some(n) ==> n.value() == x && n == Self::from_value(x as nat),
    {
        if x == 0 {
            None
        } else {
            Some(EventNumber(x))
        }
    }

    /// The number as a `usize`.
    pub fn get(self) -> (x: usize)
        ensures
            x == self.value(),
            x >= 1,
    {
        proof {
            use_type_invariant(self);
        }
        self.0
    }

    /// The next event number.
    pub fn incr(self) -> (n: Self)
        requires
            self.value() < usize::MAX,
        ensures
            n.value() == self.value() + 1,
            n == Self::from_value(self.value() + 1),
    {
        proof {
            use_type_invariant(self);
        }
        EventNumber(self.0 + 1)
    }
}

/// The version of an aggregate: the number of the last event applied to it,
/// or `Initial` when none has been.
#[derive(Debug, Clone, Copy, Hash, PartialEq, Eq, PartialOrd, Ord, Structural)]
pub enum Version {
    Initial,
    Number(EventNumber),
}

impl Version {
    /// Whether the version names a positive event number, as every version
    /// built by this crate does.
    pub open spec fn is_valid(self) -> bool {
        match self {
            Version::Initial => true,
            Version::Number(n) => n.value() >= 1,
        }
    }

    /// The version as a count of events: 0 for `Initial`.
    pub open spec fn value(self) -> nat {
        match self {
            Version::Initial => 0,
            Version::Number(n) => n.value(),
        }
    }

    /// The version that counts `n` events.
    pub open spec fn of_count(n: nat) -> Version {
        if n == 0 {
            Version::Initial
        } else {
            Version::Number(EventNumber::from_value(n))
        }
    }

    /// `of_count(n)` counts `n` events, for every `n` a `usize` can hold.
    pub proof fn lemma_of_count(n: nat)
        requires
            n <= usize::MAX,
        ensures
            Self::of_count(n).value() == n,
            Self::of_count(n).is_valid(),
    {
        if n > 0 {
            EventNumber::lemma_from_value(n, EventNumber::from_value(n));
        }
    }

    /// The version whose count of events is `number`.
    pub fn new(number: usize) -> (v: Self)
        ensures
            v == Self::of_count(number as nat),
            v.value() == number,
            v.is_valid(),
            number == 0 <==> v is Initial,
    {
        match EventNumber::new(number) {
            Some(n) => Version::Number(n),
            None => Version::Initial,
        }
    }

    /// The version after one more event.
    pub fn incr(self) -> (v: Self)
        requires
            self.value() < usize::MAX,
        ensures
            v.value() == self.value() + 1,
            v == Self::of_count(self.value() + 1),
            v.is_valid(),
            v is Number,
    {
        match self {
            Version::Initial => Version::Number(EventNumber::min_value()),
            Version::Number(en) => Version::Number(en.incr()),
        }
    }

    /// Where a read resumes to catch up from this version.
    pub open spec fn since(self) -> Since {
        match self {
            Version::Initial => Since::BeginningOfStream,
            Version::Number(n) => Since::Event(n),
        }
    }

    /// Where a read resumes to catch up from this version.
    pub fn to_since(self) -> (s: Since)
        ensures
            s == self.since(),
    {
        match self {
            Version::Initial => Since::BeginningOfStream,
            Version::Number(n) => Since::Event(n),
        }
    }

    /// The count of events as a `usize`.
    pub fn get(self) -> (x: usize)
        ensures
            x == self.value(),
    {
        match self {
            Version::Initial => 0,
            Version::Number(en) => en.get(),
        }
    }

    /// The number of the last applied event, if any.
    pub fn event_number(self) -> (r: Option<EventNumber>)
        ensures
            r == (match self {
                Version::Initial => None,
                Version::Number(en) => Some(en),
            }),
    {
        match self {
            Version::Initial => None,
            Version::Number(en) => Some(en),
        }
    }

    /// The signed difference of two versions' event counts.
    pub fn sub(self, rhs: Version) -> (d: isize)
        requires
            self.value() <= isize::MAX,
            rhs.value() <= isize::MAX,
        ensures
            d == self.value() - rhs.value(),
    {
        let l: isize = match self {
            Version::Initial => 0,
            Version::Number(n) => n.get() as isize,
        };
        let r: isize = match rhs {
            Version::Initial => 0,
            Version::Number(n) => n.get() as isize,
        };
        l - r
    }
}

/// Two well-formed versions are equal exactly when they count the same number
/// of events.
pub proof fn lemma_version_value_injective(a: Version, b: Version)
    requires
        a.is_valid(),
        b.is_valid(),
    ensures
        a.value() == b.value() <==> a == b,
{
}

impl Default for Version {
    fn default() -> (v: Self)
        ensures
            v == Version::Initial,
    {
        Version::Initial
    }
}

impl From<EventNumber> for Version {
    fn from(event_number: EventNumber) -> (v: Self) {
        Version::Number(event_number)
    }
}

impl vstd::std_specs::convert::FromSpecImpl<EventNumber> for Version {
    open spec fn obeys_from_spec() -> bool {
        true
    }

    open spec fn from_spec(v: EventNumber) -> Self {
        Version::Number(v)
    }
}

/// A condition on the current version of an aggregate that must hold for a
/// write to proceed.
#[derive(Debug, Clone, Copy, Hash, PartialEq, Eq, Structural)]
pub enum Precondition {
    /// The aggregate must not exist yet.
    New,
    /// The aggregate must exist.
    Exists,
    /// The aggregate must exist with exactly this version.
    ExpectedVersion(Version),
}

impl Precondition {
    /// Whether the precondition holds of an aggregate whose current version is
    /// `version_opt` (`None` when it does not exist).
    pub open spec fn holds(self, version_opt: Option<Version>) -> bool {
        match self {
            Precondition::New => version_opt is None,
            Precondition::Exists => version_opt is Some,
            Precondition::ExpectedVersion(v) => version_opt == Some(v),
        }
    }

    /// `Ok(())` when the precondition holds of `version_opt`, else itself as the error.
    pub fn verify(&self, version_opt: Option<Version>) -> (r: Result<(), Self>)
        ensures
            self.holds(version_opt) <==> r is Ok,
            r matches Err(p) ==> p == *self,
    {
        match *self {
            Precondition::Exists => {
                if version_opt.is_some() {
                    Ok(())
                } else {
                    Err(*self)
                }
            },
            Precondition::New => {
                if version_opt.is_none() {
                    Ok(())
                } else {
                    Err(*self)
                }
            },
            Precondition::ExpectedVersion(expected_version) => {
                match version_opt {
                    Some(version) => {
                        if version == expected_version {
                            Ok(())
                        } else {
                            Err(*self)
                        }
                    },
                    None => Err(*self),
                }
            },
        }
    }
}

impl From<Version> for Precondition {
    fn from(v: Version) -> (p: Self) {
        Precondition::ExpectedVersion(v)
    }
}

impl vstd::std_specs::convert::FromSpecImpl<Version> for Precondition {
    open spec fn obeys_from_spec() -> bool {
        true
    }

    open spec fn from_spec(v: Version) -> Self {
        Precondition::ExpectedVersion(v)
    }
}

/// Where to start reading a stream.
#[derive(Debug, Clone, Copy, Hash, PartialEq, Eq, Structural)]
pub enum Since {
    BeginningOfStream,
    /// Every event after this one.
    Event(EventNumber),
}

/// The identifier of an aggregate instance, as a string.
pub trait AggregateId<A> {
    /// The identifier's characters.
    spec fn id(&self) -> Seq<char>;

    fn as_str(&self) -> (s: &str)
        ensures
            s@ == self.id(),
    ;
}

/// An event together with its number in the stream.
#[derive(Debug, Copy, Clone, Hash, PartialEq, Eq)]
pub struct SequencedEvent<Event> {
    pub sequence_number: EventNumber,
    pub event: Event,
}

/// A snapshot of some state together with the version it was taken at.
#[derive(Debug, Copy, Clone, Hash, PartialEq, Eq)]
pub struct StateSnapshot<State> {
    pub version: Version,
    pub snapshot: State,
}

} // verus!
