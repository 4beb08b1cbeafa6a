//! A single in-memory event stream.
use vstd::prelude::*;
use crate::okazis::{AppendError, Never, Precondition};

verus! {

/// Where to start reading a stream.
#[derive(Debug, Clone, Copy, Hash, PartialEq, Eq, Structural)]
pub enum Since {
    BeginningOfStream,
    /// Every event after this offset.
    Offset(usize),
}

/// An event as read back from a stream, with its offset (0 for the first).
#[derive(Debug, Clone, Copy, Hash, PartialEq)]
pub struct PersistedEvent<Offset, Event, Metadata> {
    pub offset: Offset,
    pub payload: Event,
    pub metadata: Metadata,
}

/// Why a read failed.
#[derive(Debug, Clone, Copy, Hash, PartialEq, Eq, Structural)]
pub enum ReadError {
    /// The offset to read after is not that of an event in the stream.
    ReadPastEndOfStream,
}

/// The events a read after offset `start - 1` gives back: those from `start`
/// on, each with its offset.
pub open spec fn read_out<Event>(events: Seq<Event>, start: int) -> Seq<PersistedEvent<usize, Event, ()>> {
    Seq::new(
        (events.len() - start) as nat,
        |i: int| PersistedEvent { offset: (start + i) as usize, payload: events[start + i], metadata: () },
    )
}

/// What reading `events` since `since` gives back.
pub open spec fn read_spec<Event>(events: Seq<Event>, since: Since) -> Result<
    Seq<PersistedEvent<usize, Event, ()>>,
    ReadError,
> {
    match since {
        Since::BeginningOfStream => Ok(read_out(events, 0)),
        Since::Offset(o) => if o < events.len() {
            Ok(read_out(events, o + 1))
        } else {
            Err(ReadError::ReadPastEndOfStream)
        },
    }
}

/// Whether `condition` allows appending to a stream holding `events`.
pub open spec fn allows<Event>(events: Seq<Event>, condition: Precondition) -> bool {
    match condition {
        Precondition::Always => true,
        Precondition::LastVersion(v) => events.len() > 0 && events.len() - 1 == v.0,
        Precondition::EmptyStream => events.len() == 0,
        Precondition::NewStream => false,
    }
}

/// A stream of events that can be appended to and read back.
pub trait EventStream: Sized {
    type Event;

    /// The events in the stream, oldest first.
    spec fn events(&self) -> Seq<Self::Event>;

    fn append_events(&mut self, events: Vec<Self::Event>)
        ensures
            final(self).events() == old(self).events() + events@,
    ;

    fn read(&self, since: Since) -> (r: Result<Vec<PersistedEvent<usize, Self::Event, ()>>, ReadError>)
        ensures
            match (r, read_spec(self.events(), since)) {
                (Ok(v), Ok(s)) => v@ == s,
                (Err(e1), Err(e2)) => e1 == e2,
                _ => false,
            },
    ;
}

/// An event stream held in memory.
#[derive(Debug)]
pub struct MemoryEventStream<Event> {
    events: Vec<Event>,
}

impl<Event> View for MemoryEventStream<Event> {
    type V = Seq<Event>;

    closed spec fn view(&self) -> Seq<Event> {
        self.events@
    }
}

impl<Event: Copy> Clone for MemoryEventStream<Event> {
    fn clone(&self) -> (s: Self)
        ensures
            s@ == self@,
    {
        MemoryEventStream { events: copy_all(self.events.as_slice()) }
    }
}

impl<Event> Default for MemoryEventStream<Event> {
    fn default() -> (s: Self)
        ensures
            s@ == Seq::<Event>::empty(),
    {
        MemoryEventStream { events: Vec::new() }
    }
}

/// A copy of every element of `s`, in order.
pub fn copy_all<T: Copy>(s: &[T]) -> (v: Vec<T>)
    ensures
        v@ == s@,
{
    let mut v: Vec<T> = Vec::new();
    let mut i: usize = 0;
    while i < s.len()
        invariant
            i <= s.len(),
            v@ == s@.take(i as int),
        decreases s.len() - i,
    {
        v.push(s[i]);
        i += 1;
        assert(v@ =~= s@.take(i as int));
    }
    assert(s@.take(s.len() as int) =~= s@);
    v
}

impl<Event: Copy> MemoryEventStream<Event> {
    /// An empty stream.
    pub fn new() -> (s: Self)
        ensures
            s@ == Seq::<Event>::empty(),
    {
        MemoryEventStream { events: Vec::new() }
    }

    /// Appends `events` when `condition` allows it for the stream as it is;
    /// otherwise leaves the stream unchanged and reports the condition.
    pub fn append_events(&mut self, events: &[Event], condition: Precondition) -> (r: Result<
        (),
        AppendError<Never>,
    >)
        ensures
            allows(old(self)@, condition) ==> r == Ok::<(), AppendError<Never>>(()) && final(self)@
                == old(self)@ + events@,
            !allows(old(self)@, condition) ==> r == Err::<(), AppendError<Never>>(
                AppendError::PreconditionFailed(condition),
            ) && final(self)@ == old(self)@,
    {
        let ok = match condition {
            Precondition::Always => true,
            Precondition::LastVersion(i) => self.events.len() > 0 && self.events.len() - 1
                == i.0,
            Precondition::EmptyStream => self.events.len() == 0,
            Precondition::NewStream => false,
        };
        if !ok {
            return Err(AppendError::PreconditionFailed(condition));
        }
        let mut i: usize = 0;
        let ghost before = self.events@;
        while i < events.len()
            invariant
                i <= events.len(),
                self.events@ == before + events@.take(i as int),
            decreases events.len() - i,
        {
            self.events.push(events[i]);
            i += 1;
            assert(self.events@ =~= before + events@.take(i as int));
        }
        assert(events@.take(events.len() as int) =~= events@);
        Ok(())
    }

    /// The events after `since`, each with its offset; an error when the
    /// offset is not that of an event in the stream.
    pub fn read(&self, since: Since) -> (r: Result<Vec<PersistedEvent<usize, Event, ()>>, ReadError>)
        ensures
            match (r, read_spec(self@, since)) {
                (Ok(v), Ok(s)) => v@ == s,
                (Err(e1), Err(e2)) => e1 == e2,
                _ => false,
            },
    {
        match since {
            Since::BeginningOfStream => Ok(self.read_out_events(0)),
            Since::Offset(o) => {
                if o < self.events.len() {
                    Ok(self.read_out_events(o + 1))
                } else {
                    Err(ReadError::ReadPastEndOfStream)
                }
            },
        }
    }

    fn read_out_events(&self, initial: usize) -> (v: Vec<PersistedEvent<usize, Event, ()>>)
        requires
            initial <= self@.len(),
        ensures
            v@ == read_out(self@, initial as int),
    {
        let mut v: Vec<PersistedEvent<usize, Event, ()>> = Vec::new();
        let mut i: usize = initial;
        while i < self.events.len()
            invariant
                initial <= i <= self.events.len(),
                v@ == read_out(self@, initial as int).take(i - initial),
            decreases self.events.len() - i,
        {
            v.push(PersistedEvent { offset: i, payload: self.events[i], metadata: () });
            i += 1;
            assert(v@ =~= read_out(self@, initial as int).take(i - initial));
        }
        assert(read_out(self@, initial as int).take(i - initial) =~= read_out(
            self@,
            initial as int,
        ));
        v
    }
}

impl<Event: Copy> EventStream for MemoryEventStream<Event> {
    type Event = Event;

    open spec fn events(&self) -> Seq<Event> {
        self@
    }

    fn append_events(&mut self, events: Vec<Event>) {
        let r = MemoryEventStream::append_events(self, events.as_slice(), Precondition::Always);
    }

    fn read(&self, since: Since) -> (r: Result<Vec<PersistedEvent<usize, Event, ()>>, ReadError>) {
        MemoryEventStream::read(self, since)
    }
}

/// Reading a stream after the offset of the last event it held before an
/// append gives back exactly the appended events, each with its offset;
/// reading after the offset of its last event gives back nothing, and
/// reading after a later offset fails.
pub proof fn law_read_after_append<Event>(before: Seq<Event>, appended: Seq<Event>)
    requires
        0 < before.len(),
        before.len() + appended.len() <= usize::MAX,
    ensures
        read_spec(before + appended, Since::Offset((before.len() - 1) as usize)) matches Ok(out) && out.map_values(
            |p: PersistedEvent<usize, Event, ()>| p.payload,
        ) == appended && (forall|i: int| 0 <= i < out.len() ==> #[trigger] out[i].offset == before.len() + i),
        read_spec(before + appended, Since::Offset((before.len() + appended.len() - 1) as usize)) matches Ok(
            out,
        ) && out.len() == 0,
        forall|o: usize|
            before.len() + appended.len() <= o ==> #[trigger] read_spec(before + appended, Since::Offset(o))
                == Err::<Seq<PersistedEvent<usize, Event, ()>>, ReadError>(ReadError::ReadPastEndOfStream),
{
    let all = before + appended;
    let out = read_out(all, before.len() as int);
    assert(out.map_values(|p: PersistedEvent<usize, Event, ()>| p.payload) =~= appended);
}

} // verus!
