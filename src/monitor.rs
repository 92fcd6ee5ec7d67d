use vstd::prelude::*;

use crate::keyed::{
    holds_key, key_index, keys_unique, lemma_key_index_unique, lemma_with_entry, list_of,
    with_appended, with_entry,
};
use crate::schedule::PollingSchedule;

verus! {

/// A significant outcome of one poll, to be reacted to with actions.
/// Events are compared by value.
pub trait Event: Sized {
    /// Whether `self` and `other` are the same event.
    fn same_event(&self, other: &Self) -> (r: bool)
        ensures
            r == (*self == *other),
    ;
}

impl Event for u64 {
    fn same_event(&self, other: &u64) -> (r: bool) {
        *self == *other
    }
}

impl Event for u32 {
    fn same_event(&self, other: &u32) -> (r: bool) {
        *self == *other
    }
}

impl Event for usize {
    fn same_event(&self, other: &usize) -> (r: bool) {
        *self == *other
    }
}

impl Event for i64 {
    fn same_event(&self, other: &i64) -> (r: bool) {
        *self == *other
    }
}

impl Event for bool {
    fn same_event(&self, other: &bool) -> (r: bool) {
        *self == *other
    }
}

impl Event for char {
    fn same_event(&self, other: &char) -> (r: bool) {
        *self == *other
    }
}

/// Why a poll or an action failed.
pub struct Failure {
    pub message: String,
}

/// A poll operation supplied by the caller: it samples something and
/// classifies the sample as an event, or fails.
pub trait PollingFuncInternal<E> {
    fn poll(&self) -> Result<E, Failure>;
}

/// A side-effecting reaction supplied by the caller; it may fail.
pub trait ActionFuncInternal {
    fn act(&self) -> Result<(), Failure>;
}

/// The poll function registered for one schedule.
pub struct PollingFunc<P> {
    pub func: P,
}

impl<P> PollingFunc<P> {
    pub fn new(func: P) -> (r: Self)
        ensures
            r.func == func,
    {
        PollingFunc { func }
    }
}

/// One action registered for an event.
pub struct ActionFunc<A> {
    pub func: A,
}

impl<A> ActionFunc<A> {
    pub fn new(func: A) -> (r: Self)
        ensures
            r.func == func,
    {
        ActionFunc { func }
    }
}

/// The mapping from each event to the ordered list of its actions.
/// Registration order is execution order.
pub struct DispatchTable<E: Event, A> {
    entries: Vec<(E, Vec<ActionFunc<A>>)>,
}

impl<E: Event, A> View for DispatchTable<E, A> {
    type V = Seq<(E, Seq<ActionFunc<A>>)>;

    closed spec fn view(&self) -> Seq<(E, Seq<ActionFunc<A>>)> {
        self.entries@.map_values(|p: (E, Vec<ActionFunc<A>>)| (p.0, p.1@))
    }
}

impl<E: Event, A> DispatchTable<E, A> {
    /// Each event has at most one entry.
    pub closed spec fn wf(&self) -> bool {
        keys_unique(self@)
    }

    /// An empty table.
    pub fn new() -> (r: Self)
        ensures
            r.wf(),
            r@ == Seq::<(E, Seq<ActionFunc<A>>)>::empty(),
    {
        let r = DispatchTable { entries: Vec::new() };
        assert(r@ =~= Seq::<(E, Seq<ActionFunc<A>>)>::empty());
        r
    }

    /// The number of events that have actions.
    pub fn len(&self) -> (r: usize)
        ensures
            r == self@.len(),
    {
        self.entries.len()
    }

    /// The position of `event`'s entry, if it has one.
    fn find(&self, event: &E) -> (r: Option<usize>)
        requires
            self.wf(),
        ensures
            match r {
                Some(i) => i < self@.len() && self@[i as int].0 == *event && key_index(self@, *event)
                    == i,
                None => !holds_key(self@, *event),
            },
    {
        let mut i: usize = 0;
        while i < self.entries.len()
            invariant
                i <= self.entries.len(),
                self@.len() == self.entries.len(),
                keys_unique(self@),
                forall|j: int| 0 <= j < i ==> self@[j].0 != *event,
            decreases self.entries.len() - i,
        {
            if self.entries[i].0.same_event(event) {
                proof {
                    lemma_key_index_unique(self@, *event, i as int);
                }
                return Some(i);
            }
            i = i + 1;
        }
        None
    }

    /// The actions registered for `event`, in registration order, or `None`
    /// when it has none.
    pub fn actions_for(&self, event: &E) -> (r: Option<&Vec<ActionFunc<A>>>)
        requires
            self.wf(),
        ensures
            match r {
                Some(v) => holds_key(self@, *event) && v@ == list_of(self@, *event),
                None => !holds_key(self@, *event) && list_of(self@, *event).len() == 0,
            },
    {
        match self.find(event) {
            Some(i) => Some(&self.entries[i].1),
            None => None,
        }
    }

    /// Appends `action` to the list of `event`.
    pub fn push_action(&mut self, event: E, action: ActionFunc<A>)
        requires
            old(self).wf(),
        ensures
            final(self).wf(),
            final(self)@ == with_appended(old(self)@, event, action),
    {
        proof {
            lemma_with_entry(self@, event, list_of(self@, event).push(action));
        }
        let ghost before = self@;
        match self.find(&event) {
            Some(i) => {
                let (stored, mut actions) = self.entries.remove(i);
                actions.push(action);
                self.entries.insert(i, (stored, actions));
                assert(self@ =~= with_appended(before, event, action));
            },
            None => {
                let mut actions = Vec::new();
                actions.push(action);
                self.entries.push((event, actions));
                assert(self@ =~= with_appended(before, event, action));
            },
        }
    }
}

/// One poll loop as it is handed over at start: its schedule and its poll function.
pub struct PollerLoop<P> {
    pub schedule: PollingSchedule,
    pub polling_func: PollingFunc<P>,
}

/// A builder of schedules with their poll functions and of the dispatch table.
/// Starting it hands out one poll loop per schedule, sharing the table.
pub struct PollingMonitor<E: Event, P, A> {
    polling_schedule: Vec<(PollingSchedule, PollingFunc<P>)>,
    event_to_actions: DispatchTable<E, A>,
}

impl<E: Event, P, A> PollingMonitor<E, P, A> {
    /// Each schedule has at most one entry, and the table is well formed.
    pub closed spec fn wf(&self) -> bool {
        keys_unique(self.polls()) && self.event_to_actions.wf()
    }

    /// The registered schedules with their poll functions, in order of first registration.
    pub closed spec fn polls(&self) -> Seq<(PollingSchedule, PollingFunc<P>)> {
        self.polling_schedule@
    }

    /// The dispatch table built so far.
    pub closed spec fn dispatch(&self) -> Seq<(E, Seq<ActionFunc<A>>)> {
        self.event_to_actions@
    }

    /// A monitor with no schedules and no actions.
    pub fn new() -> (r: Self)
        ensures
            r.wf(),
            r.polls() == Seq::<(PollingSchedule, PollingFunc<P>)>::empty(),
            r.dispatch() == Seq::<(E, Seq<ActionFunc<A>>)>::empty(),
    {
        PollingMonitor { polling_schedule: Vec::new(), event_to_actions: DispatchTable::new() }
    }

    /// Associates `polling_func` with `schedule`. A schedule that is already
    /// registered keeps its place and gets the new poll function: the last
    /// registration wins.
    pub fn schedule_polling(
        &mut self,
        schedule: PollingSchedule,
        polling_func: PollingFunc<P>,
    ) -> (r: &mut Self)
        requires
            old(self).wf(),
        ensures
            r.wf(),
            r.polls() == with_entry(old(self).polls(), schedule, polling_func),
            r.dispatch() == old(self).dispatch(),
            *final(self) == *final(r),
    {
        proof {
            lemma_with_entry(self.polls(), schedule, polling_func);
        }
        let ghost before = self.polls();
        let mut i: usize = 0;
        while i < self.polling_schedule.len()
            invariant
                i <= self.polling_schedule.len(),
                self.polling_schedule@ == before,
                self.event_to_actions == old(self).event_to_actions,
                old(self).wf(),
                before == old(self).polls(),
                keys_unique(before),
                forall|j: int| 0 <= j < i ==> before[j].0 != schedule,
            decreases self.polling_schedule.len() - i,
        {
            if self.polling_schedule[i].0 == schedule {
                proof {
                    lemma_key_index_unique(before, schedule, i as int);
                }
                self.polling_schedule.set(i, (schedule, polling_func));
                assert(self.polls() =~= with_entry(before, schedule, polling_func));
                return self;
            }
            i = i + 1;
        }
        self.polling_schedule.push((schedule, polling_func));
        assert(self.polls() =~= with_entry(before, schedule, polling_func));
        self
    }

    /// Appends `action` to the actions of `event`; several actions per event
    /// run in registration order.
    pub fn register_action(&mut self, event: E, action: ActionFunc<A>) -> (r: &mut Self)
        requires
            old(self).wf(),
        ensures
            r.wf(),
            r.dispatch() == with_appended(old(self).dispatch(), event, action),
            r.polls() == old(self).polls(),
            *final(self) == *final(r),
    {
        self.event_to_actions.push_action(event, action);
        self
    }

    /// Consumes the monitor: one poll loop per registered schedule, in
    /// registration order, and the frozen dispatch table they share.
    pub fn into_parts(self) -> (r: (Vec<PollerLoop<P>>, DispatchTable<E, A>))
        requires
            self.wf(),
        ensures
            r.1.wf(),
            r.0@.len() == self.polls().len(),
            forall|i: int|
                0 <= i < r.0@.len() ==> (#[trigger] r.0@[i]).schedule == self.polls()[i].0
                    && r.0@[i].polling_func == self.polls()[i].1,
            r.1@ == self.dispatch(),
    {
        let PollingMonitor { polling_schedule, event_to_actions } = self;
        let ghost polls = polling_schedule@;
        let mut loops: Vec<PollerLoop<P>> = Vec::new();
        let mut rest = polling_schedule;
        while rest.len() > 0
            invariant
                loops@.len() + rest@.len() == polls.len(),
                rest@ == polls.subrange(loops@.len() as int, polls.len() as int),
                forall|i: int|
                    0 <= i < loops@.len() ==> (#[trigger] loops@[i]).schedule == polls[i].0
                        && loops@[i].polling_func == polls[i].1,
            decreases rest@.len(),
        {
            let ghost k = loops@.len() as int;
            let (schedule, polling_func) = rest.remove(0);
            assert(polls[k] == (schedule, polling_func));
            loops.push(PollerLoop { schedule, polling_func });
            assert(rest@ =~= polls.subrange(k + 1, polls.len() as int));
        }
        (loops, event_to_actions)
    }
}

/// Registering one schedule twice, first with `first` and then with
/// `second`, leaves exactly one entry for that schedule, and it holds
/// `second`: starting the monitor then hands out exactly one loop for the
/// schedule, running `second`.
pub proof fn lemma_last_registration_wins<E: Event, P, A>(
    monitor: PollingMonitor<E, P, A>,
    schedule: PollingSchedule,
    first: PollingFunc<P>,
    second: PollingFunc<P>,
)
    requires
        monitor.wf(),
    ensures
        ({
            let r = with_entry(with_entry(monitor.polls(), schedule, first), schedule, second);
            &&& keys_unique(r)
            &&& exists|i: int|
                0 <= i < r.len() && r[i] == (schedule, second) && forall|j: int|
                    0 <= j < r.len() && #[trigger] r[j].0 == schedule ==> j == i
        }),
{
    let once = with_entry(monitor.polls(), schedule, first);
    lemma_with_entry(monitor.polls(), schedule, first);
    lemma_with_entry(once, schedule, second);
    let r = with_entry(once, schedule, second);
    let i = key_index(r, schedule);
    assert(r[i] == (schedule, second));
    assert forall|j: int| 0 <= j < r.len() && #[trigger] r[j].0 == schedule implies j == i by {
        lemma_key_index_unique(r, schedule, j);
    }
}

/// Appending an action to an event's list keeps the actions registered
/// before it, in their order, with the new one last; the lists of other
/// events are unchanged.
pub proof fn lemma_registration_order<E, A>(
    table: Seq<(E, Seq<ActionFunc<A>>)>,
    event: E,
    action: ActionFunc<A>,
)
    requires
        keys_unique(table),
    ensures
        keys_unique(with_appended(table, event, action)),
        list_of(with_appended(table, event, action), event) == list_of(table, event).push(action),
        forall|other: E|
            other != event ==> #[trigger] list_of(with_appended(table, event, action), other)
                == list_of(table, other),
{
    let v = list_of(table, event).push(action);
    lemma_with_entry(table, event, v);
    let r = with_appended(table, event, action);
    assert forall|other: E| other != event implies #[trigger] list_of(r, other) == list_of(
        table,
        other,
    ) by {
        if holds_key(table, other) {
            let i = key_index(table, other);
            assert(r[i] == table[i]);
            lemma_key_index_unique(r, other, i);
        } else if holds_key(r, other) {
            let j = key_index(r, other);
            if j < table.len() {
                assert(table[j].0 == other);
            }
        }
    }
}

} // verus!
