//! Which events to subscribe to.
use crate::event::ty::EventType;
use crate::text::same_text;
use vstd::pervasive::arbitrary;
use vstd::prelude::*;

verus! {

/// A filter: the name of a header and the value that it has to have.
#[derive(Clone, PartialEq, Eq, Hash, Debug)]
pub struct Filter {
    pub name: String,
    pub value: String,
}

/// A filter, as far as it is a value.
#[verifier::ext_equal]
pub struct FilterView {
    pub name: Seq<char>,
    pub value: Seq<char>,
}

impl View for Filter {
    type V = FilterView;

    open spec fn view(&self) -> FilterView {
        FilterView { name: self.name@, value: self.value@ }
    }
}

impl Filter {
    fn same(&self, other: &Filter) -> (same: bool)
        ensures
            same == (self@ == other@),
    {
        same_text(self.name.as_str(), other.name.as_str()) && same_text(
            self.value.as_str(),
            other.value.as_str(),
        )
    }

    fn copy(&self) -> (copy: Filter)
        ensures
            copy@ == self@,
    {
        Filter { name: self.name.clone(), value: self.value.clone() }
    }
}

/// A filter and the events that it applies to.
#[derive(Debug)]
struct Entry {
    filter: Filter,
    events: Vec<EventType>,
}

/// The filter manager finds out what events we should subscribe to if a new set is required.
#[derive(Debug)]
pub struct FilterManager {
    /// The minimum set of events we are interested in without an attached filter.
    events: Vec<EventType>,
    /// Specific name / value pair filters and on which events they should be applied to.
    filters: Vec<Entry>,
}

/// A filter manager, as far as it is a value.
#[verifier::ext_equal]
pub struct FilterManagerView {
    pub events: Set<EventType>,
    pub filters: Map<FilterView, Set<EventType>>,
}

/// The manager with more events.
pub open spec fn with_events(
    manager: FilterManagerView,
    events: Set<EventType>,
) -> FilterManagerView {
    FilterManagerView { events: manager.events.union(events), ..manager }
}

/// The manager with fewer events.
pub open spec fn without_events(
    manager: FilterManagerView,
    events: Set<EventType>,
) -> FilterManagerView {
    FilterManagerView { events: manager.events.difference(events), ..manager }
}

/// The manager with a filter that applies to more events.
pub open spec fn with_filter(
    manager: FilterManagerView,
    filter: FilterView,
    events: Set<EventType>,
) -> FilterManagerView {
    let all = if manager.filters.contains_key(filter) {
        manager.filters[filter].union(events)
    } else {
        events
    };
    FilterManagerView { filters: manager.filters.insert(filter, all), ..manager }
}

/// The manager without a filter.
pub open spec fn without_filter(manager: FilterManagerView, filter: FilterView) -> FilterManagerView {
    FilterManagerView { filters: manager.filters.remove(filter), ..manager }
}

/// The manager has an event for a filter.
pub open spec fn applies(manager: FilterManagerView, filter: FilterView, event: EventType) -> bool {
    manager.filters.contains_key(filter) && manager.filters[filter].contains(event)
}

/// To add events is to have them and what was there before, to remove them is to have what was there
/// before and is not one of them, and the filters stay as they were.
pub proof fn law_events_come_and_go(
    manager: FilterManagerView,
    events: Set<EventType>,
    event: EventType,
)
    ensures
        with_events(manager, events).events.contains(event) <==> manager.events.contains(event)
            || events.contains(event),
        without_events(manager, events).events.contains(event) <==> manager.events.contains(event)
            && !events.contains(event),
        with_events(manager, events).filters == manager.filters,
        without_events(manager, events).filters == manager.filters,
{
}

/// To add a filter for events is to have it for them, and for those that it was there for before. To
/// remove it is not to have it any more. The other filters and the events stay as they were.
pub proof fn law_filters_come_and_go(
    manager: FilterManagerView,
    filter: FilterView,
    other: FilterView,
    events: Set<EventType>,
    event: EventType,
)
    ensures
        ({
            let more = with_filter(manager, filter, events);
            let less = without_filter(manager, filter);
            &&& more.filters.contains_key(filter)
            &&& applies(more, filter, event) <==> applies(manager, filter, event)
                || events.contains(event)
            &&& !less.filters.contains_key(filter)
            &&& other != filter ==> {
                &&& more.filters.contains_key(other) == manager.filters.contains_key(other)
                &&& less.filters.contains_key(other) == manager.filters.contains_key(other)
                &&& applies(more, other, event) == applies(manager, other, event)
                &&& applies(less, other, event) == applies(manager, other, event)
            }
            &&& more.events == manager.events
            &&& less.events == manager.events
        }),
{
}

/// The entry at `i` is for the given filter.
spec fn is_for(entries: Seq<Entry>, filter: FilterView, i: int) -> bool {
    0 <= i < entries.len() && entries[i].filter@ == filter
}

/// The events that each filter applies to.
spec fn filter_map(entries: Seq<Entry>) -> Map<FilterView, Set<EventType>> {
    Map::new(
        |filter: FilterView| exists|i: int| is_for(entries, filter, i),
        |filter: FilterView| entries[choose|i: int| is_for(entries, filter, i)].events@.to_set(),
    )
}

/// No event occurs twice, and no filter does.
spec fn are_distinct(events: Seq<EventType>, entries: Seq<Entry>) -> bool {
    &&& events.no_duplicates()
    &&& are_distinct_filters(entries)
}

/// No filter occurs twice, and none of its events does.
spec fn are_distinct_filters(entries: Seq<Entry>) -> bool {
    &&& forall|i: int| 0 <= i < entries.len() ==> (#[trigger] entries[i]).events@.no_duplicates()
    &&& forall|i: int, j: int|
        0 <= i < j < entries.len() ==> #[trigger] entries[i].filter@
            != #[trigger] entries[j].filter@
}

impl View for FilterManager {
    type V = FilterManagerView;

    closed spec fn view(&self) -> FilterManagerView {
        FilterManagerView { events: self.events@.to_set(), filters: filter_map(self.filters@) }
    }
}

impl Default for FilterManager {
    fn default() -> (manager: Self)
        ensures
            manager@ == (FilterManagerView {
                events: Set::<EventType>::empty(),
                filters: Map::<FilterView, Set<EventType>>::empty(),
            }),
    {
        let manager = FilterManager { events: Vec::new(), filters: Vec::new() };
        proof {
            let none = Seq::<Entry>::empty();
            assert forall|filter: FilterView, i: int| !is_for(none, filter, i) by {}
            assert(manager@.filters =~= Map::<FilterView, Set<EventType>>::empty());
            assert(manager@.events =~= Set::<EventType>::empty());
        }
        manager
    }
}

impl Clone for FilterManager {
    fn clone(&self) -> (copy: Self)
        ensures
            copy@ == self@,
    {
        proof {
            use_type_invariant(self);
        }
        let events = self.events.clone();
        let mut filters: Vec<Entry> = Vec::new();
        let mut i: usize = 0;
        while i < self.filters.len()
            invariant
                i <= self.filters@.len(),
                filters@.len() == i,
                forall|j: int|
                    0 <= j < i ==> (#[trigger] filters@[j]).filter@ == self.filters@[j].filter@
                        && filters@[j].events@ == self.filters@[j].events@,
            decreases self.filters@.len() - i,
        {
            let entry = &self.filters[i];
            let copy = Entry { filter: entry.filter.copy(), events: entry.events.clone() };
            assert(copy.events@ =~= entry.events@);
            filters.push(copy);
            i = i + 1;
        }
        proof {
            assert(events@ =~= self.events@);
            assert forall|filter: FilterView, i: int|
                is_for(filters@, filter, i) == is_for(self.filters@, filter, i) by {
                if 0 <= i < filters@.len() {
                    assert(filters@[i].filter@ == self.filters@[i].filter@);
                }
            }
            assert forall|filter: FilterView|
                {
                    &&& #[trigger] filter_map(filters@).contains_key(filter) <==> filter_map(
                        self.filters@,
                    ).contains_key(filter)
                    &&& filter_map(filters@).contains_key(filter) ==> filter_map(filters@)[filter]
                        == filter_map(self.filters@)[filter]
                } by {
                if filter_map(filters@).contains_key(filter) {
                    let j = choose|j: int| is_for(filters@, filter, j);
                    assert(is_for(self.filters@, filter, j));
                    lemma_entry(filters@, j);
                    lemma_entry(self.filters@, j);
                }
                if filter_map(self.filters@).contains_key(filter) {
                    let j = choose|j: int| is_for(self.filters@, filter, j);
                    assert(is_for(filters@, filter, j));
                }
            }
            assert(filter_map(filters@) =~= filter_map(self.filters@));
        }
        FilterManager { events, filters }
    }
}

/// Adds an event to a set.
fn add_event(events: &mut Vec<EventType>, event: EventType)
    requires
        old(events)@.no_duplicates(),
    ensures
        final(events)@.no_duplicates(),
        final(events)@.to_set() == old(events)@.to_set().insert(event),
{
    let mut i: usize = 0;
    while i < events.len()
        invariant
            i <= events@.len(),
            events@ == old(events)@,
            events@.no_duplicates(),
            forall|j: int| 0 <= j < i ==> #[trigger] events@[j] != event,
        decreases events@.len() - i,
    {
        if events[i] == event {
            assert(events@.contains(event));
            assert(events@.to_set().insert(event) =~= events@.to_set());
            return;
        }
        i = i + 1;
    }
    events.push(event);
    proof {
        let before = old(events)@;
        assert(events@ == before.push(event));
        assert(events@.to_set() =~= before.to_set().insert(event)) by {
            assert forall|e: EventType| events@.contains(e) <==> before.contains(e) || e == event by {
                if before.contains(e) {
                    let k = choose|k: int| 0 <= k < before.len() && before[k] == e;
                    assert(events@[k] == e);
                }
                assert(events@[before.len() as int] == event);
            }
        }
    }
}

/// Adds events to a set.
fn add_all(events: &mut Vec<EventType>, more: &Vec<EventType>)
    requires
        old(events)@.no_duplicates(),
    ensures
        final(events)@.no_duplicates(),
        final(events)@.to_set() == old(events)@.to_set().union(more@.to_set()),
{
    let mut i: usize = 0;
    assert(more@.take(0).to_set() =~= Set::<EventType>::empty());
    assert(events@.to_set() =~= old(events)@.to_set().union(more@.take(0).to_set()));
    while i < more.len()
        invariant
            i <= more@.len(),
            events@.no_duplicates(),
            events@.to_set() == old(events)@.to_set().union(more@.take(i as int).to_set()),
        decreases more@.len() - i,
    {
        add_event(events, more[i]);
        proof {
            lemma_take_one_more(more@, i as int);
            assert(old(events)@.to_set().union(more@.take(i as int).to_set()).insert(
                more@[i as int],
            ) =~= old(events)@.to_set().union(more@.take(i + 1).to_set()));
        }
        i = i + 1;
    }
    assert(more@.take(i as int) =~= more@);
}

/// One more element of a sequence is one more element of its set.
proof fn lemma_take_one_more(events: Seq<EventType>, i: int)
    requires
        0 <= i < events.len(),
    ensures
        events.take(i + 1).to_set() == events.take(i).to_set().insert(events[i]),
{
    let before = events.take(i);
    let after = events.take(i + 1);
    assert(after.to_set() =~= before.to_set().insert(events[i])) by {
        assert forall|e: EventType| after.contains(e) <==> before.contains(e) || e == events[i] by {
            if before.contains(e) {
                let k = choose|k: int| 0 <= k < before.len() && before[k] == e;
                assert(after[k] == e);
            }
            assert(after[i] == events[i]);
            if after.contains(e) && e != events[i] {
                let k = choose|k: int| 0 <= k < after.len() && after[k] == e;
                assert(before[k] == e);
            }
        }
    }
}

/// The events of a set that are not in another.
fn without(events: &Vec<EventType>, removed: &Vec<EventType>) -> (left: Vec<EventType>)
    requires
        events@.no_duplicates(),
    ensures
        left@.no_duplicates(),
        left@.to_set() == events@.to_set().difference(removed@.to_set()),
{
    let mut left: Vec<EventType> = Vec::new();
    let mut i: usize = 0;
    assert(events@.take(0).to_set() =~= Set::<EventType>::empty());
    assert(left@.to_set() =~= Set::<EventType>::empty());
    while i < events.len()
        invariant
            i <= events@.len(),
            left@.no_duplicates(),
            left@.to_set() =~= events@.take(i as int).to_set().difference(removed@.to_set()),
        decreases events@.len() - i,
    {
        proof {
            lemma_take_one_more(events@, i as int);
        }
        if !has_event(removed, events[i]) {
            add_event(&mut left, events[i]);
        }
        i = i + 1;
    }
    assert(events@.take(i as int) =~= events@);
    left
}

/// Whether an event is in a set.
fn has_event(events: &Vec<EventType>, event: EventType) -> (found: bool)
    ensures
        found == events@.contains(event),
{
    let mut i: usize = 0;
    while i < events.len()
        invariant
            i <= events@.len(),
            forall|j: int| 0 <= j < i ==> #[trigger] events@[j] != event,
        decreases events@.len() - i,
    {
        if events[i] == event {
            return true;
        }
        i = i + 1;
    }
    false
}

/// The entry for a filter is the only one.
proof fn lemma_entry(entries: Seq<Entry>, i: int)
    requires
        are_distinct_filters(entries),
        0 <= i < entries.len(),
    ensures
        filter_map(entries).contains_key(entries[i].filter@),
        filter_map(entries)[entries[i].filter@] == entries[i].events@.to_set(),
{
    let filter = entries[i].filter@;
    assert(is_for(entries, filter, i));
    let j = choose|j: int| is_for(entries, filter, j);
    assert(i == j);
}

impl FilterManager {
    #[verifier::type_invariant]
    spec fn well_formed(self) -> bool {
        are_distinct(self.events@, self.filters@)
    }

    /// Adds new events to the global list of subscribed events.
    pub fn add_events(&mut self, events: Vec<EventType>)
        ensures
            final(self)@ == with_events(old(self)@, events@.to_set()),
    {
        proof {
            use_type_invariant(&*self);
        }
        let mut all: Vec<EventType> = Vec::new();
        std::mem::swap(&mut all, &mut self.events);
        add_all(&mut all, &events);
        self.events = all;
    }

    /// Removes events from the global list of subscribed events.
    pub fn remove_events(&mut self, events: Vec<EventType>)
        ensures
            final(self)@ == without_events(old(self)@, events@.to_set()),
    {
        proof {
            use_type_invariant(&*self);
        }
        let left = without(&self.events, &events);
        self.events = left;
    }

    /// Adds a filter for the given events.
    pub fn add_filter(&mut self, filter: Filter, events: Vec<EventType>)
        ensures
            final(self)@ == with_filter(old(self)@, filter@, events@.to_set()),
    {
        proof {
            use_type_invariant(&*self);
        }
        let mut entries: Vec<Entry> = Vec::new();
        std::mem::swap(&mut entries, &mut self.filters);
        add_entry(&mut entries, filter, &events);
        self.filters = entries;
    }

    /// Removes a filter, given by its name and its value.
    pub fn remove_filter(&mut self, filter: (String, String))
        ensures
            final(self)@ == without_filter(
                old(self)@,
                FilterView { name: filter.0@, value: filter.1@ },
            ),
    {
        proof {
            use_type_invariant(&*self);
        }
        let (name, value) = filter;
        let filter = Filter { name, value };
        let mut entries: Vec<Entry> = Vec::new();
        std::mem::swap(&mut entries, &mut self.filters);
        remove_entry(&mut entries, &filter);
        self.filters = entries;
    }
}

/// Removes a filter.
fn remove_entry(entries: &mut Vec<Entry>, filter: &Filter)
    requires
        are_distinct_filters(old(entries)@),
    ensures
        are_distinct_filters(final(entries)@),
        filter_map(final(entries)@) == filter_map(old(entries)@).remove(filter@),
{
    let mut i: usize = 0;
    while i < entries.len()
        invariant
            i <= entries@.len(),
            entries@ == old(entries)@,
            are_distinct_filters(entries@),
            forall|j: int| 0 <= j < i ==> #[trigger] entries@[j].filter@ != filter@,
        decreases entries@.len() - i,
    {
        if entries[i].filter.same(filter) {
            entries.remove(i);
            proof {
                lemma_removed(old(entries)@, i as int);
            }
            return;
        }
        i = i + 1;
    }
    assert(!filter_map(entries@).contains_key(filter@));
    assert(filter_map(entries@).remove(filter@) =~= filter_map(entries@));
}

/// To remove an entry is to shrink the map.
proof fn lemma_removed(entries: Seq<Entry>, i: int)
    requires
        are_distinct_filters(entries),
        0 <= i < entries.len(),
    ensures
        are_distinct_filters(entries.remove(i)),
        filter_map(entries.remove(i)) == filter_map(entries).remove(entries[i].filter@),
{
    let removed = entries.remove(i);
    assert forall|j: int| 0 <= j < removed.len() implies #[trigger] removed[j] == entries[if j < i {
        j
    } else {
        j + 1
    }] by {}
    assert(are_distinct_filters(removed));
    let expected = filter_map(entries).remove(entries[i].filter@);
    assert forall|filter: FilterView|
        {
            &&& #[trigger] filter_map(removed).contains_key(filter) <==> expected.contains_key(
                filter,
            )
            &&& expected.contains_key(filter) ==> filter_map(removed)[filter] == expected[filter]
        } by {
        if filter_map(removed).contains_key(filter) {
            let j = choose|j: int| is_for(removed, filter, j);
            let k = if j < i {
                j
            } else {
                j + 1
            };
            assert(removed[j] == entries[k]);
            assert(is_for(entries, filter, k));
            lemma_entry(entries, k);
            lemma_entry(removed, j);
        }
        if expected.contains_key(filter) {
            let k = choose|k: int| is_for(entries, filter, k);
            let j = if k < i {
                k
            } else {
                k - 1
            };
            assert(removed[j] == entries[k]);
            assert(is_for(removed, filter, j));
        }
    }
    assert(filter_map(removed) =~= expected);
}

/// Adds a filter for events.
fn add_entry(entries: &mut Vec<Entry>, filter: Filter, events: &Vec<EventType>)
    requires
        are_distinct_filters(old(entries)@),
    ensures
        are_distinct_filters(final(entries)@),
        filter_map(final(entries)@) == filter_map(old(entries)@).insert(
            filter@,
            if filter_map(old(entries)@).contains_key(filter@) {
                filter_map(old(entries)@)[filter@].union(events@.to_set())
            } else {
                events@.to_set()
            },
        ),
{
    let mut i: usize = 0;
    while i < entries.len()
        invariant
            i <= entries@.len(),
            entries@ == old(entries)@,
            are_distinct_filters(entries@),
            forall|j: int| 0 <= j < i ==> #[trigger] entries@[j].filter@ != filter@,
        decreases entries@.len() - i,
    {
        if entries[i].filter.same(&filter) {
            let mut all = entries[i].events.clone();
            add_all(&mut all, events);
            entries.set(i, Entry { filter, events: all });
            proof {
                lemma_updated(old(entries)@, i as int, entries@[i as int]);
                lemma_entry(old(entries)@, i as int);
            }
            return;
        }
        i = i + 1;
    }
    let mut all: Vec<EventType> = Vec::new();
    assert(all@.to_set() =~= Set::<EventType>::empty());
    add_all(&mut all, events);
    assert(Set::<EventType>::empty().union(events@.to_set()) =~= events@.to_set());
    entries.push(Entry { filter, events: all });
    proof {
        lemma_added(old(entries)@, entries@.last());
        assert(!filter_map(old(entries)@).contains_key(filter@));
    }
}

/// To replace the events of a filter is to update the map.
proof fn lemma_updated(entries: Seq<Entry>, i: int, entry: Entry)
    requires
        are_distinct_filters(entries),
        0 <= i < entries.len(),
        entry.filter@ == entries[i].filter@,
        entry.events@.no_duplicates(),
    ensures
        are_distinct_filters(entries.update(i, entry)),
        filter_map(entries.update(i, entry)) == filter_map(entries).insert(
            entry.filter@,
            entry.events@.to_set(),
        ),
{
    let updated = entries.update(i, entry);
    assert(are_distinct_filters(updated));
    let expected = filter_map(entries).insert(entry.filter@, entry.events@.to_set());
    assert forall|filter: FilterView|
        {
            &&& #[trigger] filter_map(updated).contains_key(filter) <==> expected.contains_key(
                filter,
            )
            &&& expected.contains_key(filter) ==> filter_map(updated)[filter] == expected[filter]
        } by {
        if filter == entry.filter@ {
            lemma_entry(updated, i);
        } else {
            if filter_map(updated).contains_key(filter) {
                let j = choose|j: int| is_for(updated, filter, j);
                assert(is_for(entries, filter, j));
                lemma_entry(entries, j);
                lemma_entry(updated, j);
            }
            if filter_map(entries).contains_key(filter) {
                let j = choose|j: int| is_for(entries, filter, j);
                assert(is_for(updated, filter, j));
            }
        }
    }
    assert(filter_map(updated) =~= expected);
}

/// To add an entry is to extend the map.
proof fn lemma_added(entries: Seq<Entry>, entry: Entry)
    requires
        are_distinct_filters(entries),
        forall|j: int| 0 <= j < entries.len() ==> #[trigger] entries[j].filter@ != entry.filter@,
        entry.events@.no_duplicates(),
    ensures
        are_distinct_filters(entries.push(entry)),
        filter_map(entries.push(entry)) == filter_map(entries).insert(
            entry.filter@,
            entry.events@.to_set(),
        ),
        !filter_map(entries).contains_key(entry.filter@),
{
    let added = entries.push(entry);
    assert(are_distinct_filters(added));
    let expected = filter_map(entries).insert(entry.filter@, entry.events@.to_set());
    assert forall|filter: FilterView|
        {
            &&& #[trigger] filter_map(added).contains_key(filter) <==> expected.contains_key(filter)
            &&& expected.contains_key(filter) ==> filter_map(added)[filter] == expected[filter]
        } by {
        if filter == entry.filter@ {
            lemma_entry(added, entries.len() as int);
        } else {
            if filter_map(added).contains_key(filter) {
                let j = choose|j: int| is_for(added, filter, j);
                assert(is_for(entries, filter, j));
                lemma_entry(entries, j);
                lemma_entry(added, j);
            }
            if filter_map(entries).contains_key(filter) {
                let j = choose|j: int| is_for(entries, filter, j);
                assert(is_for(added, filter, j));
            }
        }
    }
    assert(filter_map(added) =~= expected);
}

/// A change of what FreeSWITCH has been told.
#[derive(Clone, Debug)]
pub enum SubscriptionChange {
    AddFilter(Filter),
    RemoveFilter(Filter),
    AddEvents(Vec<EventType>),
    ClearEvents,
}

/// A change, as far as it is a value.
#[verifier::ext_equal]
pub enum ChangeView {
    AddFilter(FilterView),
    RemoveFilter(FilterView),
    AddEvents(Set<EventType>),
    ClearEvents,
}

impl View for SubscriptionChange {
    type V = ChangeView;

    open spec fn view(&self) -> ChangeView {
        match *self {
            SubscriptionChange::AddFilter(filter) => ChangeView::AddFilter(filter@),
            SubscriptionChange::RemoveFilter(filter) => ChangeView::RemoveFilter(filter@),
            SubscriptionChange::AddEvents(events) => ChangeView::AddEvents(events@.to_set()),
            SubscriptionChange::ClearEvents => ChangeView::ClearEvents,
        }
    }
}

/// Changes, as far as they are values.
pub open spec fn change_views(changes: Seq<SubscriptionChange>) -> Seq<ChangeView> {
    changes.map_values(|change: SubscriptionChange| change@)
}

/// What FreeSWITCH has been told after a change.
pub open spec fn apply(state: EventFilterStateView, change: ChangeView) -> EventFilterStateView {
    match change {
        ChangeView::AddFilter(filter) => EventFilterStateView {
            filters: state.filters.insert(filter),
            ..state
        },
        ChangeView::RemoveFilter(filter) => EventFilterStateView {
            filters: state.filters.remove(filter),
            ..state
        },
        ChangeView::AddEvents(events) => EventFilterStateView {
            events: state.events.union(events),
            ..state
        },
        ChangeView::ClearEvents => EventFilterStateView { events: Set::empty(), ..state },
    }
}

/// What FreeSWITCH has been told after changes, one after another.
pub open spec fn apply_all(
    state: EventFilterStateView,
    changes: Seq<ChangeView>,
) -> EventFilterStateView
    decreases changes.len(),
{
    if changes.len() == 0 {
        state
    } else {
        apply(apply_all(state, changes.drop_last()), changes.last())
    }
}

/// All filters of a set, none of them twice.
pub open spec fn is_listing(listed: Seq<FilterView>, filters: Set<FilterView>) -> bool {
    listed.no_duplicates() && listed.to_set() == filters
}

/// The changes that add filters.
pub open spec fn additions(filters: Seq<FilterView>) -> Seq<ChangeView> {
    filters.map_values(|filter: FilterView| ChangeView::AddFilter(filter))
}

/// The changes that remove filters.
pub open spec fn removals(filters: Seq<FilterView>) -> Seq<ChangeView> {
    filters.map_values(|filter: FilterView| ChangeView::RemoveFilter(filter))
}

/// The changes that lead from events to the next: those that are new are added, but if any has to
/// go, all are cleared first.
pub open spec fn event_changes(events: Set<EventType>, next: Set<EventType>) -> Seq<ChangeView> {
    if events.subset_of(next) {
        added_events(next.difference(events))
    } else {
        seq![ChangeView::ClearEvents] + added_events(next)
    }
}

/// The change that adds events, if there are any.
pub open spec fn added_events(events: Set<EventType>) -> Seq<ChangeView> {
    if events == Set::<EventType>::empty() {
        Seq::empty()
    } else {
        seq![ChangeView::AddEvents(events)]
    }
}

/// The changes from one state to the next: filters that are new are added, in any order, then events
/// are changed, and then filters that are gone are removed, in any order.
pub open spec fn are_changes(
    state: EventFilterStateView,
    next: EventFilterStateView,
    changes: Seq<ChangeView>,
) -> bool {
    exists|added: Seq<FilterView>, removed: Seq<FilterView>|
        {
            &&& #[trigger] is_listing(added, next.filters.difference(state.filters))
            &&& #[trigger] is_listing(removed, state.filters.difference(next.filters))
            &&& changes == additions(added) + event_changes(state.events, next.events) + removals(
                removed,
            )
        }
}

proof fn lemma_apply_all_concat(state: EventFilterStateView, a: Seq<ChangeView>, b: Seq<ChangeView>)
    ensures
        apply_all(state, a + b) == apply_all(apply_all(state, a), b),
    decreases b.len(),
{
    if b.len() == 0 {
        assert(a + b =~= a);
    } else {
        lemma_apply_all_concat(state, a, b.drop_last());
        assert((a + b).drop_last() =~= a + b.drop_last());
    }
}

proof fn lemma_additions(state: EventFilterStateView, filters: Seq<FilterView>)
    ensures
        apply_all(state, additions(filters)) == (EventFilterStateView {
            filters: state.filters.union(filters.to_set()),
            ..state
        }),
    decreases filters.len(),
{
    if filters.len() == 0 {
        assert(state.filters.union(filters.to_set()) =~= state.filters);
    } else {
        let before = filters.drop_last();
        lemma_additions(state, before);
        assert(additions(filters).drop_last() =~= additions(before));
        lemma_listed(filters);
        assert(state.filters.union(before.to_set()).insert(filters.last())
            =~= state.filters.union(filters.to_set()));
    }
}

proof fn lemma_removals(state: EventFilterStateView, filters: Seq<FilterView>)
    ensures
        apply_all(state, removals(filters)) == (EventFilterStateView {
            filters: state.filters.difference(filters.to_set()),
            ..state
        }),
    decreases filters.len(),
{
    if filters.len() == 0 {
        assert(state.filters.difference(filters.to_set()) =~= state.filters);
    } else {
        let before = filters.drop_last();
        lemma_removals(state, before);
        assert(removals(filters).drop_last() =~= removals(before));
        lemma_listed(filters);
        assert(state.filters.difference(before.to_set()).remove(filters.last())
            =~= state.filters.difference(filters.to_set()));
    }
}

/// A filter that is listed is the last or is listed before.
proof fn lemma_listed(filters: Seq<FilterView>)
    requires
        filters.len() > 0,
    ensures
        filters.to_set() == filters.drop_last().to_set().insert(filters.last()),
{
    let before = filters.drop_last();
    assert forall|filter: FilterView| #[trigger]
        filters.contains(filter) <==> before.contains(filter) || filter == filters.last() by {
        if filters.contains(filter) && filter != filters.last() {
            let i = choose|i: int| 0 <= i < filters.len() && filters[i] == filter;
            assert(before[i] == filter);
        }
        if before.contains(filter) {
            let i = choose|i: int| 0 <= i < before.len() && before[i] == filter;
            assert(filters[i] == filter);
        }
    }
    assert(filters.to_set() =~= before.to_set().insert(filters.last()));
}

proof fn lemma_event_changes(state: EventFilterStateView, next: Set<EventType>)
    ensures
        apply_all(state, event_changes(state.events, next)) == (EventFilterStateView {
            events: next,
            ..state
        }),
{
    let changes = event_changes(state.events, next);
    reveal_with_fuel(apply_all, 3);
    if state.events.subset_of(next) {
        assert(state.events.union(next.difference(state.events)) =~= next);
        if next.difference(state.events) == Set::<EventType>::empty() {
            assert(state.events =~= next) by {
                assert forall|event: EventType| next.contains(event) implies state.events.contains(
                    event,
                ) by {
                    assert(!next.difference(state.events).contains(event));
                }
            }
        } else {
            assert(changes.drop_last() =~= Seq::<ChangeView>::empty());
        }
    } else if next == Set::<EventType>::empty() {
        assert(changes =~= seq![ChangeView::ClearEvents]);
        assert(changes.drop_last() =~= Seq::<ChangeView>::empty());
    } else {
        assert(changes.drop_last() =~= seq![ChangeView::ClearEvents]);
        assert(changes.drop_last().drop_last() =~= Seq::<ChangeView>::empty());
        assert(Set::<EventType>::empty().union(next) =~= next);
    }
}

/// Changes from one state to the next lead to the next state.
pub proof fn law_changes_lead_to_the_next_state(
    state: EventFilterStateView,
    next: EventFilterStateView,
    changes: Seq<ChangeView>,
)
    requires
        are_changes(state, next, changes),
    ensures
        apply_all(state, changes) == next,
{
    let (added, removed) = choose|added: Seq<FilterView>, removed: Seq<FilterView>|
        {
            &&& #[trigger] is_listing(added, next.filters.difference(state.filters))
            &&& #[trigger] is_listing(removed, state.filters.difference(next.filters))
            &&& changes == additions(added) + event_changes(state.events, next.events) + removals(
                removed,
            )
        };
    let events = event_changes(state.events, next.events);
    lemma_apply_all_concat(state, additions(added) + events, removals(removed));
    lemma_apply_all_concat(state, additions(added), events);
    lemma_additions(state, added);
    let with_filters = apply_all(state, additions(added));
    lemma_event_changes(with_filters, next.events);
    lemma_removals(apply_all(with_filters, events), removed);
    assert(state.filters.union(next.filters.difference(state.filters)).difference(
        state.filters.difference(next.filters),
    ) =~= next.filters);
}

/// Filters are added before any events are, and removed after that.
pub proof fn law_filters_are_added_first(
    state: EventFilterStateView,
    next: EventFilterStateView,
    changes: Seq<ChangeView>,
)
    requires
        are_changes(state, next, changes),
    ensures
        forall|i: int, j: int|
            0 <= i < changes.len() && 0 <= j < changes.len() && #[trigger] changes[i] is AddFilter
                && #[trigger] changes[j] !is AddFilter ==> i < j,
        forall|i: int, j: int|
            0 <= i < changes.len() && 0 <= j < changes.len() && #[trigger] changes[i] is RemoveFilter
                && #[trigger] changes[j] !is RemoveFilter ==> j < i,
{
    let (added, removed) = choose|added: Seq<FilterView>, removed: Seq<FilterView>|
        {
            &&& #[trigger] is_listing(added, next.filters.difference(state.filters))
            &&& #[trigger] is_listing(removed, state.filters.difference(next.filters))
            &&& changes == additions(added) + event_changes(state.events, next.events) + removals(
                removed,
            )
        };
    let events = event_changes(state.events, next.events);
    let end = added.len() + events.len();
    assert forall|i: int| 0 <= i < changes.len() implies {
        &&& #[trigger] changes[i] is AddFilter <==> i < added.len()
        &&& changes[i] is RemoveFilter <==> i >= end
    } by {
        if i < added.len() {
            assert(changes[i] == additions(added)[i]);
        } else if i < end {
            assert(changes[i] == events[i - added.len()]);
        } else {
            assert(changes[i] == removals(removed)[i - end]);
        }
    }
}

/// No changes lead from a state to itself.
pub proof fn law_nothing_changes_in_the_same_state(
    state: EventFilterStateView,
    changes: Seq<ChangeView>,
)
    requires
        are_changes(state, state, changes),
    ensures
        changes.len() == 0,
{
    let none = state.filters.difference(state.filters);
    let (added, removed) = choose|added: Seq<FilterView>, removed: Seq<FilterView>|
        {
            &&& #[trigger] is_listing(added, none)
            &&& #[trigger] is_listing(removed, none)
            &&& changes == additions(added) + event_changes(state.events, state.events) + removals(
                removed,
            )
        };
    assert(state.events.difference(state.events) =~= Set::<EventType>::empty());
    if added.len() > 0 {
        assert(added.to_set().contains(added[0]));
    }
    if removed.len() > 0 {
        assert(removed.to_set().contains(removed[0]));
    }
}

/// Whether a filter is in a set.
fn has_filter(filters: &Vec<Filter>, filter: &Filter) -> (found: bool)
    ensures
        found == filter_views(filters@).contains(filter@),
{
    let mut i: usize = 0;
    while i < filters.len()
        invariant
            i <= filters@.len(),
            forall|j: int| 0 <= j < i ==> (#[trigger] filters@[j])@ != filter@,
        decreases filters@.len() - i,
    {
        if filters[i].same(filter) {
            assert(filter_views(filters@)[i as int] == filter@);
            return true;
        }
        i = i + 1;
    }
    false
}

/// The filters of a set that are not in another.
fn filters_without(filters: &Vec<Filter>, removed: &Vec<Filter>) -> (left: Vec<Filter>)
    requires
        filter_views(filters@).no_duplicates(),
    ensures
        is_listing(
            filter_views(left@),
            filter_views(filters@).to_set().difference(filter_views(removed@).to_set()),
        ),
{
    let ghost all = filter_views(filters@);
    let ghost gone = filter_views(removed@);
    let mut left: Vec<Filter> = Vec::new();
    let mut i: usize = 0;
    while i < filters.len()
        invariant
            i <= filters@.len(),
            all == filter_views(filters@),
            gone == filter_views(removed@),
            all.no_duplicates(),
            filter_views(left@).no_duplicates(),
            forall|filter: FilterView| #[trigger]
                filter_views(left@).contains(filter) <==> all.take(i as int).contains(filter)
                    && !gone.contains(filter),
        decreases filters@.len() - i,
    {
        let filter = &filters[i];
        let ghost before = filter_views(left@);
        assert(all[i as int] == filter@);
        assert(all.take(i + 1) =~= all.take(i as int).push(filter@));
        assert forall|other: FilterView| #[trigger]
            all.take(i + 1).contains(other) <==> all.take(i as int).contains(other) || other
                == filter@ by {
            lemma_listed(all.take(i + 1));
            assert(all.take(i + 1).drop_last() =~= all.take(i as int));
            assert(all.take(i + 1).to_set().contains(other) <==> all.take(
                i as int,
            ).to_set().insert(filter@).contains(other));
        }
        if !has_filter(removed, filter) {
            left.push(filter.copy());
            proof {
                assert(filter_views(left@) =~= before.push(filter@));
                assert(!all.take(i as int).contains(filter@)) by {
                    if all.take(i as int).contains(filter@) {
                        let j = choose|j: int|
                            0 <= j < i && all.take(i as int)[j] == filter@;
                        assert(all[j] == all[i as int]);
                    }
                }
                assert(!before.contains(filter@));
                assert forall|j: int, k: int|
                    0 <= j < filter_views(left@).len() && 0 <= k < filter_views(left@).len() && j
                        != k implies filter_views(left@)[j] != filter_views(left@)[k] by {
                    if j < before.len() {
                        assert(before.contains(before[j]));
                    }
                    if k < before.len() {
                        assert(before.contains(before[k]));
                    }
                }
                assert forall|other: FilterView| #[trigger]
                    filter_views(left@).contains(other) <==> before.contains(other) || other
                        == filter@ by {
                    lemma_listed(filter_views(left@));
                    assert(filter_views(left@).drop_last() =~= before);
                    assert(filter_views(left@).to_set().contains(other)
                        <==> before.to_set().insert(filter@).contains(other));
                }
            }
        }
        i = i + 1;
    }
    assert(all.take(i as int) =~= all);
    assert(filter_views(left@).to_set() =~= all.to_set().difference(gone.to_set()));
    left
}

/// Adds the changes that lead from events to the next.
fn add_event_changes(
    changes: &mut Vec<SubscriptionChange>,
    events: &Vec<EventType>,
    next: &Vec<EventType>,
)
    requires
        events@.no_duplicates(),
        next@.no_duplicates(),
        forall|i: int| 0 <= i < old(changes)@.len() ==> #[trigger] old(changes)@[i] is AddFilter,
    ensures
        change_views(final(changes)@) == change_views(old(changes)@) + event_changes(
            events@.to_set(),
            next@.to_set(),
        ),
        forall|i: int|
            0 <= i < final(changes)@.len() ==> (#[trigger] final(changes)@[i] matches
                SubscriptionChange::AddEvents(events) ==> events@.no_duplicates()),
{
    let gone = without(events, next);
    let added = without(next, events);
    proof {
        lemma_is_empty(gone@);
        lemma_is_empty(added@);
        lemma_is_empty(next@);
        assert(gone@.len() == 0 <==> events@.to_set().subset_of(next@.to_set())) by {
            if gone@.len() == 0 {
                assert forall|event: EventType| events@.to_set().contains(
                    event,
                ) implies next@.to_set().contains(event) by {
                    assert(!gone@.to_set().contains(event));
                }
            } else {
                assert(gone@.to_set().contains(gone@[0]));
            }
        }
    }
    let ghost before = change_views(changes@);
    if gone.len() == 0 {
        if added.len() > 0 {
            changes.push(SubscriptionChange::AddEvents(added));
        }
    } else {
        changes.push(SubscriptionChange::ClearEvents);
        if next.len() > 0 {
            let next = next.clone();
            changes.push(SubscriptionChange::AddEvents(next));
        }
    }
    assert(change_views(changes@) =~= before + event_changes(events@.to_set(), next@.to_set()));
}

/// A sequence is empty if its set is.
proof fn lemma_is_empty(events: Seq<EventType>)
    ensures
        events.len() == 0 <==> events.to_set() == Set::<EventType>::empty(),
{
    if events.len() == 0 {
        assert(events.to_set() =~= Set::<EventType>::empty());
    } else {
        assert(events.to_set().contains(events[0]));
    }
}

/// What FreeSWITCH has to be told: all events to subscribe to, and all filters.
#[derive(Debug)]
pub struct EventFilterState {
    events: Vec<EventType>,
    filters: Vec<Filter>,
}

/// What FreeSWITCH has to be told, as far as it is a value.
#[verifier::ext_equal]
pub struct EventFilterStateView {
    pub events: Set<EventType>,
    pub filters: Set<FilterView>,
}

/// Filters, as far as they are values.
pub open spec fn filter_views(filters: Seq<Filter>) -> Seq<FilterView> {
    filters.map_values(|filter: Filter| filter@)
}

impl View for EventFilterState {
    type V = EventFilterStateView;

    closed spec fn view(&self) -> EventFilterStateView {
        EventFilterStateView {
            events: self.events@.to_set(),
            filters: filter_views(self.filters@).to_set(),
        }
    }
}

/// One of the filters applies to the event.
pub open spec fn is_filtered(filters: Map<FilterView, Set<EventType>>, event: EventType) -> bool {
    exists|filter: FilterView| #[trigger]
        filters.contains_key(filter) && filters[filter].contains(event)
}

/// What FreeSWITCH has to be told: the events of the manager and those of its filters, and the
/// filters.
pub open spec fn filter_state(manager: FilterManagerView) -> EventFilterStateView {
    EventFilterStateView {
        events: manager.events.union(
            Set::new(|event: EventType| is_filtered(manager.filters, event)),
        ),
        filters: manager.filters.dom(),
    }
}

impl EventFilterState {
    #[verifier::type_invariant]
    spec fn well_formed(self) -> bool {
        &&& self.events@.no_duplicates()
        &&& filter_views(self.filters@).no_duplicates()
    }

    /// The changes that lead to the next state.
    ///
    /// New filters are added first, so that no events come unfiltered that a filter is installed
    /// together with. For the same reason old filters are removed last. Events can not be removed
    /// one by one: if any has to go, all are cleared and those that stay are added again.
    pub fn changes(&self, next: &Self) -> (changes: Vec<SubscriptionChange>)
        ensures
            are_changes(self@, next@, change_views(changes@)),
            apply_all(self@, change_views(changes@)) == next@,
            forall|i: int, j: int|
                0 <= i < changes@.len() && 0 <= j < changes@.len()
                    && #[trigger] changes@[i] is AddFilter && #[trigger] changes@[j] is AddEvents
                    ==> i < j,
            forall|i: int|
                0 <= i < changes@.len() ==> (#[trigger] changes@[i] matches
                    SubscriptionChange::AddEvents(events) ==> events@.no_duplicates()),
    {
        proof {
            use_type_invariant(self);
            use_type_invariant(next);
        }
        let added = filters_without(&next.filters, &self.filters);
        let removed = filters_without(&self.filters, &next.filters);
        let mut changes: Vec<SubscriptionChange> = Vec::new();
        let mut i: usize = 0;
        while i < added.len()
            invariant
                i <= added@.len(),
                changes@.len() == i,
                forall|j: int|
                    0 <= j < i ==> (#[trigger] changes@[j])@ == ChangeView::AddFilter(added@[j]@),
            decreases added@.len() - i,
        {
            changes.push(SubscriptionChange::AddFilter(added[i].copy()));
            i = i + 1;
        }
        let ghost adds = changes@;
        add_event_changes(&mut changes, &self.events, &next.events);
        let ghost first = changes@;
        let mut i: usize = 0;
        while i < removed.len()
            invariant
                i <= removed@.len(),
                changes@.len() == first.len() + i,
                first == changes@.take(first.len() as int),
                forall|j: int|
                    0 <= j < i ==> (#[trigger] changes@[first.len() + j])@
                        == ChangeView::RemoveFilter(removed@[j]@),
            decreases removed@.len() - i,
        {
            let ghost before = changes@;
            changes.push(SubscriptionChange::RemoveFilter(removed[i].copy()));
            proof {
                assert(changes@.take(first.len() as int) =~= before.take(first.len() as int));
                assert forall|j: int| 0 <= j < i + 1 implies (#[trigger] changes@[first.len() + j])@
                    == ChangeView::RemoveFilter(removed@[j]@) by {
                    if j < i {
                        assert(changes@[first.len() + j] == before[first.len() + j]);
                    }
                }
            }
            i = i + 1;
        }
        proof {
            let views = change_views(changes@);
            let added = filter_views(added@);
            let removed = filter_views(removed@);
            let events = event_changes(self@.events, next@.events);
            assert(changes@.take(first.len() as int) == first);
            assert(change_views(adds) =~= additions(added));
            assert(change_views(first) == change_views(adds) + events);
            assert forall|j: int| 0 <= j < views.len() implies #[trigger] views[j] == (additions(
                added,
            ) + events + removals(removed))[j] by {
                if j < first.len() {
                    assert(changes@[j] == first[j]);
                    assert(views[j] == change_views(first)[j]);
                } else {
                    assert(changes@[first.len() + (j - first.len())]@ == ChangeView::RemoveFilter(
                        removed[j - first.len()],
                    ));
                }
            }
            assert(views =~= additions(added) + events + removals(removed));
            assert(is_listing(added, next@.filters.difference(self@.filters)));
            assert(is_listing(removed, self@.filters.difference(next@.filters)));
            law_changes_lead_to_the_next_state(self@, next@, views);
            law_filters_are_added_first(self@, next@, views);
            assert forall|i: int, j: int|
                0 <= i < changes@.len() && 0 <= j < changes@.len()
                    && #[trigger] changes@[i] is AddFilter && #[trigger] changes@[j] is AddEvents
                implies i < j by {
                assert(views[i] == changes@[i]@);
                assert(views[j] == changes@[j]@);
            }
            assert forall|i: int| 0 <= i < changes@.len() implies (#[trigger] changes@[i] matches
                SubscriptionChange::AddEvents(events) ==> events@.no_duplicates()) by {
                if i < first.len() {
                    assert(changes@[i] == first[i]);
                } else {
                    assert(changes@[first.len() + (i - first.len())]@ is RemoveFilter);
                }
            }
        }
        changes
    }

    /// The events to subscribe to, none of them twice.
    pub fn events(&self) -> (events: &Vec<EventType>)
        ensures
            events@.to_set() == self@.events,
            events@.no_duplicates(),
    {
        proof {
            use_type_invariant(self);
        }
        &self.events
    }

    /// The filters, none of them twice.
    pub fn filters(&self) -> (filters: &Vec<Filter>)
        ensures
            filter_views(filters@).to_set() == self@.filters,
            filter_views(filters@).no_duplicates(),
    {
        proof {
            use_type_invariant(self);
        }
        &self.filters
    }
}

impl vstd::std_specs::convert::FromSpecImpl<FilterManager> for EventFilterState {
    open spec fn obeys_from_spec() -> bool {
        false
    }

    open spec fn from_spec(manager: FilterManager) -> EventFilterState {
        arbitrary()
    }
}

impl From<FilterManager> for EventFilterState {
    fn from(manager: FilterManager) -> (state: EventFilterState)
        ensures
            state@ == filter_state(manager@),
    {
        proof {
            use_type_invariant(&manager);
        }
        let ghost entries = manager.filters@;
        let mut events = manager.events.clone();
        assert(events@ =~= manager.events@);
        let mut filters: Vec<Filter> = Vec::new();
        let mut i: usize = 0;
        while i < manager.filters.len()
            invariant
                i <= entries.len(),
                entries == manager.filters@,
                are_distinct_filters(entries),
                events@.no_duplicates(),
                forall|event: EventType| #[trigger]
                    events@.to_set().contains(event) <==> manager.events@.contains(event)
                        || is_in_first(entries, i as int, event),
                filters@.len() == i,
                forall|j: int| 0 <= j < i ==> (#[trigger] filters@[j])@ == entries[j].filter@,
            decreases entries.len() - i,
        {
            let entry = &manager.filters[i];
            let ghost before = events@.to_set();
            add_all(&mut events, &entry.events);
            filters.push(entry.filter.copy());
            assert forall|event: EventType| #[trigger]
                events@.to_set().contains(event) <==> manager.events@.contains(event)
                    || is_in_first(entries, i + 1, event) by {
                assert(events@.to_set().contains(event) <==> before.contains(event)
                    || entries[i as int].events@.contains(event));
                if is_in_first(entries, i + 1, event) {
                    let j = choose|j: int|
                        0 <= j < i + 1 && (#[trigger] entries[j]).events@.contains(event);
                    if j < i {
                        assert(is_in_first(entries, i as int, event));
                    }
                }
            }
            i = i + 1;
        }
        proof {
            let views = filter_views(filters@);
            let map = filter_map(entries);
            assert forall|event: EventType|
                is_in_first(entries, i as int, event) == is_filtered(map, event) by {
                if is_in_first(entries, i as int, event) {
                    let j = choose|j: int|
                        0 <= j < i && (#[trigger] entries[j]).events@.contains(event);
                    lemma_entry(entries, j);
                    assert(map.contains_key(entries[j].filter@));
                }
                if is_filtered(map, event) {
                    let filter = choose|filter: FilterView| #[trigger]
                        map.contains_key(filter) && map[filter].contains(event);
                    let j = choose|j: int| is_for(entries, filter, j);
                    lemma_entry(entries, j);
                    assert(entries[j].events@.contains(event));
                }
            }
            assert forall|filter: FilterView| #[trigger]
                views.contains(filter) <==> map.contains_key(filter) by {
                if views.contains(filter) {
                    let j = choose|j: int| 0 <= j < views.len() && views[j] == filter;
                    assert(filters@[j]@ == entries[j].filter@);
                    lemma_entry(entries, j);
                }
                if map.contains_key(filter) {
                    let j = choose|j: int| is_for(entries, filter, j);
                    assert(filters@[j]@ == entries[j].filter@);
                    assert(views[j] == filter);
                }
            }
            assert forall|j: int, k: int|
                0 <= j < views.len() && 0 <= k < views.len() && j != k implies views[j]
                != views[k] by {
                assert(filters@[j]@ == entries[j].filter@);
                assert(filters@[k]@ == entries[k].filter@);
            }
            assert(views.to_set() =~= map.dom());
            assert(events@.to_set() =~= filter_state(manager@).events);
        }
        EventFilterState { events, filters }
    }
}

/// One of the first `n` filters applies to the event.
spec fn is_in_first(entries: Seq<Entry>, n: int, event: EventType) -> bool {
    exists|i: int| 0 <= i < n && (#[trigger] entries[i]).events@.contains(event)
}

/// All events of the manager are subscribed to, and all events that a filter applies to.
pub proof fn law_nothing_of_interest_is_missed(
    manager: FilterManagerView,
    filter: FilterView,
    event: EventType,
)
    requires
        manager.events.contains(event) || manager.filters.contains_key(filter)
            && manager.filters[filter].contains(event),
    ensures
        filter_state(manager).events.contains(event),
        manager.filters.contains_key(filter) ==> filter_state(manager).filters.contains(filter),
{
}

/// An event is subscribed to if and only if the manager has it or a filter applies to it, and the
/// filters are those of the manager.
pub proof fn law_nothing_else_is_subscribed_to(
    manager: FilterManagerView,
    filter: FilterView,
    event: EventType,
)
    ensures
        filter_state(manager).events.contains(event) <==> manager.events.contains(event) || exists|
            filter: FilterView,
        | #[trigger]
            manager.filters.contains_key(filter) && manager.filters[filter].contains(event),
        filter_state(manager).filters.contains(filter) <==> manager.filters.contains_key(filter),
{
}

/// No more is changed than has to be: a filter is added only if it is new and removed only if it is
/// gone, events are cleared only if one has to go, and if they are not, only new ones are added.
pub proof fn law_only_what_differs_is_changed(
    state: EventFilterStateView,
    next: EventFilterStateView,
    changes: Seq<ChangeView>,
    i: int,
    event: EventType,
)
    requires
        are_changes(state, next, changes),
        0 <= i < changes.len(),
    ensures
        match changes[i] {
            ChangeView::AddFilter(filter) => next.filters.contains(filter)
                && !state.filters.contains(filter),
            ChangeView::RemoveFilter(filter) => state.filters.contains(filter)
                && !next.filters.contains(filter),
            ChangeView::ClearEvents => exists|event: EventType|
                state.events.contains(event) && !#[trigger] next.events.contains(event),
            ChangeView::AddEvents(events) => {
                &&& events.contains(event) ==> next.events.contains(event)
                &&& events.contains(event) && state.events.contains(event) ==> exists|j: int|
                    0 <= j < i && #[trigger] changes[j] is ClearEvents
            },
        },
{
    let (added, removed) = choose|added: Seq<FilterView>, removed: Seq<FilterView>|
        {
            &&& #[trigger] is_listing(added, next.filters.difference(state.filters))
            &&& #[trigger] is_listing(removed, state.filters.difference(next.filters))
            &&& changes == additions(added) + event_changes(state.events, next.events) + removals(
                removed,
            )
        };
    let events = event_changes(state.events, next.events);
    let end = added.len() + events.len();
    if i < added.len() {
        assert(changes[i] == additions(added)[i]);
        assert(added.to_set().contains(added[i]));
    } else if i < end {
        assert(changes[i] == events[i - added.len()]);
        if !state.events.subset_of(next.events) {
            assert(changes[added.len() as int] == events[0]);
            assert(events[0] is ClearEvents);
        }
    } else {
        assert(changes[i] == removals(removed)[i - end]);
        assert(removed.to_set().contains(removed[i - end]));
    }
}

} // verus!
