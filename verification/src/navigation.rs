//! The navigation loop as a state machine: where the browser is, and
//! what it does on each answer of the presenter. Listing, presenting and
//! printing are the caller's; this module decides.

use crate::ordered::row_get;
use crate::present::Selection;
use crate::table::{has_row, row_count, row_mapping, ColumnView, Table};
use vstd::prelude::*;

verus! {

/// What is said of a path to browse that is a plain file.
pub const INVALID_TARGET_NOTE: &'static str = "u trying to list a file???";

/// What is said of a chosen row that has no name.
pub const MISSING_NAME_NOTE: &'static str = "can find name";

/// Where the browser is: the directory it was started in, and the names
/// of the rows chosen since, each one level below the one before.
pub struct Location {
    pub root: String,
    pub trail: Vec<String>,
}

/// The mathematical value of a [`Location`].
pub struct LocationView {
    pub root: Seq<char>,
    pub trail: Seq<Seq<char>>,
}

impl View for Location {
    type V = LocationView;

    open spec fn view(&self) -> LocationView {
        LocationView { root: self.root@, trail: self.trail@.map_values(|name: String| name@) }
    }
}

/// The state of the loop.
pub enum NavState {
    /// The listing of this location is to be presented next.
    Browsing(Location),
    /// The loop has ended.
    Exiting,
}

/// The mathematical value of a [`NavState`].
pub enum NavStateView {
    Browsing(LocationView),
    Exiting,
}

impl View for NavState {
    type V = NavStateView;

    open spec fn view(&self) -> NavStateView {
        match self {
            NavState::Browsing(location) => NavStateView::Browsing(location@),
            NavState::Exiting => NavStateView::Exiting,
        }
    }
}

/// What the caller does on a transition.
#[derive(Clone, Copy, Debug, PartialEq, Eq, Structural)]
pub enum Effect {
    /// List the new location and present it for selection.
    Present,
    /// Print the table that was presented last, then stop.
    PrintTable,
    /// Report that the chosen row has no name, then stop.
    ReportMissingName,
}

/// Why the loop cannot start.
#[derive(Clone, Copy, Debug, PartialEq, Eq, Structural)]
pub enum NavError {
    /// The path to browse is a plain file.
    InvalidTarget,
}

/// What the presenter answered, as far as the loop cares.
pub enum Event {
    /// A row was chosen; its `name` field is this, where it has one.
    Chose(Option<Seq<char>>),
    /// Nothing was chosen.
    Cancelled,
}

/// The text under `name` in a row read back as a mapping, where the row
/// has such a field.
pub open spec fn field(row: Seq<(Seq<char>, Seq<char>)>, name: Seq<char>) -> Option<Seq<char>> {
    if exists|k: int| 0 <= k < row.len() && (#[trigger] row[k]).0 == name {
        Some(row[choose|k: int| 0 <= k < row.len() && (#[trigger] row[k]).0 == name].1)
    } else {
        None
    }
}

/// The event that a selection on a table amounts to.
pub open spec fn event_of(columns: Seq<ColumnView>, selection: Selection) -> Event {
    match selection {
        Selection::Selected(index) => Event::Chose(
            field(row_mapping(columns, index as int), "name"@),
        ),
        Selection::Cancelled => Event::Cancelled,
    }
}

/// `location`, one level further down under `name`.
pub open spec fn descended(location: LocationView, name: Seq<char>) -> LocationView {
    LocationView { root: location.root, trail: location.trail.push(name) }
}

/// The transition from browsing `location` on `event`: a chosen row
/// with a name leads one level down, to be presented; cancelling ends
/// the loop with a last print of the table; a chosen row without a name
/// ends it with a report.
pub open spec fn step(location: LocationView, event: Event) -> (NavStateView, Effect) {
    match event {
        Event::Chose(Some(name)) => (
            NavStateView::Browsing(descended(location, name)),
            Effect::Present,
        ),
        Event::Chose(None) => (NavStateView::Exiting, Effect::ReportMissingName),
        Event::Cancelled => (NavStateView::Exiting, Effect::PrintTable),
    }
}

/// The initial state: browsing `dir`, unless `dir` is a plain file.
pub fn start(dir: String, is_file: bool) -> (state: Result<Location, NavError>)
    ensures
        match state {
            Ok(location) => !is_file && location@ == (LocationView {
                root: dir@,
                trail: Seq::empty(),
            }),
            Err(error) => is_file && error == NavError::InvalidTarget,
        },
{
    if is_file {
        return Err(NavError::InvalidTarget);
    }
    let location = Location { root: dir, trail: Vec::new() };
    assert(location.trail@.map_values(|name: String| name@) == Seq::<Seq<char>>::empty());
    Ok(location)
}

/// One transition of the loop: from browsing `location`, whose listing
/// `table` was presented, on the presenter's answer `selection`.
pub fn advance(location: Location, table: &Table, selection: Selection) -> (next: (NavState, Effect))
    requires
        table.wf(),
        selection matches Selection::Selected(index) ==> index < row_count(table@) && has_row(
            table@,
            index as int,
        ),
    ensures
        (next.0@, next.1) == step(location@, event_of(table@, selection)),
{
    match selection {
        Selection::Cancelled => (NavState::Exiting, Effect::PrintTable),
        Selection::Selected(index) => {
            let row = table.get(index);
            let ghost mapping = row_mapping(table@, index as int);
            match row_get(&row, "name") {
                Some(name) => {
                    proof {
                        let at = choose|k: int|
                            0 <= k < mapping.len() && #[trigger] mapping[k] == ("name"@, name@);
                        let found = choose|k: int|
                            0 <= k < mapping.len() && (#[trigger] mapping[k]).0 == "name"@;
                        assert(mapping[at].0 == "name"@);
                        assert(found == at) by {
                            assert(mapping[found].0 == table@[found].name);
                            assert(mapping[at].0 == table@[at].name);
                        }
                    }
                    let mut location = location;
                    let ghost trail = location.trail@;
                    location.trail.push(name.clone());
                    assert(location.trail@.map_values(|name: String| name@) == trail.map_values(
                        |name: String| name@,
                    ).push(name@));
                    (NavState::Browsing(location), Effect::Present)
                },
                None => (NavState::Exiting, Effect::ReportMissingName),
            }
        },
    }
}

/// The effects of a run from `state` on a sequence of events, each with
/// the location it concerns: the location to present, or the location
/// whose table is printed or whose row is reported. Events after the
/// end of the loop have no effect.
pub open spec fn effects(state: NavStateView, events: Seq<Event>) -> Seq<(Effect, LocationView)>
    decreases events.len(),
{
    match state {
        NavStateView::Exiting => Seq::empty(),
        NavStateView::Browsing(location) => if events.len() == 0 {
            Seq::empty()
        } else {
            let (next, effect) = step(location, events[0]);
            let concerned = match next {
                NavStateView::Browsing(deeper) => deeper,
                NavStateView::Exiting => location,
            };
            seq![(effect, concerned)] + effects(next, events.drop_first())
        },
    }
}

/// The state after a run from `state` on a sequence of events.
pub open spec fn state_after(state: NavStateView, events: Seq<Event>) -> NavStateView
    decreases events.len(),
{
    match state {
        NavStateView::Exiting => state,
        NavStateView::Browsing(location) => if events.len() == 0 {
            state
        } else {
            state_after(step(location, events[0]).0, events.drop_first())
        },
    }
}

/// `location` after going down under each of `names` in turn.
pub open spec fn descended_all(location: LocationView, names: Seq<Seq<char>>) -> LocationView {
    LocationView { root: location.root, trail: location.trail + names }
}

/// The events of choosing the rows named `names`, one after the other,
/// and cancelling then.
pub open spec fn descents_then_cancel(names: Seq<Seq<char>>) -> Seq<Event> {
    names.map_values(|name: Seq<char>| Event::Chose(Some(name))).push(Event::Cancelled)
}

/// Cancelling at any depth ends the loop with exactly one print of a
/// table, as the last effect, and the table printed is that of the
/// location presented last: after going down under any names, each
/// descent has the effect of presenting the location reached, and the
/// cancellation that of printing the table of the last one.
pub proof fn lemma_cancel_prints_last_table(location: LocationView, names: Seq<Seq<char>>)
    ensures
        state_after(NavStateView::Browsing(location), descents_then_cancel(names))
            == NavStateView::Exiting,
        effects(NavStateView::Browsing(location), descents_then_cancel(names)).len() == names.len()
            + 1,
        forall|k: int|
            0 <= k < names.len() ==> #[trigger] effects(
                NavStateView::Browsing(location),
                descents_then_cancel(names),
            )[k] == (Effect::Present, descended_all(location, names.take(k + 1))),
        effects(NavStateView::Browsing(location), descents_then_cancel(names)).last() == (
            Effect::PrintTable,
            descended_all(location, names),
        ),
    decreases names.len(),
{
    let events = descents_then_cancel(names);
    let trace = effects(NavStateView::Browsing(location), events);
    reveal_with_fuel(effects, 2);
    reveal_with_fuel(state_after, 2);
    if names.len() == 0 {
        assert(events[0] == Event::Cancelled);
        assert(events.drop_first().len() == 0);
        assert(location.trail + names == location.trail);
        assert(trace == seq![(Effect::PrintTable, location)]);
    } else {
        let deeper = descended(location, names[0]);
        let rest = names.drop_first();
        assert(events[0] == Event::Chose(Some(names[0])));
        assert(events.drop_first() == descents_then_cancel(rest));
        lemma_cancel_prints_last_table(deeper, rest);
        let tail = effects(NavStateView::Browsing(deeper), descents_then_cancel(rest));
        assert(trace == seq![(Effect::Present, deeper)] + tail);
        assert(deeper.trail + rest == location.trail + names);
        assert forall|k: int| 0 <= k < names.len() implies #[trigger] trace[k] == (
            Effect::Present,
            descended_all(location, names.take(k + 1)),
        ) by {
            if k == 0 {
                assert(location.trail + names.take(1) == location.trail.push(names[0]));
            } else {
                assert(trace[k] == tail[k - 1]);
                assert(deeper.trail + rest.take(k) == location.trail + names.take(k + 1));
            }
        }
    }
}

} // verus!
