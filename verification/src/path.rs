//! The course of one light path: how long it may go on and why it ends.
//!
//! A path starts at the camera with a budget of bounces. At each surface it
//! either ends or goes on with one bounce less; without budget it ends before
//! it looks at the scene at all.

use crate::material::MaterialKind;
use vstd::prelude::*;

verus! {

/// What a ray met in the scene.
#[derive(Debug, Clone, Copy, PartialEq, Eq, Structural)]
pub enum Event {
    /// Nothing: the ray left the scene.
    Miss,
    /// A surface that sends no ray on.
    Absorb,
    /// A surface that sends a ray on.
    Scatter,
}

/// The event that a ray meets: nothing where `surface` is `None`, else a
/// surface of the given kind, which scatters as its kind says. The flag that
/// goes with the kind tells whether the ray that the surface would send on
/// leaves it.
pub open spec fn event_of(surface: Option<(MaterialKind, bool)>) -> Event {
    match surface {
        None => Event::Miss,
        Some((kind, outward)) => if kind.scatters_when(outward) {
            Event::Scatter
        } else {
            Event::Absorb
        },
    }
}

/// Why a path ended, which decides the light it carries.
#[derive(Debug, Clone, Copy, PartialEq, Eq, Structural)]
pub enum Outcome {
    /// The budget ran out: the path carries no light.
    Black,
    /// The ray left the scene: the path carries the background's light.
    Background,
    /// The ray was absorbed: the path carries what the surface emits.
    Emission,
}

/// What follows an event.
#[derive(Debug, Clone, Copy, PartialEq, Eq, Structural)]
pub enum Step {
    /// The path is over.
    Done(Outcome),
    /// The path goes on with the scattered ray and this budget; the light it
    /// finds there is attenuated and added to what the surface emits.
    Continue(usize),
}

/// What follows `event` on a path with `depth` bounces left.
pub open spec fn step_of(depth: usize, event: Event) -> Step {
    if depth == 0 {
        Step::Done(Outcome::Black)
    } else {
        match event {
            Event::Miss => Step::Done(Outcome::Background),
            Event::Absorb => Step::Done(Outcome::Emission),
            Event::Scatter => Step::Continue((depth - 1) as usize),
        }
    }
}

/// A path as far as a list of events takes it.
pub struct Trace {
    /// How many of the events the path has met.
    pub met: nat,
    /// Why the path ended, if it did.
    pub outcome: Option<Outcome>,
}

/// The path that starts with `depth` bounces and meets `events` in order. It
/// looks at no event once it is over.
pub open spec fn trace_of(depth: usize, events: Seq<Event>) -> Trace
    decreases events.len(),
{
    if depth == 0 {
        Trace { met: 0, outcome: Some(Outcome::Black) }
    } else if events.len() == 0 {
        Trace { met: 0, outcome: None }
    } else {
        match step_of(depth, events[0]) {
            Step::Done(outcome) => Trace { met: 1, outcome: Some(outcome) },
            Step::Continue(left) => {
                let rest = trace_of(left, events.drop_first());
                Trace { met: rest.met + 1, outcome: rest.outcome }
            },
        }
    }
}

/// Names what a ray met: nothing, or a surface of a kind together with
/// whether the ray it would send on leaves it.
pub fn meet(surface: Option<(MaterialKind, bool)>) -> (event: Event)
    ensures
        event == event_of(surface),
{
    match surface {
        None => Event::Miss,
        Some((kind, outward)) => {
            if kind.scatters(outward) {
                Event::Scatter
            } else {
                Event::Absorb
            }
        },
    }
}

/// Tells whether a path with `depth` bounces left is over before it meets
/// anything.
pub fn exhausted(depth: usize) -> (over: bool)
    ensures
        over == (depth == 0),
        over == (forall|event: Event| step_of(depth, event) == Step::Done(Outcome::Black)),
{
    proof {
        if depth != 0 {
            assert(step_of(depth, Event::Miss) != Step::Done(Outcome::Black));
        }
    }
    depth == 0
}

/// Decides what follows `event` on a path with `depth` bounces left.
pub fn step(depth: usize, event: Event) -> (next: Step)
    ensures
        next == step_of(depth, event),
        depth == 0 ==> next == Step::Done(Outcome::Black),
        next matches Step::Continue(left) ==> left < depth,
{
    if depth == 0 {
        Step::Done(Outcome::Black)
    } else {
        match event {
            Event::Miss => Step::Done(Outcome::Background),
            Event::Absorb => Step::Done(Outcome::Emission),
            Event::Scatter => Step::Continue(depth - 1),
        }
    }
}

/// A path without budget is black whatever the scene holds, and meets
/// nothing of it.
pub proof fn lemma_no_budget_is_black(events: Seq<Event>)
    ensures
        trace_of(0, events).outcome == Some(Outcome::Black),
        trace_of(0, events).met == 0,
{
}

/// A path with budget that meets a light first ends there, with the light's
/// emission, whatever lies behind.
pub proof fn lemma_light_is_seen_at_once(depth: usize, outward: bool, rest: Seq<Event>)
    requires
        depth > 0,
    ensures
        trace_of(
            depth,
            seq![event_of(Some((MaterialKind::DiffuseLight, outward)))] + rest,
        ).outcome == Some(Outcome::Emission),
        trace_of(depth, seq![event_of(Some((MaterialKind::DiffuseLight, outward)))] + rest).met
            == 1,
{
    let events = seq![event_of(Some((MaterialKind::DiffuseLight, outward)))] + rest;
    assert(events[0] == Event::Absorb);
}

/// A path never meets more events than its budget, and a list of events as
/// long as the budget always brings it to its end.
pub proof fn lemma_budget_bounds_path(depth: usize, events: Seq<Event>)
    ensures
        trace_of(depth, events).met <= depth,
        trace_of(depth, events).met <= events.len(),
        events.len() >= depth ==> trace_of(depth, events).outcome is Some,
    decreases events.len(),
{
    if depth != 0 && events.len() != 0 {
        match step_of(depth, events[0]) {
            Step::Done(_) => {},
            Step::Continue(left) => {
                lemma_budget_bounds_path(left, events.drop_first());
            },
        }
    }
}

/// Only a path of scattering surfaces uses up its budget: a path that ends
/// black has met exactly as many events as it had bounces, each of them a
/// scatter.
pub proof fn lemma_black_means_all_scattered(depth: usize, events: Seq<Event>)
    requires
        trace_of(depth, events).outcome == Some(Outcome::Black),
    ensures
        trace_of(depth, events).met == depth,
        depth <= events.len(),
        forall|i: int| 0 <= i < depth ==> events[i] == Event::Scatter,
    decreases events.len(),
{
    if depth != 0 && events.len() != 0 {
        match step_of(depth, events[0]) {
            Step::Done(_) => {},
            Step::Continue(left) => {
                let rest = events.drop_first();
                lemma_black_means_all_scattered(left, rest);
                assert forall|i: int| 0 <= i < depth implies events[i] == Event::Scatter by {
                    if i > 0 {
                        assert(events[i] == rest[i - 1]);
                    }
                }
            },
        }
    }
}

} // verus!
