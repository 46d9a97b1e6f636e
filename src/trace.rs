use vstd::prelude::*;

verus! {

/// What the scene and the material it exposes did with a traced ray.
#[derive(PartialEq, Eq, Structural, Clone, Copy, Debug)]
pub enum Event {
    /// No primitive was hit in the search interval.
    Missed,
    /// A primitive was hit and its material absorbed the ray.
    Absorbed,
    /// A primitive was hit and its material produced a scattered ray.
    Scattered,
}

/// What the integrator does with a ray once its event is known.
#[derive(PartialEq, Eq, Structural, Clone, Copy, Debug)]
pub enum Step {
    /// The ray contributes black.
    Black,
    /// The ray escaped: it takes the sky gradient along its direction.
    Sky,
    /// The scattered ray is traced with this many bounces left, and its color is
    /// tinted by the material's attenuation.
    Bounce(usize),
}

/// The bounces left to a scattered ray when the current ray was given `depth`,
/// or `None` when the budget is spent and the ray is black without a scene query.
pub open spec fn budget_spec(depth: nat) -> Option<nat> {
    if depth == 0 {
        None
    } else {
        Some((depth - 1) as nat)
    }
}

/// The step taken on `event` when a scattered ray would get `remaining` bounces.
pub open spec fn shade_spec(remaining: nat, event: Event) -> Step {
    match event {
        Event::Missed => Step::Sky,
        Event::Absorbed => Step::Black,
        Event::Scattered => Step::Bounce(remaining as usize),
    }
}

/// The step taken for a ray given `depth` whose scene query would yield `event`.
pub open spec fn step_spec(depth: nat, event: Event) -> Step {
    match budget_spec(depth) {
        None => Step::Black,
        Some(remaining) => shade_spec(remaining, event),
    }
}

/// Checks the bounce budget of a ray about to be traced.
pub fn bounce_budget(depth: usize) -> (r: Option<usize>)
    ensures
        r is None <==> depth == 0,
        r matches Some(d) ==> d + 1 == depth,
{
    if depth == 0 {
        None
    } else {
        Some(depth - 1)
    }
}

/// Decides what follows a scene query, for a ray whose scattered successor gets
/// `remaining` bounces.
pub fn shade(remaining: usize, event: Event) -> (r: Step)
    ensures
        r == shade_spec(remaining as nat, event),
{
    match event {
        Event::Missed => Step::Sky,
        Event::Absorbed => Step::Black,
        Event::Scattered => Step::Bounce(remaining),
    }
}

/// Decides what happens to a ray given `depth` bounces whose scene query yields
/// `event`: an exhausted budget is black whatever the scene holds.
pub fn next_step(depth: usize, event: Event) -> (r: Step)
    ensures
        r == step_spec(depth as nat, event),
        depth == 0 ==> r == Step::Black,
        depth > 0 && event == Event::Missed ==> r == Step::Sky,
        depth > 0 && event == Event::Absorbed ==> r == Step::Black,
        depth > 0 && event == Event::Scattered ==> r == Step::Bounce((depth - 1) as usize),
{
    match bounce_budget(depth) {
        None => Step::Black,
        Some(remaining) => shade(remaining, event),
    }
}

/// The number of bounces a path takes when its first ray gets `depth` and the
/// successive scene queries yield `events` in order.
pub open spec fn bounces(depth: nat, events: Seq<Event>) -> nat
    decreases events.len(),
{
    if events.len() == 0 {
        0
    } else {
        match step_spec(depth, events[0]) {
            Step::Bounce(d) => 1 + bounces(d as nat, events.drop_first()),
            _ => 0,
        }
    }
}

/// Every path ends: whatever the scene yields, a ray given `depth` bounces
/// is scattered at most `depth` times, each successor with one bounce fewer.
pub proof fn lemma_bounces_bounded(depth: nat, events: Seq<Event>)
    ensures
        bounces(depth, events) <= depth,
    decreases events.len(),
{
    if events.len() > 0 {
        if let Step::Bounce(d) = step_spec(depth, events[0]) {
            lemma_bounces_bounded(d as nat, events.drop_first());
        }
    }
}

} // verus!
