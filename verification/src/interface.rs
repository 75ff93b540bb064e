//! What the driver needs from its surroundings: a link to the controller, a
//! reset control and a source of delays; and the journal in which the driver
//! notes what it asked of them.

use vstd::prelude::*;

verus! {

/// Trait to implement the controller communication interface (QSPI, SPI, etc.).
pub trait ControllerInterface {
    /// The specific error type for this interface implementation.
    type Error;

    /// Sends a command byte to the display.
    fn send_command(&mut self, cmd: u8) -> Result<(), Self::Error>;

    /// Sends data bytes to the display following a command.
    fn send_command_with_data(&mut self, cmd: u8, data: &[u8]) -> Result<(), Self::Error>;

    /// Sends pixel data.
    fn send_pixels(&mut self, pixels: &[u8]) -> Result<(), Self::Error>;
}

/// Trait for controlling the hardware reset pin.
pub trait ResetInterface {
    /// The specific error type for this reset implementation.
    type Error;

    /// Performs the hardware reset sequence according to the datasheet definition.
    fn reset(&mut self) -> Result<(), Self::Error>;
}

/// A source of blocking delays.
pub trait DelayMs {
    /// Blocks for `ms` milliseconds.
    fn delay_ms(&mut self, ms: u32);
}

/// One thing that the driver asks of its surroundings.
pub enum Action {
    /// A reset sequence on the reset control.
    Reset,
    /// A command byte without parameters on the display interface.
    Command(u8),
    /// A command byte followed by its parameters on the display interface.
    CommandWithData(u8, Seq<u8>),
    /// One burst of pixel data on the display interface.
    Pixels(Seq<u8>),
    /// A delay of a number of milliseconds.
    Delay(u32),
}

impl Action {
    /// True for an action that can be refused. A delay cannot.
    pub open spec fn can_fail(&self) -> bool {
        !(self is Delay)
    }
}

/// One line of a journal: what was asked, and how it ended.
pub struct Entry<A, E> {
    /// What was asked.
    pub asked: A,
    /// What the one who was asked returned.
    pub outcome: Result<(), E>,
}

/// What a journal shows while the actions of `plan` are asked one by one and
/// the first `k` of them were asked and accepted: it has grown by `k` lines,
/// one for each of those actions, in order; what it showed before is still
/// there.
pub open spec fn progress<A, E>(
    before: Seq<Entry<A, E>>,
    plan: Seq<A>,
    now: Seq<Entry<A, E>>,
    k: int,
) -> bool {
    &&& 0 <= k <= plan.len()
    &&& now.len() == before.len() + k
    &&& now.subrange(0, before.len() as int) == before
    &&& forall|j: int|
        before.len() <= j < now.len() ==> (#[trigger] now[j]).asked == plan[j - before.len()]
            && now[j].outcome is Ok
}

/// What a journal shows after the actions of `plan` were asked one by one,
/// stopping at the first that was refused, with the result `r`.
///
/// What the journal showed before is still there, and behind it stands one
/// line for each action that was asked, in the plan's order; all but the
/// last of them were accepted. With `r` a success every action of the plan
/// was asked and accepted. With `r` an error the last line is the refused
/// action, and `r` is what came back from it.
pub open spec fn ran<A, E>(
    before: Seq<Entry<A, E>>,
    plan: Seq<A>,
    after: Seq<Entry<A, E>>,
    r: Result<(), E>,
) -> bool {
    &&& before.len() <= after.len() <= before.len() + plan.len()
    &&& after.subrange(0, before.len() as int) == before
    &&& forall|j: int|
        before.len() <= j < after.len() ==> (#[trigger] after[j]).asked == plan[j - before.len()]
    &&& forall|j: int| before.len() <= j < after.len() - 1 ==> (#[trigger] after[j]).outcome is Ok
    &&& match r {
        Ok(()) => after.len() == before.len() + plan.len() && (plan.len() > 0
            ==> after.last().outcome is Ok),
        Err(_) => after.len() > before.len() && after.last().outcome == r,
    }
}

/// True where every delay that the journal gained since `before` was
/// accepted: a delay cannot be refused.
pub open spec fn delays_accepted<E>(
    before: Seq<Entry<Action, E>>,
    after: Seq<Entry<Action, E>>,
) -> bool {
    forall|j: int|
        before.len() <= j < after.len() && (#[trigger] after[j]).asked is Delay
            ==> after[j].outcome is Ok
}

/// What the driver's journal shows after the actions of `plan` were asked
/// one by one, stopping at the first that was refused, with the result `r`:
/// see [`ran`]. The refused action, if there is one, is no delay.
pub open spec fn issued<E>(
    before: Seq<Entry<Action, E>>,
    plan: Seq<Action>,
    after: Seq<Entry<Action, E>>,
    r: Result<(), E>,
) -> bool {
    ran(before, plan, after, r) && delays_accepted(before, after)
}

/// One more action of the plan: where the first `k` actions were asked and
/// accepted and the next is asked, the journal shows either the first
/// `k + 1` asked and accepted, or a run that ended with that action refused.
pub proof fn lemma_next_action<A, E>(
    before: Seq<Entry<A, E>>,
    plan: Seq<A>,
    now: Seq<Entry<A, E>>,
    k: int,
    line: Entry<A, E>,
)
    requires
        progress(before, plan, now, k),
        k < plan.len(),
        line.asked == plan[k],
    ensures
        line.outcome is Ok ==> progress(before, plan, now.push(line), k + 1),
        line.outcome is Err ==> ran(before, plan, now.push(line), line.outcome),
{
    let next = now.push(line);
    assert(next.subrange(0, before.len() as int) =~= now.subrange(0, before.len() as int));
    assert forall|j: int| before.len() <= j < next.len() implies (#[trigger] next[j]).asked
        == plan[j - before.len()] by {
        if j < now.len() {
            assert(next[j] == now[j]);
        }
    }
    assert forall|j: int| before.len() <= j < next.len() - 1 implies (#[trigger] next[j]).outcome
        is Ok by {
        assert(next[j] == now[j]);
    }
}

/// A plan whose actions were all asked and accepted has run with success,
/// and a journal that gained nothing shows the progress of no action.
pub proof fn lemma_all_actions<A, E>(
    before: Seq<Entry<A, E>>,
    plan: Seq<A>,
    now: Seq<Entry<A, E>>,
)
    ensures
        progress(before, plan, before, 0),
        progress(before, plan, now, plan.len() as int) ==> ran(before, plan, now, Ok(())),
{
    assert(before.subrange(0, before.len() as int) =~= before);
}

/// The first actions of a longer plan: a run of `plan` that was refused is
/// a run of every plan that starts with `plan`, and progress in `plan` is
/// progress in it.
pub proof fn lemma_longer_plan<A, E>(
    before: Seq<Entry<A, E>>,
    plan: Seq<A>,
    longer: Seq<A>,
    after: Seq<Entry<A, E>>,
    r: Result<(), E>,
)
    requires
        plan.len() <= longer.len(),
        forall|i: int| 0 <= i < plan.len() ==> plan[i] == longer[i],
    ensures
        r is Err && ran(before, plan, after, r) ==> ran(before, longer, after, r),
        ran(before, plan, after, Ok(())) ==> progress(before, longer, after, plan.len() as int),
{
    if ran(before, plan, after, Ok(())) {
        assert forall|j: int| before.len() <= j < after.len() implies (#[trigger] after[j]).asked
            == longer[j - before.len()] && after[j].outcome is Ok by {
            if j < after.len() - 1 {
            } else {
                assert(after[j] == after.last());
            }
        }
    }
}

} // verus!
