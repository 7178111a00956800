//! First-frame work for the current destination and its two neighbors.
//! Cancellation requests do not release slots: only completion does, so a
//! slow-to-cancel decoder cannot cause replacement work to grow without bound.
use vstd::prelude::*;

use crate::paths::{copy_bytes, place, same_path, Place};

verus! {

pub const MAX_ACTIVE: usize = 2;

pub const MAX_NEIGHBORS: usize = 2;

pub enum Interest<T> {
    Foreground(T),
    Neighbor,
}

struct Request<T> {
    path: Vec<u8>,
    interest: Interest<T>,
}

/// A decode to run. The number identifies it where it is to be cancelled.
#[derive(Debug)]
pub struct Job {
    pub path: Vec<u8>,
    pub id: u64,
}

struct Active<T> {
    path: Vec<u8>,
    id: u64,
    cancelled: bool,
    interest: Option<Interest<T>>,
}

pub struct Scheduler<T> {
    active: Vec<Active<T>>,
    pending: Vec<Request<T>>,
    next: u64,
}

/// A request as a value.
#[verifier::ext_equal]
pub struct Wish<T> {
    pub path: Seq<u8>,
    pub interest: Interest<T>,
}

/// A running decode as a value.
#[verifier::ext_equal]
pub struct Run<T> {
    pub path: Seq<u8>,
    pub id: u64,
    pub cancelled: bool,
    pub interest: Option<Interest<T>>,
}

/// The scheduler as a value: what runs, and what waits.
#[verifier::ext_equal]
pub struct Board<T> {
    pub active: Seq<Run<T>>,
    pub pending: Seq<Wish<T>>,
    pub next: u64,
}

impl<T> View for Request<T> {
    type V = Wish<T>;

    closed spec fn view(&self) -> Wish<T> {
        Wish { path: self.path@, interest: self.interest }
    }
}

impl<T> View for Active<T> {
    type V = Run<T>;

    closed spec fn view(&self) -> Run<T> {
        Run {
            path: self.path@,
            id: self.id,
            cancelled: self.cancelled,
            interest: self.interest,
        }
    }
}

spec fn wishes<T>(list: Seq<Request<T>>) -> Seq<Wish<T>> {
    Seq::new(list.len(), |i: int| list[i]@)
}

spec fn running<T>(list: Seq<Active<T>>) -> Seq<Run<T>> {
    Seq::new(list.len(), |i: int| list[i]@)
}

impl<T> View for Scheduler<T> {
    type V = Board<T>;

    closed spec fn view(&self) -> Board<T> {
        Board {
            active: running(self.active@),
            pending: wishes(self.pending@),
            next: self.next,
        }
    }
}

/// The position of the first wish for a place, or the number of wishes.
pub open spec fn wish_at<T>(pending: Seq<Wish<T>>, at: Place) -> int
    decreases pending.len(),
{
    if pending.len() == 0 || place(pending[0].path) == at {
        0
    } else {
        1 + wish_at(pending.skip(1), at)
    }
}

/// The position of the first running decode of a place, or the number of decodes.
pub open spec fn run_at<T>(active: Seq<Run<T>>, at: Place) -> int
    decreases active.len(),
{
    if active.len() == 0 || place(active[0].path) == at {
        0
    } else {
        1 + run_at(active.skip(1), at)
    }
}

proof fn wish_at_bounds<T>(pending: Seq<Wish<T>>, at: Place)
    ensures
        0 <= wish_at(pending, at) <= pending.len(),
        forall|i: int| 0 <= i < wish_at(pending, at) ==> place((#[trigger] pending[i]).path) != at,
        wish_at(pending, at) < pending.len() ==> place(pending[wish_at(pending, at)].path) == at,
    decreases pending.len(),
{
    if pending.len() > 0 && place(pending[0].path) != at {
        let rest = pending.skip(1);
        wish_at_bounds(rest, at);
        assert forall|i: int| 0 <= i < wish_at(pending, at) implies place(
            (#[trigger] pending[i]).path,
        ) != at by {
            if i > 0 {
                assert(rest[i - 1] == pending[i]);
            }
        }
        if wish_at(pending, at) < pending.len() {
            assert(rest[wish_at(rest, at)] == pending[wish_at(pending, at)]);
        }
    }
}

proof fn run_at_bounds<T>(active: Seq<Run<T>>, at: Place)
    ensures
        0 <= run_at(active, at) <= active.len(),
        forall|i: int| 0 <= i < run_at(active, at) ==> place((#[trigger] active[i]).path) != at,
        run_at(active, at) < active.len() ==> place(active[run_at(active, at)].path) == at,
    decreases active.len(),
{
    if active.len() > 0 && place(active[0].path) != at {
        let rest = active.skip(1);
        run_at_bounds(rest, at);
        assert forall|i: int| 0 <= i < run_at(active, at) implies place(
            (#[trigger] active[i]).path,
        ) != at by {
            if i > 0 {
                assert(rest[i - 1] == active[i]);
            }
        }
        if run_at(active, at) < active.len() {
            assert(rest[run_at(rest, at)] == active[run_at(active, at)]);
        }
    }
}

/// One more wish for a neighbor, unless the place is wished for already.
pub open spec fn with_neighbor<T>(pending: Seq<Wish<T>>, path: Seq<u8>) -> Seq<Wish<T>> {
    if wish_at(pending, place(path)) < pending.len() {
        pending
    } else {
        pending.push(Wish { path, interest: Interest::Neighbor })
    }
}

/// What is wanted: the foreground first, and the first `count` neighbors.
pub open spec fn wanted<T>(
    foreground: Option<(Seq<u8>, T)>,
    neighbors: Seq<Seq<u8>>,
    count: nat,
) -> Seq<Wish<T>>
    decreases count,
{
    if count == 0 {
        match foreground {
            Some((path, token)) => seq![Wish { path, interest: Interest::Foreground(token) }],
            None => Seq::empty(),
        }
    } else {
        with_neighbor(wanted(foreground, neighbors, (count - 1) as nat), neighbors[count - 1])
    }
}

/// One running decode takes over the wish for its place; without one, or once it
/// was cancelled, it is cancelled and nobody waits for it.
pub open spec fn assigned_one<T>(run: Run<T>, pending: Seq<Wish<T>>) -> (Run<T>, Seq<Wish<T>>) {
    let at = wish_at(pending, place(run.path));
    if !run.cancelled && at < pending.len() {
        (Run { interest: Some(pending[at].interest), ..run }, pending.remove(at))
    } else {
        (Run { interest: None, cancelled: true, ..run }, pending)
    }
}

/// All running decodes take over their wishes, in order.
pub open spec fn assigned<T>(active: Seq<Run<T>>, pending: Seq<Wish<T>>) -> (
    Seq<Run<T>>,
    Seq<Wish<T>>,
)
    decreases active.len(),
{
    if active.len() == 0 {
        (active, pending)
    } else {
        let (before, left) = assigned(active.drop_last(), pending);
        let (run, rest) = assigned_one(active.last(), left);
        (before.push(run), rest)
    }
}

pub open spec fn is_speculation<T>(run: Run<T>) -> bool {
    run.interest matches Some(Interest::Neighbor)
}

/// Every speculative decode but the first goes back to waiting and is cancelled.
pub open spec fn preempted<T>(active: Seq<Run<T>>, pending: Seq<Wish<T>>) -> (
    Seq<Run<T>>,
    Seq<Wish<T>>,
    bool,
)
    decreases active.len(),
{
    if active.len() == 0 {
        (active, pending, false)
    } else {
        let (before, waiting, kept) = preempted(active.drop_last(), pending);
        let run = active.last();
        if is_speculation(run) {
            if kept {
                (
                    before.push(Run { interest: None, cancelled: true, ..run }),
                    waiting.push(Wish { path: run.path, interest: Interest::Neighbor }),
                    true,
                )
            } else {
                (before.push(run), waiting, true)
            }
        } else {
            (before.push(run), waiting, kept)
        }
    }
}

/// The numbers of decodes that were cancelled between two states.
pub open spec fn newly_cancelled<T>(before: Seq<Run<T>>, after: Seq<Run<T>>) -> Seq<u64>
    decreases before.len(),
{
    if before.len() == 0 || after.len() != before.len() {
        Seq::empty()
    } else {
        let rest = newly_cancelled(before.drop_last(), after.drop_last());
        if !before.last().cancelled && after.last().cancelled {
            rest.push(before.last().id)
        } else {
            rest
        }
    }
}

pub open spec fn is_foreground<T>(wish: Wish<T>) -> bool {
    wish.interest is Foreground
}

pub open spec fn waits_for_foreground<T>(pending: Seq<Wish<T>>) -> bool {
    exists|i: int| 0 <= i < pending.len() && is_foreground(#[trigger] pending[i])
}

pub open spec fn speculates<T>(active: Seq<Run<T>>) -> bool {
    exists|i: int| 0 <= i < active.len() && is_speculation(#[trigger] active[i])
}

impl<T> Board<T> {
    pub open spec fn replaced(
        self,
        foreground: Option<(Seq<u8>, T)>,
        neighbors: Seq<Seq<u8>>,
    ) -> Board<T> {
        let count = if neighbors.len() < MAX_NEIGHBORS {
            neighbors.len()
        } else {
            MAX_NEIGHBORS as nat
        };
        let (active, left) = assigned(self.active, wanted(foreground, neighbors, count));
        let (kept, pending, _) = preempted(active, left);
        Board { active: kept, pending, next: self.next }
    }

    /// Whether a wish may start now: nothing runs for its place, and it is the
    /// foreground, or no foreground waits and nothing else is speculated on.
    pub open spec fn may_start(self, wish: Wish<T>) -> bool {
        &&& run_at(self.active, place(wish.path)) == self.active.len()
        &&& is_foreground(wish) || (!waits_for_foreground(self.pending) && !speculates(self.active))
    }

    /// The position of the first wish that may start, or the number of wishes.
    pub open spec fn startable(self, from: int) -> int
        decreases self.pending.len() - from,
    {
        if from >= self.pending.len() || self.may_start(self.pending[from]) {
            from
        } else {
            self.startable(from + 1)
        }
    }

    pub open spec fn started(self) -> Option<(Board<T>, Seq<u8>, u64)> {
        let at = self.startable(0);
        if self.active.len() < MAX_ACTIVE && at < self.pending.len() {
            let wish = self.pending[at];
            let id = crate::folder::following(self.next);
            Some(
                (
                    Board {
                        active: self.active.push(
                            Run {
                                path: wish.path,
                                id,
                                cancelled: false,
                                interest: Some(wish.interest),
                            },
                        ),
                        pending: self.pending.remove(at),
                        next: id,
                    },
                    wish.path,
                    id,
                ),
            )
        } else {
            None
        }
    }

    pub open spec fn finished(self, path: Seq<u8>) -> Board<T> {
        let at = run_at(self.active, place(path));
        if at < self.active.len() {
            Board { active: self.active.remove(at), ..self }
        } else {
            self
        }
    }

    /// Who the result of a decode is for.
    pub open spec fn recipient(self, path: Seq<u8>) -> Option<Interest<T>> {
        let at = run_at(self.active, place(path));
        if at < self.active.len() {
            self.active[at].interest
        } else {
            None
        }
    }

    pub open spec fn invalidated(self, path: Seq<u8>) -> Board<T> {
        let kept = retained(self.pending, place(path));
        let at = run_at(self.active, place(path));
        if at < self.active.len() {
            let run = self.active[at];
            let stopped = self.active.update(at, Run { interest: None, cancelled: true, ..run });
            match run.interest {
                Some(Interest::Foreground(token)) => Board {
                    active: stopped,
                    pending: seq![Wish { path: run.path, interest: Interest::Foreground(token) }]
                        + kept,
                    next: self.next,
                },
                _ => Board { active: stopped, pending: kept, next: self.next },
            }
        } else {
            Board { pending: kept, ..self }
        }
    }

    pub open spec fn all_cancelled(self) -> Board<T> {
        Board {
            active: Seq::new(
                self.active.len(),
                |i: int| Run { interest: None, cancelled: true, ..self.active[i] },
            ),
            pending: Seq::empty(),
            next: self.next,
        }
    }

    /// What holds at all times: work is bounded, no place is decoded twice or
    /// wished for twice, at most one decode is speculative, at most one demand is
    /// the foreground, and exactly the decodes that nobody waits for are cancelled.
    pub open spec fn wf(self) -> bool {
        &&& self.active.len() <= MAX_ACTIVE
        &&& self.pending.len() + interested(self.active) <= 1 + MAX_NEIGHBORS
        &&& runs_distinct(self.active)
        &&& wishes_distinct(self.pending)
        &&& apart(self.active, self.pending)
        &&& speculations(self.active) <= 1
        &&& foreground_runs(self.active) + foregrounds(self.pending) <= 1
        &&& settled(self.active)
    }
}

/// The wishes that stay when a place is invalidated: those for other places, and
/// the foreground.
pub open spec fn retained<T>(pending: Seq<Wish<T>>, at: Place) -> Seq<Wish<T>>
    decreases pending.len(),
{
    if pending.len() == 0 {
        pending
    } else {
        let before = retained(pending.drop_last(), at);
        let wish = pending.last();
        if place(wish.path) != at || is_foreground(wish) {
            before.push(wish)
        } else {
            before
        }
    }
}

/// How many running decodes somebody waits for.
pub open spec fn interested<T>(active: Seq<Run<T>>) -> int
    decreases active.len(),
{
    if active.len() == 0 {
        0
    } else {
        interested(active.drop_last()) + if active.last().interest is Some {
            1int
        } else {
            0
        }
    }
}

pub open spec fn speculations<T>(active: Seq<Run<T>>) -> int
    decreases active.len(),
{
    if active.len() == 0 {
        0
    } else {
        speculations(active.drop_last()) + if is_speculation(active.last()) {
            1int
        } else {
            0
        }
    }
}

pub open spec fn foreground_runs<T>(active: Seq<Run<T>>) -> int
    decreases active.len(),
{
    if active.len() == 0 {
        0
    } else {
        foreground_runs(active.drop_last()) + if active.last().interest matches Some(
            Interest::Foreground(_),
        ) {
            1int
        } else {
            0
        }
    }
}

pub open spec fn foregrounds<T>(pending: Seq<Wish<T>>) -> int
    decreases pending.len(),
{
    if pending.len() == 0 {
        0
    } else {
        foregrounds(pending.drop_last()) + if is_foreground(pending.last()) {
            1int
        } else {
            0
        }
    }
}

pub open spec fn runs_distinct<T>(active: Seq<Run<T>>) -> bool {
    forall|i: int, j: int|
        0 <= i < j < active.len() ==> place((#[trigger] active[i]).path) != place(
            (#[trigger] active[j]).path,
        )
}

pub open spec fn wishes_distinct<T>(pending: Seq<Wish<T>>) -> bool {
    forall|i: int, j: int|
        0 <= i < j < pending.len() ==> place((#[trigger] pending[i]).path) != place(
            (#[trigger] pending[j]).path,
        )
}

/// No place is waited for both in a running decode and in the queue.
pub open spec fn apart<T>(active: Seq<Run<T>>, pending: Seq<Wish<T>>) -> bool {
    forall|i: int, j: int|
        0 <= i < active.len() && 0 <= j < pending.len() && (#[trigger] active[i]).interest is Some
            ==> place(active[i].path) != place((#[trigger] pending[j]).path)
}

/// A decode is cancelled exactly where nobody waits for it.
pub open spec fn settled<T>(active: Seq<Run<T>>) -> bool {
    forall|i: int|
        0 <= i < active.len() ==> ((#[trigger] active[i]).cancelled <==> active[i].interest is None)
}

proof fn wanted_is_sound<T>(
    foreground: Option<(Seq<u8>, T)>,
    neighbors: Seq<Seq<u8>>,
    count: nat,
)
    ensures
        wishes_distinct(wanted(foreground, neighbors, count)),
        wanted(foreground, neighbors, count).len() <= 1 + count,
        0 <= foregrounds(wanted(foreground, neighbors, count)) <= 1,
    decreases count,
{
    reveal_with_fuel(foregrounds, 2);
    if count > 0 {
        let fewer = wanted(foreground, neighbors, (count - 1) as nat);
        wanted_is_sound(foreground, neighbors, (count - 1) as nat);
        let path = neighbors[count - 1];
        wish_at_bounds(fewer, place(path));
        if wish_at(fewer, place(path)) == fewer.len() {
            let more = fewer.push(Wish { path, interest: Interest::Neighbor });
            assert(more.drop_last() =~= fewer);
        }
    }
}

proof fn foregrounds_bounds<T>(pending: Seq<Wish<T>>)
    ensures
        0 <= foregrounds(pending) <= pending.len(),
        foregrounds(pending) == 0 <==> !waits_for_foreground(pending),
    decreases pending.len(),
{
    if pending.len() > 0 {
        let shorter = pending.drop_last();
        foregrounds_bounds(shorter);
        if is_foreground(pending.last()) {
            assert(is_foreground(pending[pending.len() - 1]));
        }
        if waits_for_foreground(shorter) {
            let i = choose|i: int| 0 <= i < shorter.len() && is_foreground(#[trigger] shorter[i]);
            assert(is_foreground(pending[i]));
        }
        if waits_for_foreground(pending) {
            let i = choose|i: int| 0 <= i < pending.len() && is_foreground(#[trigger] pending[i]);
            if i < shorter.len() {
                assert(is_foreground(shorter[i]));
            }
        }
    }
}

proof fn foregrounds_without<T>(pending: Seq<Wish<T>>, at: int)
    requires
        0 <= at < pending.len(),
    ensures
        foregrounds(pending) == foregrounds(pending.remove(at)) + if is_foreground(pending[at]) {
            1int
        } else {
            0
        },
    decreases pending.len(),
{
    let rest = pending.remove(at);
    if at == pending.len() - 1 {
        assert(rest =~= pending.drop_last());
    } else {
        foregrounds_without(pending.drop_last(), at);
        assert(rest.drop_last() =~= pending.drop_last().remove(at));
        assert(rest.last() == pending.last());
    }
}

proof fn removal_keeps_wishes_distinct<T>(pending: Seq<Wish<T>>, at: int)
    requires
        wishes_distinct(pending),
        0 <= at < pending.len(),
    ensures
        wishes_distinct(pending.remove(at)),
        forall|i: int|
            0 <= i < pending.len() - 1 ==> place((#[trigger] pending.remove(at)[i]).path) != place(
                pending[at].path,
            ),
{
    let rest = pending.remove(at);
    assert forall|i: int, j: int| 0 <= i < j < rest.len() implies place((#[trigger] rest[i]).path)
        != place((#[trigger] rest[j]).path) by {
        let a = if i < at { i } else { i + 1 };
        let b = if j < at { j } else { j + 1 };
        assert(rest[i] == pending[a] && rest[j] == pending[b]);
        assert(place(pending[a].path) != place(pending[b].path));
    }
    assert forall|i: int| 0 <= i < rest.len() implies place((#[trigger] rest[i]).path) != place(
        pending[at].path,
    ) by {
        let a = if i < at { i } else { i + 1 };
        assert(rest[i] == pending[a]);
        if a < at {
            assert(place(pending[a].path) != place(pending[at].path));
        } else {
            assert(place(pending[at].path) != place(pending[a].path));
        }
    }
}

proof fn assignment_is_sound<T>(active: Seq<Run<T>>, pending: Seq<Wish<T>>)
    requires
        runs_distinct(active),
        wishes_distinct(pending),
    ensures
        ({
            let (after, left) = assigned(active, pending);
            &&& after.len() == active.len()
            &&& forall|i: int|
                0 <= i < active.len() ==> (#[trigger] after[i]).path == active[i].path
                    && after[i].id == active[i].id && (active[i].cancelled ==> after[i].cancelled)
            &&& settled(after)
            &&& runs_distinct(after)
            &&& wishes_distinct(left)
            &&& apart(after, left)
            &&& left.len() + interested(after) == pending.len()
            &&& foreground_runs(after) + foregrounds(left) == foregrounds(pending)
            &&& interested(after) >= 0
            &&& foreground_runs(after) >= 0
        }),
    decreases active.len(),
{
    if active.len() > 0 {
        let fewer = active.drop_last();
        assert forall|i: int, j: int| 0 <= i < j < fewer.len() implies place(
            (#[trigger] fewer[i]).path,
        ) != place((#[trigger] fewer[j]).path) by {
            assert(place(active[i].path) != place(active[j].path));
        }
        assignment_is_sound(fewer, pending);
        let (before, middle) = assigned(fewer, pending);
        let last = active.last();
        let (run, left) = assigned_one(last, middle);
        let after = before.push(run);
        let at = wish_at(middle, place(last.path));
        wish_at_bounds(middle, place(last.path));
        assert(after.drop_last() =~= before);
        if !last.cancelled && at < middle.len() {
            removal_keeps_wishes_distinct(middle, at);
            foregrounds_without(middle, at);
        }
        assert forall|i: int, j: int|
            0 <= i < after.len() && 0 <= j < left.len() && (#[trigger] after[i]).interest is Some
                implies place(after[i].path) != place((#[trigger] left[j]).path) by {
            if i < before.len() {
                assert(after[i] == before[i]);
                if left == middle {
                    assert(place(before[i].path) != place(middle[j].path));
                } else {
                    let b = if j < at { j } else { j + 1 };
                    assert(left[j] == middle[b]);
                    assert(place(before[i].path) != place(middle[b].path));
                }
            }
        }
        assert forall|i: int, j: int| 0 <= i < j < after.len() implies place(
            (#[trigger] after[i]).path,
        ) != place((#[trigger] after[j]).path) by {
            assert(after[i].path == active[i].path);
            assert(after[j].path == active[j].path);
            assert(place(active[i].path) != place(active[j].path));
        }
    }
}

proof fn preemption_is_sound<T>(active: Seq<Run<T>>, pending: Seq<Wish<T>>)
    requires
        runs_distinct(active),
        wishes_distinct(pending),
        apart(active, pending),
        settled(active),
    ensures
        ({
            let (after, waiting, kept) = preempted(active, pending);
            &&& after.len() == active.len()
            &&& forall|i: int|
                0 <= i < active.len() ==> (#[trigger] after[i]).path == active[i].path
                    && after[i].id == active[i].id && (active[i].cancelled ==> after[i].cancelled)
                    && (after[i].interest is Some ==> after[i].interest == active[i].interest)
            &&& settled(after)
            &&& runs_distinct(after)
            &&& wishes_distinct(waiting)
            &&& apart(after, waiting)
            &&& waiting.len() + interested(after) == pending.len() + interested(active)
            &&& foreground_runs(after) == foreground_runs(active)
            &&& foregrounds(waiting) == foregrounds(pending)
            &&& speculations(after) == if kept {
                1int
            } else {
                0
            }
            &&& forall|j: int|
                pending.len() <= j < waiting.len() ==> exists|i: int|
                    0 <= i < active.len() && (#[trigger] waiting[j]).path == (
                    #[trigger] active[i]).path
            &&& pending.len() <= waiting.len()
            &&& forall|j: int| 0 <= j < pending.len() ==> #[trigger] waiting[j] == pending[j]
        }),
    decreases active.len(),
{
    if active.len() > 0 {
        let fewer = active.drop_last();
        assert forall|i: int, j: int| 0 <= i < j < fewer.len() implies place(
            (#[trigger] fewer[i]).path,
        ) != place((#[trigger] fewer[j]).path) by {
            assert(place(active[i].path) != place(active[j].path));
        }
        assert forall|i: int, j: int|
            0 <= i < fewer.len() && 0 <= j < pending.len() && (#[trigger] fewer[i]).interest is Some
                implies place(fewer[i].path) != place((#[trigger] pending[j]).path) by {
            assert(place(active[i].path) != place(pending[j].path));
        }
        assert forall|i: int| 0 <= i < fewer.len() implies ((#[trigger] fewer[i]).cancelled
            <==> fewer[i].interest is None) by {
            assert(fewer[i] == active[i]);
        }
        preemption_is_sound(fewer, pending);
        let (before, middle, kept) = preempted(fewer, pending);
        let (after, waiting, _) = preempted(active, pending);
        let last = active.last();
        assert(active[active.len() - 1] == last);
        assert(after.drop_last() =~= before);
        assert(after.last().path == last.path);
        let extra = is_speculation(last) && kept;
        if extra {
            assert(waiting.drop_last() =~= middle);
        }
        // The last decode's place is new to the queue.
        assert forall|j: int| 0 <= j < middle.len() && last.interest is Some implies place(
            (#[trigger] middle[j]).path,
        ) != place(last.path) by {
            if j < pending.len() {
                assert(middle[j] == pending[j]);
                assert(place(active[active.len() - 1].path) != place(pending[j].path));
            } else {
                let i = choose|i: int|
                    0 <= i < fewer.len() && middle[j].path == (#[trigger] fewer[i]).path;
                assert(fewer[i] == active[i]);
                assert(place(active[i].path) != place(active[active.len() - 1].path));
            }
        }
        assert forall|i: int, j: int| 0 <= i < j < waiting.len() implies place(
            (#[trigger] waiting[i]).path,
        ) != place((#[trigger] waiting[j]).path) by {
            assert(waiting[i] == middle[i] || (extra && i == middle.len()));
            if j < middle.len() {
                assert(waiting[j] == middle[j]);
            }
        }
        assert forall|i: int, j: int| 0 <= i < j < after.len() implies place(
            (#[trigger] after[i]).path,
        ) != place((#[trigger] after[j]).path) by {
            if i < before.len() {
                assert(after[i].path == active[i].path);
            }
            if j < before.len() {
                assert(after[j].path == active[j].path);
            }
            assert(place(active[i].path) != place(active[j].path));
        }
        assert forall|i: int, j: int|
            0 <= i < after.len() && 0 <= j < waiting.len() && (#[trigger] after[i]).interest is Some
                implies place(after[i].path) != place((#[trigger] waiting[j]).path) by {
            if i < before.len() {
                assert(after[i] == before[i]);
                if j < middle.len() {
                    assert(waiting[j] == middle[j]);
                    assert(place(before[i].path) != place(middle[j].path));
                } else {
                    assert(before[i].path == fewer[i].path);
                    assert(fewer[i] == active[i]);
                    assert(place(active[i].path) != place(active[active.len() - 1].path));
                }
            } else {
                assert(waiting[j] == middle[j]);
            }
        }
        assert forall|j: int| pending.len() <= j < waiting.len() implies exists|i: int|
            0 <= i < active.len() && (#[trigger] waiting[j]).path == (#[trigger] active[i]).path by {
            if j < middle.len() {
                assert(waiting[j] == middle[j]);
                let i = choose|i: int|
                    0 <= i < fewer.len() && middle[j].path == (#[trigger] fewer[i]).path;
                assert(fewer[i] == active[i]);
            } else {
                assert(waiting[j].path == active[active.len() - 1].path);
            }
        }
    }
}

/// Replacing demand keeps work bounded, and never revives a cancelled decode:
/// decodes keep their places and numbers, and those cancelled stay cancelled.
pub proof fn replacement_is_sound<T>(
    board: Board<T>,
    foreground: Option<(Seq<u8>, T)>,
    neighbors: Seq<Seq<u8>>,
)
    requires
        board.wf(),
    ensures
        board.replaced(foreground, neighbors).wf(),
        board.replaced(foreground, neighbors).active.len() == board.active.len(),
        forall|i: int|
            0 <= i < board.active.len() ==> {
                let after = #[trigger] board.replaced(foreground, neighbors).active[i];
                &&& after.path == board.active[i].path
                &&& after.id == board.active[i].id
                &&& board.active[i].cancelled ==> after.cancelled && after.interest is None
            },
{
    let count = if neighbors.len() < MAX_NEIGHBORS {
        neighbors.len()
    } else {
        MAX_NEIGHBORS as nat
    };
    let list = wanted(foreground, neighbors, count);
    wanted_is_sound(foreground, neighbors, count);
    assignment_is_sound(board.active, list);
    let (active, left) = assigned(board.active, list);
    preemption_is_sound(active, left);
    let (kept, pending, _) = preempted(active, left);
    assert(board.replaced(foreground, neighbors) == (Board {
        active: kept,
        pending,
        next: board.next,
    }));
}

/// The foreground is waited for after it was asked for: by a decode that runs or
/// by the queue.
pub proof fn foreground_demand_is_kept<T>(
    board: Board<T>,
    path: Seq<u8>,
    token: T,
    neighbors: Seq<Seq<u8>>,
)
    requires
        board.wf(),
    ensures
        foreground_runs(board.replaced(Some((path, token)), neighbors).active) + foregrounds(
            board.replaced(Some((path, token)), neighbors).pending,
        ) == 1,
{
    let foreground = Some((path, token));
    let count = if neighbors.len() < MAX_NEIGHBORS {
        neighbors.len()
    } else {
        MAX_NEIGHBORS as nat
    };
    wanted_is_sound(foreground, neighbors, count);
    wanted_has_foreground(path, token, neighbors, count);
    let list = wanted(foreground, neighbors, count);
    assignment_is_sound(board.active, list);
    let (active, left) = assigned(board.active, list);
    preemption_is_sound(active, left);
}

proof fn wanted_has_foreground<T>(
    path: Seq<u8>,
    token: T,
    neighbors: Seq<Seq<u8>>,
    count: nat,
)
    ensures
        foregrounds(wanted(Some((path, token)), neighbors, count)) == 1,
    decreases count,
{
    reveal_with_fuel(foregrounds, 2);
    if count > 0 {
        let fewer = wanted(Some((path, token)), neighbors, (count - 1) as nat);
        wanted_has_foreground(path, token, neighbors, (count - 1) as nat);
        let more = fewer.push(Wish { path: neighbors[count - 1], interest: Interest::Neighbor });
        assert(more.drop_last() =~= fewer);
    }
}

spec fn one_if(condition: bool) -> int {
    if condition {
        1
    } else {
        0
    }
}

proof fn counts_bounds<T>(active: Seq<Run<T>>)
    ensures
        0 <= interested(active) <= active.len(),
        0 <= foreground_runs(active),
        0 <= speculations(active),
        foreground_runs(active) + speculations(active) == interested(active),
        speculations(active) == 0 <==> !speculates(active),
    decreases active.len(),
{
    if active.len() > 0 {
        let shorter = active.drop_last();
        counts_bounds(shorter);
        if is_speculation(active.last()) {
            assert(is_speculation(active[active.len() - 1]));
        }
        if speculates(shorter) {
            let i = choose|i: int| 0 <= i < shorter.len() && is_speculation(#[trigger] shorter[i]);
            assert(is_speculation(active[i]));
        }
        if speculates(active) {
            let i = choose|i: int| 0 <= i < active.len() && is_speculation(#[trigger] active[i]);
            if i < shorter.len() {
                assert(is_speculation(shorter[i]));
            }
        }
    }
}

proof fn counts_without<T>(active: Seq<Run<T>>, at: int)
    requires
        0 <= at < active.len(),
    ensures
        interested(active) == interested(active.remove(at)) + one_if(active[at].interest is Some),
        speculations(active) == speculations(active.remove(at)) + one_if(
            is_speculation(active[at]),
        ),
        foreground_runs(active) == foreground_runs(active.remove(at)) + one_if(
            active[at].interest matches Some(Interest::Foreground(_)),
        ),
    decreases active.len(),
{
    let rest = active.remove(at);
    if at == active.len() - 1 {
        assert(rest =~= active.drop_last());
    } else {
        counts_without(active.drop_last(), at);
        assert(rest.drop_last() =~= active.drop_last().remove(at));
        assert(rest.last() == active.last());
    }
}

proof fn counts_updated<T>(active: Seq<Run<T>>, at: int, run: Run<T>)
    requires
        0 <= at < active.len(),
    ensures
        interested(active.update(at, run)) == interested(active) - one_if(
            active[at].interest is Some,
        ) + one_if(run.interest is Some),
        speculations(active.update(at, run)) == speculations(active) - one_if(
            is_speculation(active[at]),
        ) + one_if(is_speculation(run)),
        foreground_runs(active.update(at, run)) == foreground_runs(active) - one_if(
            active[at].interest matches Some(Interest::Foreground(_)),
        ) + one_if(run.interest matches Some(Interest::Foreground(_))),
    decreases active.len(),
{
    let after = active.update(at, run);
    if at == active.len() - 1 {
        assert(after.drop_last() =~= active.drop_last());
    } else {
        counts_updated(active.drop_last(), at, run);
        assert(after.drop_last() =~= active.drop_last().update(at, run));
        assert(after.last() == active.last());
    }
}

/// Starting keeps work bounded. Where the foreground waits, nothing but the
/// foreground starts.
pub proof fn starting_is_sound<T>(board: Board<T>)
    requires
        board.wf(),
    ensures
        match board.started() {
            Some((after, path, id)) => {
                &&& after.wf()
                &&& id == after.next
                &&& (waits_for_foreground(board.pending) ==> (after.active.last().interest matches Some(
                    Interest::Foreground(_),
                )))
                &&& run_at(board.active, place(path)) == board.active.len()
            },
            None => true,
        },
{
    let at = board.startable(0);
    startable_bounds(board, 0);
    if board.active.len() < MAX_ACTIVE && at < board.pending.len() {
        let wish = board.pending[at];
        let (after, path, id) = board.started()->0;
        let run = after.active.last();
        assert(board.may_start(wish));
        run_at_bounds(board.active, place(wish.path));
        foregrounds_without(board.pending, at);
        foregrounds_bounds(board.pending);
        foregrounds_bounds(after.pending);
        removal_keeps_wishes_distinct(board.pending, at);
        counts_bounds(board.active);
        assert(after.active.drop_last() =~= board.active);
        assert forall|i: int, j: int| 0 <= i < j < after.active.len() implies place(
            (#[trigger] after.active[i]).path,
        ) != place((#[trigger] after.active[j]).path) by {
            assert(after.active[i] == board.active[i]);
            if j < board.active.len() {
                assert(after.active[j] == board.active[j]);
            }
        }
        assert forall|i: int, j: int|
            0 <= i < after.active.len() && 0 <= j < after.pending.len() && (
            #[trigger] after.active[i]).interest is Some implies place(after.active[i].path)
            != place((#[trigger] after.pending[j]).path) by {
            let b = if j < at { j } else { j + 1 };
            assert(after.pending[j] == board.pending[b]);
            if i < board.active.len() {
                assert(after.active[i] == board.active[i]);
                assert(place(board.active[i].path) != place(board.pending[b].path));
            }
        }
    }
}

proof fn startable_bounds<T>(board: Board<T>, from: int)
    requires
        0 <= from <= board.pending.len(),
    ensures
        from <= board.startable(from) <= board.pending.len(),
        board.startable(from) < board.pending.len() ==> board.may_start(
            board.pending[board.startable(from)],
        ),
    decreases board.pending.len() - from,
{
    if from < board.pending.len() && !board.may_start(board.pending[from]) {
        startable_bounds(board, from + 1);
    }
}

/// Finishing a decode is what releases its slot.
pub proof fn finishing_is_sound<T>(board: Board<T>, path: Seq<u8>)
    requires
        board.wf(),
    ensures
        board.finished(path).wf(),
        run_at(board.active, place(path)) < board.active.len() ==> board.finished(
            path,
        ).active.len() == board.active.len() - 1,
        run_at(board.finished(path).active, place(path)) == board.finished(path).active.len(),
{
    let at = run_at(board.active, place(path));
    run_at_bounds(board.active, place(path));
    let after = board.finished(path);
    run_at_bounds(after.active, place(path));
    if at < board.active.len() {
        counts_without(board.active, at);
        assert forall|i: int| 0 <= i < after.active.len() implies #[trigger] after.active[i]
            == board.active[if i < at { i } else { i + 1 }] by {}
        assert forall|i: int, j: int| 0 <= i < j < after.active.len() implies place(
            (#[trigger] after.active[i]).path,
        ) != place((#[trigger] after.active[j]).path) by {
            let a = if i < at { i } else { i + 1 };
            let b = if j < at { j } else { j + 1 };
            assert(place(board.active[a].path) != place(board.active[b].path));
        }
        assert forall|i: int, j: int|
            0 <= i < after.active.len() && 0 <= j < after.pending.len() && (
            #[trigger] after.active[i]).interest is Some implies place(after.active[i].path)
            != place((#[trigger] after.pending[j]).path) by {
            let a = if i < at { i } else { i + 1 };
            assert(place(board.active[a].path) != place(board.pending[j].path));
        }
        let found = run_at(after.active, place(path));
        if found < after.active.len() {
            let a = if found < at { found } else { found + 1 };
            if a < at {
                assert(place(board.active[a].path) != place(board.active[at].path));
            } else {
                assert(place(board.active[at].path) != place(board.active[a].path));
            }
        }
    }
}

proof fn retained_is_sound<T>(pending: Seq<Wish<T>>, at: Place)
    requires
        wishes_distinct(pending),
    ensures
        wishes_distinct(retained(pending, at)),
        retained(pending, at).len() <= pending.len(),
        foregrounds(retained(pending, at)) == foregrounds(pending),
        forall|i: int|
            0 <= i < retained(pending, at).len() ==> exists|k: int|
                0 <= k < pending.len() && #[trigger] retained(pending, at)[i]
                    == #[trigger] pending[k],
    decreases pending.len(),
{
    if pending.len() > 0 {
        let fewer = pending.drop_last();
        assert forall|i: int, j: int| 0 <= i < j < fewer.len() implies place(
            (#[trigger] fewer[i]).path,
        ) != place((#[trigger] fewer[j]).path) by {
            assert(place(pending[i].path) != place(pending[j].path));
        }
        retained_is_sound(fewer, at);
        let before = retained(fewer, at);
        let after = retained(pending, at);
        let last = pending.last();
        assert(pending[pending.len() - 1] == last);
        assert forall|i: int| 0 <= i < before.len() implies place((#[trigger] before[i]).path)
            != place(last.path) by {
            let k = choose|k: int| 0 <= k < fewer.len() && before[i] == #[trigger] fewer[k];
            assert(fewer[k] == pending[k]);
            assert(place(pending[k].path) != place(pending[pending.len() - 1].path));
        }
        if after.len() > before.len() {
            assert(after.drop_last() =~= before);
        }
        assert forall|i: int| 0 <= i < after.len() implies exists|k: int|
            0 <= k < pending.len() && #[trigger] after[i] == #[trigger] pending[k] by {
            if i < before.len() {
                assert(after[i] == before[i]);
                let k = choose|k: int| 0 <= k < fewer.len() && before[i] == #[trigger] fewer[k];
                assert(fewer[k] == pending[k]);
            } else {
                assert(after[i] == pending[pending.len() - 1]);
            }
        }
        assert forall|i: int, j: int| 0 <= i < j < after.len() implies place(
            (#[trigger] after[i]).path,
        ) != place((#[trigger] after[j]).path) by {
            assert(after[i] == before[i]);
            if j < before.len() {
                assert(after[j] == before[j]);
            }
        }
    }
}

proof fn foregrounds_prepended<T>(wish: Wish<T>, pending: Seq<Wish<T>>)
    ensures
        foregrounds(seq![wish] + pending) == foregrounds(pending) + one_if(is_foreground(wish)),
    decreases pending.len(),
{
    let all = seq![wish] + pending;
    if pending.len() == 0 {
        assert(all.drop_last() =~= Seq::empty());
        reveal_with_fuel(foregrounds, 2);
    } else {
        foregrounds_prepended(wish, pending.drop_last());
        assert(all.drop_last() =~= seq![wish] + pending.drop_last());
        assert(all.last() == pending.last());
    }
}

/// Invalidating a place keeps work bounded, cancels its decode, and keeps the
/// foreground demand: it is asked for again rather than lost.
pub proof fn invalidation_is_sound<T>(board: Board<T>, path: Seq<u8>)
    requires
        board.wf(),
    ensures
        board.invalidated(path).wf(),
        board.invalidated(path).active.len() == board.active.len(),
        foreground_runs(board.invalidated(path).active) + foregrounds(
            board.invalidated(path).pending,
        ) == foreground_runs(board.active) + foregrounds(board.pending),
        forall|i: int|
            0 <= i < board.active.len() && place((#[trigger] board.active[i]).path) == place(path)
                ==> board.invalidated(path).active[i].cancelled,
{
    let at = run_at(board.active, place(path));
    run_at_bounds(board.active, place(path));
    retained_is_sound(board.pending, place(path));
    let kept = retained(board.pending, place(path));
    let after = board.invalidated(path);
    assert forall|j: int| 0 <= j < kept.len() implies exists|k: int|
        0 <= k < board.pending.len() && #[trigger] kept[j] == #[trigger] board.pending[k] by {}
    if at < board.active.len() {
        let run = board.active[at];
        let stopped = Run { interest: None, cancelled: true, ..run };
        counts_updated(board.active, at, stopped);
        counts_bounds(board.active);
        if let Some(Interest::Foreground(token)) = run.interest {
            let wish = Wish { path: run.path, interest: Interest::Foreground(token) };
            foregrounds_prepended(wish, kept);
            assert forall|j: int| 0 <= j < kept.len() implies place((#[trigger] kept[j]).path)
                != place(run.path) by {
                let k = choose|k: int|
                    0 <= k < board.pending.len() && kept[j] == #[trigger] board.pending[k];
                assert(place(board.active[at].path) != place(board.pending[k].path));
            }
        }
        assert forall|i: int, j: int| 0 <= i < j < after.active.len() implies place(
            (#[trigger] after.active[i]).path,
        ) != place((#[trigger] after.active[j]).path) by {
            assert(after.active[i].path == board.active[i].path);
            assert(after.active[j].path == board.active[j].path);
            assert(place(board.active[i].path) != place(board.active[j].path));
        }
        assert forall|i: int| 0 <= i < board.active.len() && place(
            (#[trigger] board.active[i]).path,
        ) == place(path) implies after.active[i].cancelled by {
            if i > at {
                assert(place(board.active[at].path) != place(board.active[i].path));
            }
        }
    }
    assert forall|i: int, j: int|
        0 <= i < after.active.len() && 0 <= j < after.pending.len() && (
        #[trigger] after.active[i]).interest is Some implies place(after.active[i].path) != place(
        (#[trigger] after.pending[j]).path,
    ) by {
        assert(i != at);
        assert(after.active[i] == board.active[i]);
        let extra = after.pending.len() - kept.len();
        if j < extra {
            assert(after.pending[j].path == board.active[at].path);
            if i < at {
                assert(place(board.active[i].path) != place(board.active[at].path));
            } else {
                assert(place(board.active[at].path) != place(board.active[i].path));
            }
        } else {
            assert(after.pending[j] == kept[j - extra]);
            let k = choose|k: int|
                0 <= k < board.pending.len() && kept[j - extra] == #[trigger] board.pending[k];
            assert(place(board.active[i].path) != place(board.pending[k].path));
        }
    }
    assert forall|i: int, j: int| 0 <= i < j < after.pending.len() implies place(
        (#[trigger] after.pending[i]).path,
    ) != place((#[trigger] after.pending[j]).path) by {
        let extra = after.pending.len() - kept.len();
        assert(after.pending[j] == kept[j - extra]);
        if i >= extra {
            assert(after.pending[i] == kept[i - extra]);
        }
    }
}

/// After cancelling everything nothing waits, and slots are still held until
/// their decodes finish.
pub proof fn cancelling_is_sound<T>(board: Board<T>)
    requires
        board.wf(),
    ensures
        board.all_cancelled().wf(),
        board.all_cancelled().pending.len() == 0,
        board.all_cancelled().active.len() == board.active.len(),
        board.all_cancelled().started() is None,
        forall|path: Seq<u8>| (#[trigger] board.all_cancelled().recipient(path)) is None,
{
    let after = board.all_cancelled();
    nothing_is_interested(after.active);
    counts_bounds(after.active);
    assert forall|i: int, j: int| 0 <= i < j < after.active.len() implies place(
        (#[trigger] after.active[i]).path,
    ) != place((#[trigger] after.active[j]).path) by {
        assert(place(board.active[i].path) != place(board.active[j].path));
    }
    assert forall|path: Seq<u8>| (#[trigger] after.recipient(path)) is None by {
        run_at_bounds(after.active, place(path));
    }
}

proof fn nothing_is_interested<T>(active: Seq<Run<T>>)
    requires
        forall|i: int| 0 <= i < active.len() ==> (#[trigger] active[i]).interest is None,
    ensures
        interested(active) == 0,
    decreases active.len(),
{
    if active.len() > 0 {
        nothing_is_interested(active.drop_last());
    }
}

/// A decode that was cancelled has no recipient: its late result is discarded.
pub proof fn cancelled_results_are_discarded<T>(board: Board<T>, path: Seq<u8>, at: int)
    requires
        board.wf(),
        0 <= at < board.active.len(),
        place(board.active[at].path) == place(path),
        board.active[at].cancelled,
    ensures
        board.recipient(path) is None,
{
    run_at_bounds(board.active, place(path));
    let found = run_at(board.active, place(path));
    if found < at {
        assert(place(board.active[found].path) != place(board.active[at].path));
    }
}

pub open spec fn demand_of<T>(foreground: Option<(Vec<u8>, T)>) -> Option<(Seq<u8>, T)> {
    match foreground {
        Some((path, token)) => Some((path@, token)),
        None => None,
    }
}

impl<T> Scheduler<T> {
    pub fn new() -> (result: Self)
        ensures
            result@ == (Board::<T> { active: Seq::empty(), pending: Seq::empty(), next: 0 }),
            result@.wf(),
    {
        let result = Scheduler { active: Vec::new(), pending: Vec::new(), next: 0 };
        assert(result@.active =~= Seq::<Run<T>>::empty());
        assert(result@.pending =~= Seq::<Wish<T>>::empty());
        result
    }

    /// How many decodes run, cancelled ones among them.
    pub fn active_count(&self) -> (result: usize)
        ensures
            result == self@.active.len(),
    {
        self.active.len()
    }

    /// How many requests wait.
    pub fn pending_count(&self) -> (result: usize)
        ensures
            result == self@.pending.len(),
    {
        self.pending.len()
    }

    fn find_wish(&self, path: &[u8]) -> (result: Option<usize>)
        ensures
            match result {
                Some(at) => at < self@.pending.len() && at == wish_at(self@.pending, place(path@)),
                None => wish_at(self@.pending, place(path@)) == self@.pending.len(),
            },
    {
        proof {
            wish_at_bounds(self@.pending, place(path@));
        }
        for i in 0..self.pending.len()
            invariant
                i <= wish_at(self@.pending, place(path@)) <= self@.pending.len(),
                self@.pending.len() == self.pending@.len(),
        {
            assert(self@.pending[i as int] == self.pending@[i as int]@);
            proof {
                wish_at_bounds(self@.pending, place(path@));
            }
            if same_path(self.pending[i].path.as_slice(), path) {
                return Some(i);
            }
        }
        None
    }

    fn find_run(&self, path: &[u8]) -> (result: Option<usize>)
        ensures
            match result {
                Some(at) => at < self@.active.len() && at == run_at(self@.active, place(path@)),
                None => run_at(self@.active, place(path@)) == self@.active.len(),
            },
    {
        proof {
            run_at_bounds(self@.active, place(path@));
        }
        for i in 0..self.active.len()
            invariant
                i <= run_at(self@.active, place(path@)) <= self@.active.len(),
                self@.active.len() == self.active@.len(),
        {
            assert(self@.active[i as int] == self.active@[i as int]@);
            proof {
                run_at_bounds(self@.active, place(path@));
            }
            if same_path(self.active[i].path.as_slice(), path) {
                return Some(i);
            }
        }
        None
    }

    /// Replaces demand, promoting an in-flight neighbor without decoding twice.
    /// `foreground` holds the latest presentation token, not the token from when
    /// the job started. A cancelled job is never revived. Returns the numbers of
    /// the jobs to cancel.
    pub fn replace(
        &mut self,
        foreground: Option<(Vec<u8>, T)>,
        neighbors: &Vec<Vec<u8>>,
    ) -> (result: Vec<u64>)
        requires
            old(self)@.wf(),
        ensures
            final(self)@ == old(self)@.replaced(
                demand_of(foreground),
                crate::paths::views(neighbors@),
            ),
            final(self)@.wf(),
            result@ == newly_cancelled(old(self)@.active, final(self)@.active),
    {
        let ghost before = self@;
        let ghost demand = demand_of(foreground);
        let ghost paths = crate::paths::views(neighbors@);
        proof {
            replacement_is_sound(before, demand, paths);
        }
        let was = self.cancelled_flags();
        self.pending.clear();
        match foreground {
            Some((path, token)) => {
                let request = Request { path, interest: Interest::Foreground(token) };
                self.pending.push(request);
            },
            None => {},
        }
        assert(self@.pending =~= wanted(demand, paths, 0));
        let count: usize = if neighbors.len() < MAX_NEIGHBORS {
            neighbors.len()
        } else {
            MAX_NEIGHBORS
        };
        for i in 0..count
            invariant
                count <= neighbors@.len(),
                paths == crate::paths::views(neighbors@),
                self@.pending == wanted(demand, paths, i as nat),
                self@.active == before.active,
                self@.next == before.next,
        {
            let ghost sofar = self@.pending;
            assert(paths[i as int] == neighbors@[i as int]@);
            if self.find_wish(neighbors[i].as_slice()).is_none() {
                let request = Request {
                    path: copy_bytes(neighbors[i].as_slice()),
                    interest: Interest::Neighbor,
                };
                self.pending.push(request);
                assert(self@.pending =~= sofar.push(request@));
                assert(self@.active =~= before.active);
            }
            proof {
                wish_at_bounds(sofar, place(neighbors@[i as int]@));
            }
        }
        self.assign();
        let _ = self.preempt();
        self.cancellations(&was, Ghost(before.active))
    }

    /// Hands each wish to the decode that runs for its place.
    fn assign(&mut self)
        ensures
            final(self)@.active == assigned(old(self)@.active, old(self)@.pending).0,
            final(self)@.pending == assigned(old(self)@.active, old(self)@.pending).1,
            final(self)@.next == old(self)@.next,
    {
        let ghost before = self@;
        let count: usize = self.active.len();
        for i in 0..count
            invariant
                count == before.active.len(),
                before.active.len() == self@.active.len(),
                self@.active.len() == self.active@.len(),
                self@.next == before.next,
                self@.active.take(i as int) == assigned(
                    before.active.take(i as int),
                    before.pending,
                ).0,
                self@.active.skip(i as int) == before.active.skip(i as int),
                self@.pending == assigned(before.active.take(i as int), before.pending).1,
        {
            let ghost here = self@;
            let ghost list = self.active@;
            assert(before.active.take(i + 1).drop_last() =~= before.active.take(i as int));
            assert(here.active.skip(i as int)[0] == before.active.skip(i as int)[0]);
            let found = self.find_wish(self.active[i].path.as_slice());
            assert(here.active[i as int] == self.active@[i as int]@);
            let mut run = self.active.remove(i);
            run.interest = match found {
                Some(at) => if run.cancelled {
                    None
                } else {
                    let request = self.pending.remove(at);
                    assert(self@.pending =~= here.pending.remove(at as int));
                    Some(request.interest)
                },
                None => None,
            };
            if run.interest.is_none() {
                run.cancelled = true;
            }
            assert(run@ == assigned_one(here.active[i as int], here.pending).0);
            self.active.insert(i, run);
            assert(self.active@ =~= list.update(i as int, run));
            assert(self@.active =~= here.active.update(i as int, run@));
            assert(self@.active.take(i + 1) =~= assigned(
                before.active.take(i + 1),
                before.pending,
            ).0);
            assert(self@.active.skip(i + 1) =~= before.active.skip(i + 1)) by {
                assert forall|k: int| i + 1 <= k < before.active.len() implies self@.active[k]
                    == before.active[k] by {
                    assert(here.active.skip(i as int)[k - i] == before.active.skip(i as int)[k - i]);
                }
            }
        }
        assert(before.active.take(before.active.len() as int) =~= before.active);
        assert(self@.active.take(self@.active.len() as int) =~= self@.active);
    }

    /// Sends every speculative decode but the first back to waiting.
    fn preempt(&mut self) -> (kept: bool)
        ensures
            (final(self)@.active, final(self)@.pending, kept) == preempted(
                old(self)@.active,
                old(self)@.pending,
            ),
            final(self)@.next == old(self)@.next,
    {
        let ghost before = self@;
        let mut kept = false;
        let count: usize = self.active.len();
        for i in 0..count
            invariant
                count == before.active.len(),
                before.active.len() == self@.active.len(),
                self@.active.len() == self.active@.len(),
                self@.next == before.next,
                (self@.active.take(i as int), self@.pending, kept) == preempted(
                    before.active.take(i as int),
                    before.pending,
                ),
                self@.active.skip(i as int) == before.active.skip(i as int),
        {
            let ghost here = self@;
            let ghost list = self.active@;
            assert(before.active.take(i + 1).drop_last() =~= before.active.take(i as int));
            assert(here.active.skip(i as int)[0] == before.active.skip(i as int)[0]);
            assert(here.active[i as int] == self.active@[i as int]@);
            let speculative = match &self.active[i].interest {
                Some(Interest::Neighbor) => true,
                _ => false,
            };
            if speculative {
                if kept {
                    let mut run = self.active.remove(i);
                    let request = Request {
                        path: copy_bytes(run.path.as_slice()),
                        interest: Interest::Neighbor,
                    };
                    run.interest = None;
                    run.cancelled = true;
                    self.pending.push(request);
                    assert(self@.pending =~= here.pending.push(request@));
                    self.active.insert(i, run);
                    assert(self.active@ =~= list.update(i as int, run));
                    assert(self@.active =~= here.active.update(i as int, run@));
                }
                kept = true;
            }
            assert(self@.active.take(i + 1) =~= preempted(
                before.active.take(i + 1),
                before.pending,
            ).0);
            assert(self@.active.skip(i + 1) =~= before.active.skip(i + 1)) by {
                assert forall|k: int| i + 1 <= k < before.active.len() implies self@.active[k]
                    == before.active[k] by {
                    assert(here.active.skip(i as int)[k - i] == before.active.skip(i as int)[k - i]);
                }
            }
        }
        assert(before.active.take(before.active.len() as int) =~= before.active);
        assert(self@.active.take(self@.active.len() as int) =~= self@.active);
        kept
    }

    fn cancelled_flags(&self) -> (result: Vec<bool>)
        ensures
            result@.len() == self@.active.len(),
            forall|i: int|
                0 <= i < result@.len() ==> #[trigger] result@[i] == self@.active[i].cancelled,
    {
        let mut result: Vec<bool> = Vec::new();
        for i in 0..self.active.len()
            invariant
                result@.len() == i,
                self@.active.len() == self.active@.len(),
                forall|k: int| 0 <= k < i ==> #[trigger] result@[k] == self@.active[k].cancelled,
        {
            result.push(self.active[i].cancelled);
        }
        result
    }

    fn cancellations(&self, was: &Vec<bool>, Ghost(before): Ghost<Seq<Run<T>>>) -> (result: Vec<
        u64,
    >)
        requires
            was@.len() == before.len(),
            before.len() == self@.active.len(),
            forall|i: int|
                0 <= i < before.len() ==> #[trigger] was@[i] == before[i].cancelled && before[i].id
                    == self@.active[i].id,
        ensures
            result@ == newly_cancelled(before, self@.active),
    {
        let mut result: Vec<u64> = Vec::new();
        let ghost after = self@.active;
        for i in 0..self.active.len()
            invariant
                after == self@.active,
                self@.active.len() == self.active@.len(),
                was@.len() == before.len(),
                before.len() == self@.active.len(),
                forall|k: int|
                    0 <= k < before.len() ==> #[trigger] was@[k] == before[k].cancelled
                        && before[k].id == self@.active[k].id,
                result@ == newly_cancelled(before.take(i as int), after.take(i as int)),
        {
            assert(before.take(i + 1).drop_last() =~= before.take(i as int));
            assert(after.take(i + 1).drop_last() =~= after.take(i as int));
            assert(after[i as int] == self.active@[i as int]@);
            if !was[i] && self.active[i].cancelled {
                result.push(self.active[i].id);
            }
        }
        assert(before.take(before.len() as int) =~= before);
        assert(after.take(after.len() as int) =~= after);
        result
    }

    fn foreground_waits(&self) -> (result: bool)
        ensures
            result == waits_for_foreground(self@.pending),
    {
        for i in 0..self.pending.len()
            invariant
                self@.pending.len() == self.pending@.len(),
                forall|k: int| 0 <= k < i ==> !is_foreground(#[trigger] self@.pending[k]),
        {
            assert(self@.pending[i as int] == self.pending@[i as int]@);
            match &self.pending[i].interest {
                Interest::Foreground(_) => {
                    assert(is_foreground(self@.pending[i as int]));
                    return true;
                },
                Interest::Neighbor => {},
            }
        }
        false
    }

    fn speculation_runs(&self) -> (result: bool)
        ensures
            result == speculates(self@.active),
    {
        for i in 0..self.active.len()
            invariant
                self@.active.len() == self.active@.len(),
                forall|k: int| 0 <= k < i ==> !is_speculation(#[trigger] self@.active[k]),
        {
            assert(self@.active[i as int] == self.active@[i as int]@);
            match &self.active[i].interest {
                Some(Interest::Neighbor) => {
                    assert(is_speculation(self@.active[i as int]));
                    return true;
                },
                _ => {},
            }
        }
        false
    }

    /// Starts the next decode, the foreground first. At most one speculative job
    /// runs, leaving room for a new foreground request even when the displayed
    /// image was cached.
    pub fn start(&mut self) -> (result: Option<Job>)
        requires
            old(self)@.wf(),
        ensures
            final(self)@.wf(),
            match result {
                Some(job) => old(self)@.started() == Some((final(self)@, job.path@, job.id)),
                None => old(self)@.started() is None && final(self)@ == old(self)@,
            },
    {
        let ghost before = self@;
        proof {
            starting_is_sound(before);
        }
        if self.active.len() >= MAX_ACTIVE {
            return None;
        }
        let foreground_waits = self.foreground_waits();
        let speculating = self.speculation_runs();
        let mut at: usize = 0;
        while at < self.pending.len()
            invariant
                self@ == before,
                before == old(self)@,
                before.active.len() < MAX_ACTIVE,
                foreground_waits == waits_for_foreground(before.pending),
                speculating == speculates(before.active),
                at <= before.pending.len(),
                before.pending.len() == self.pending@.len(),
                before.wf(),
                before.startable(0) == before.startable(at as int),
                before.started() matches Some((after, _, _)) ==> after.wf(),
            decreases before.pending.len() - at,
        {
            assert(before.pending[at as int] == self.pending@[at as int]@);
            let foreground = match &self.pending[at].interest {
                Interest::Foreground(_) => true,
                Interest::Neighbor => false,
            };
            let idle = self.find_run(self.pending[at].path.as_slice()).is_none();
            if idle && (foreground || (!foreground_waits && !speculating)) {
                assert(before.may_start(before.pending[at as int]));
                let request = self.pending.remove(at);
                let id: u64 = if self.next == u64::MAX {
                    0
                } else {
                    self.next + 1
                };
                let path = copy_bytes(request.path.as_slice());
                let run = Active {
                    path: request.path,
                    id,
                    cancelled: false,
                    interest: Some(request.interest),
                };
                self.active.push(run);
                self.next = id;
                assert(self@.active =~= before.active.push(run@));
                assert(self@.pending =~= before.pending.remove(at as int));
                assert(before.startable(0) == at);
                return Some(Job { path, id });
            }
            at = at + 1;
        }
        None
    }

    /// Ends a decode and releases its slot. Only the latest interest receives the
    /// result: obsolete successes and cancellation errors have no recipient.
    pub fn finish(&mut self, path: &[u8]) -> (result: Option<Interest<T>>)
        requires
            old(self)@.wf(),
        ensures
            final(self)@.wf(),
            final(self)@ == old(self)@.finished(path@),
            result == old(self)@.recipient(path@),
    {
        let ghost before = self@;
        proof {
            finishing_is_sound(before, path@);
        }
        match self.find_run(path) {
            Some(at) => {
                assert(before.active[at as int] == self.active@[at as int]@);
                let run = self.active.remove(at);
                assert(self@.active =~= before.active.remove(at as int));
                run.interest
            },
            None => None,
        }
    }

    /// Cancels the decode of a path whose contents changed. The latest foreground
    /// demand for it is kept and waits for a fresh decode. Returns the numbers of
    /// the jobs to cancel.
    pub fn invalidate(&mut self, path: &[u8]) -> (result: Vec<u64>)
        requires
            old(self)@.wf(),
        ensures
            final(self)@.wf(),
            final(self)@ == old(self)@.invalidated(path@),
            result@ == newly_cancelled(old(self)@.active, final(self)@.active),
    {
        let ghost before = self@;
        let was = self.cancelled_flags();
        proof {
            invalidation_is_sound(before, path@);
            run_at_bounds(before.active, place(path@));
        }
        self.retain(path);
        let ghost kept = self@.pending;
        assert(self@.active =~= before.active);
        match self.find_run(path) {
            Some(at) => {
                let ghost list = self.active@;
                assert(before.active[at as int] == self.active@[at as int]@);
                let mut run = self.active.remove(at);
                match run.interest {
                    Some(Interest::Foreground(token)) => {
                        let request = Request {
                            path: copy_bytes(run.path.as_slice()),
                            interest: Interest::Foreground(token),
                        };
                        self.pending.insert(0, request);
                        assert(self@.pending =~= seq![request@] + kept);
                    },
                    _ => {},
                }
                run.interest = None;
                run.cancelled = true;
                self.active.insert(at, run);
                assert(self.active@ =~= list.update(at as int, run));
                assert(self@.active =~= before.active.update(at as int, run@));
            },
            None => {},
        }
        self.cancellations(&was, Ghost(before.active))
    }

    fn retain(&mut self, path: &[u8])
        ensures
            final(self)@.pending == retained(old(self)@.pending, place(path@)),
            final(self)@.active == old(self)@.active,
            final(self)@.next == old(self)@.next,
    {
        let ghost before = self@;
        let mut at: usize = 0;
        assert(before.pending.take(0) =~= Seq::<Wish<T>>::empty());
        let ghost mut seen: int = 0;
        assert(self@.pending.take(0) =~= retained(before.pending.take(0), place(path@)));
        assert(self@.pending.skip(0) =~= before.pending.skip(0));
        while at < self.pending.len()
            invariant
                self@.active == before.active,
                self@.next == before.next,
                self@.pending.len() == self.pending@.len(),
                0 <= at <= self@.pending.len(),
                0 <= seen <= before.pending.len(),
                self@.pending.take(at as int) == retained(before.pending.take(seen), place(path@)),
                self@.pending.skip(at as int) == before.pending.skip(seen),
            decreases self.pending@.len() - at,
        {
            let ghost here = self@.pending;
            assert(here[at as int] == self.pending@[at as int]@);
            assert(here.skip(at as int)[0] == before.pending.skip(seen)[0]);
            assert(here.skip(at as int).len() == before.pending.skip(seen).len());
            assert(before.pending.take(seen + 1).drop_last() =~= before.pending.take(seen));
            assert(before.pending.take(seen + 1).last() == here[at as int]);
            let foreground = match &self.pending[at].interest {
                Interest::Foreground(_) => true,
                Interest::Neighbor => false,
            };
            if foreground || !same_path(self.pending[at].path.as_slice(), path) {
                assert(here.take(at + 1) =~= here.take(at as int).push(here[at as int]));
                assert(here.skip(at + 1) =~= here.skip(at as int).skip(1));
                assert(before.pending.skip(seen + 1) =~= before.pending.skip(seen).skip(1));
                at = at + 1;
            } else {
                self.pending.remove(at);
                assert(self@.pending =~= here.remove(at as int));
                assert(self@.pending.take(at as int) =~= here.take(at as int));
                assert(self@.pending.skip(at as int) =~= here.skip(at as int).skip(1));
                assert(before.pending.skip(seen + 1) =~= before.pending.skip(seen).skip(1));
            }
            proof {
                seen = seen + 1;
            }
        }
        assert(self@.pending.skip(at as int).len() == 0);
        assert(before.pending.skip(seen).len() == 0);
        assert(before.pending.take(seen) =~= before.pending);
        assert(self@.pending.take(at as int) =~= self@.pending);
    }

    /// Cancels everything. Returns the numbers of the jobs to cancel.
    pub fn cancel_all(&mut self) -> (result: Vec<u64>)
        requires
            old(self)@.wf(),
        ensures
            final(self)@.wf(),
            final(self)@ == old(self)@.all_cancelled(),
            result@ == newly_cancelled(old(self)@.active, final(self)@.active),
    {
        let ghost before = self@;
        let was = self.cancelled_flags();
        proof {
            cancelling_is_sound(before);
        }
        self.pending.clear();
        let count: usize = self.active.len();
        for i in 0..count
            invariant
                count == before.active.len(),
                self@.active.len() == self.active@.len(),
                self@.active.len() == before.active.len(),
                self@.next == before.next,
                self.pending@.len() == 0,
                forall|k: int|
                    0 <= k < i ==> #[trigger] self@.active[k] == (Run {
                        interest: None::<Interest<T>>,
                        cancelled: true,
                        ..before.active[k]
                    }),
                forall|k: int| i <= k < before.active.len() ==> #[trigger] self@.active[k]
                    == before.active[k],
        {
            let ghost here = self@.active;
            let ghost list = self.active@;
            assert(here[i as int] == self.active@[i as int]@);
            let mut run = self.active.remove(i);
            run.interest = None;
            run.cancelled = true;
            self.active.insert(i, run);
            assert(self.active@ =~= list.update(i as int, run));
            assert(self@.active =~= here.update(i as int, run@));
        }
        assert(self@.active =~= before.all_cancelled().active);
        assert(self@.pending =~= Seq::<Wish<T>>::empty());
        self.cancellations(&was, Ghost(before.active))
    }
}

impl<T> Default for Scheduler<T> {
    fn default() -> (result: Self)
        ensures
            result@ == (Board::<T> { active: Seq::empty(), pending: Seq::empty(), next: 0 }),
            result@.wf(),
    {
        Scheduler::new()
    }
}

/// Ending a decode takes that decode off and nothing else, and its result is for
/// whoever waited for it. A place that is not being decoded has no result.
pub proof fn finishing_takes_one_decode<T>(board: Board<T>, path: Seq<u8>, at: int)
    requires
        board.wf(),
        0 <= at < board.active.len(),
    ensures
        place(board.active[at].path) == place(path) ==> board.finished(path).active
            == board.active.remove(at),
        place(board.active[at].path) == place(path) ==> board.recipient(path)
            == board.active[at].interest,
        place(board.active[at].path) != place(path) ==> board.finished(path).active.contains(
            board.active[at],
        ),
        board.finished(path).pending == board.pending,
        board.finished(path).next == board.next,
{
    run_at_bounds(board.active, place(path));
    let found = run_at(board.active, place(path));
    if place(board.active[at].path) == place(path) {
        if found < at {
            assert(place(board.active[found].path) != place(board.active[at].path));
        }
    } else if found < board.active.len() {
        let rest = board.active.remove(found);
        if at < found {
            assert(rest[at] == board.active[at]);
        } else {
            assert(rest[at - 1] == board.active[at]);
        }
    } else {
        assert(board.active[at] == board.finished(path).active[at]);
    }
}

/// Ending a decode that does not run changes nothing, and its result is for nobody.
pub proof fn unknown_decodes_have_no_result<T>(board: Board<T>, path: Seq<u8>)
    requires
        forall|i: int|
            0 <= i < board.active.len() ==> place((#[trigger] board.active[i]).path) != place(path),
    ensures
        board.finished(path) == board,
        board.recipient(path) is None,
{
    run_at_bounds(board.active, place(path));
}

/// A decode that starts is one that was waited for: it runs under a number of its
/// own for whoever waited, and is waited for no more. It starts only where fewer
/// than two decodes run, and never for a place that is being decoded.
pub proof fn starting_serves_a_wish<T>(board: Board<T>)
    ensures
        board.started() matches Some((after, path, id)) ==> {
            &&& board.active.len() < 2
            &&& after.active.len() == board.active.len() + 1
            &&& after.active.drop_last() == board.active
            &&& after.active.last().path == path
            &&& after.active.last().id == id
            &&& !after.active.last().cancelled
            &&& board.next < u64::MAX ==> id == board.next + 1
            &&& exists|at: int|
                0 <= at < board.pending.len() && (#[trigger] board.pending[at]).path == path
                    && after.active.last().interest == Some(board.pending[at].interest)
                    && after.pending == board.pending.remove(at)
            &&& forall|i: int|
                0 <= i < board.active.len() ==> place((#[trigger] board.active[i]).path) != place(
                    path,
                )
        },
{
    startable_bounds(board, 0);
    let at = board.startable(0);
    if board.active.len() < MAX_ACTIVE && at < board.pending.len() {
        let wish = board.pending[at];
        run_at_bounds(board.active, place(wish.path));
        let after = (board.started()->0).0;
        assert(after.active.drop_last() == board.active);
        assert(after.pending == board.pending.remove(at));
    }
}

proof fn startable_is_first<T>(board: Board<T>, from: int, at: int)
    requires
        0 <= from <= at < board.pending.len(),
        board.may_start(board.pending[at]),
    ensures
        board.startable(from) <= at,
    decreases at - from,
{
    if from < at && !board.may_start(board.pending[from]) {
        startable_is_first(board, from + 1, at);
    }
}

/// A waiting foreground starts as soon as fewer than two decodes run and none of
/// them is for its place.
pub proof fn foregrounds_start_at_once<T>(board: Board<T>, at: int)
    requires
        0 <= at < board.pending.len(),
        board.pending[at].interest is Foreground,
        board.active.len() < 2,
        forall|i: int|
            0 <= i < board.active.len() ==> place((#[trigger] board.active[i]).path) != place(
                board.pending[at].path,
            ),
    ensures
        board.started() is Some,
        (board.started()->0).0.active.last().interest matches Some(Interest::Foreground(_)),
{
    run_at_bounds(board.active, place(board.pending[at].path));
    startable_is_first(board, 0, at);
    startable_bounds(board, 0);
    assert(is_foreground(board.pending[at]));
    assert(waits_for_foreground(board.pending));
}

/// A neighbor starts only where no foreground waits and no other neighbor is
/// decoded.
pub proof fn neighbors_wait_their_turn<T>(board: Board<T>, i: int)
    ensures
        0 <= i < board.active.len() && board.active[i].interest == Some(Interest::<T>::Neighbor)
            ==> (board.started() matches Some((after, _, _)) ==> (
        after.active.last().interest matches Some(Interest::Foreground(_)))),
        0 <= i < board.pending.len() && board.pending[i].interest is Foreground ==> (
        board.started() matches Some((after, _, _)) ==> (
        after.active.last().interest matches Some(Interest::Foreground(_)))),
{
    startable_bounds(board, 0);
    if 0 <= i < board.active.len() && board.active[i].interest == Some(Interest::<T>::Neighbor) {
        assert(is_speculation(board.active[i]));
        assert(speculates(board.active));
    }
    if 0 <= i < board.pending.len() && board.pending[i].interest is Foreground {
        assert(is_foreground(board.pending[i]));
        assert(waits_for_foreground(board.pending));
    }
}

/// A lone neighbor starts where nothing is decoded.
pub proof fn lone_neighbors_start<T>(board: Board<T>)
    requires
        board.active.len() == 0,
        board.pending.len() == 1,
    ensures
        board.started() is Some,
        (board.started()->0).1 == board.pending[0].path,
        (board.started()->0).0.pending.len() == 0,
{
    if !is_foreground(board.pending[0]) {
        assert(!waits_for_foreground(board.pending));
    }
    assert(!speculates(board.active));
    startable_is_first(board, 0, 0);
    startable_bounds(board, 0);
}

/// Exactly the decodes that were stopped between two states are reported, by
/// their numbers.
pub proof fn stopped_decodes_are_reported<T>(before: Seq<Run<T>>, after: Seq<Run<T>>, id: u64)
    requires
        before.len() == after.len(),
    ensures
        newly_cancelled(before, after).contains(id) <==> exists|i: int|
            0 <= i < before.len() && (#[trigger] before[i]).id == id && !before[i].cancelled
                && after[i].cancelled,
    decreases before.len(),
{
    if before.len() > 0 {
        stopped_decodes_are_reported(before.drop_last(), after.drop_last(), id);
        let rest = newly_cancelled(before.drop_last(), after.drop_last());
        let all = newly_cancelled(before, after);
        if rest.contains(id) {
            let at = choose|at: int| 0 <= at < rest.len() && rest[at] == id;
            assert(all[at] == id);
            let i = choose|i: int|
                0 <= i < before.len() - 1 && (#[trigger] before.drop_last()[i]).id == id
                    && !before.drop_last()[i].cancelled && after.drop_last()[i].cancelled;
            assert(before[i] == before.drop_last()[i]);
            assert(after[i] == after.drop_last()[i]);
        }
        if !before.last().cancelled && after.last().cancelled {
            assert(all == rest.push(before.last().id));
            if before.last().id == id {
                assert(all[rest.len() as int] == id);
                assert(before[before.len() - 1].id == id);
            }
        }
        if all.contains(id) && !rest.contains(id) {
            let at = choose|at: int| 0 <= at < all.len() && all[at] == id;
            if at < rest.len() {
                assert(rest[at] == id);
            }
            assert(before[before.len() - 1].id == id);
        }
        if exists|i: int|
            0 <= i < before.len() && (#[trigger] before[i]).id == id && !before[i].cancelled
                && after[i].cancelled {
            let i = choose|i: int|
                0 <= i < before.len() && (#[trigger] before[i]).id == id && !before[i].cancelled
                    && after[i].cancelled;
            if i < before.len() - 1 {
                assert(before.drop_last()[i] == before[i]);
                assert(after.drop_last()[i] == after[i]);
            }
        }
    }
}

/// A place is waited for: by a decode that goes on, or in the queue.
pub open spec fn is_waited_for<T>(board: Board<T>, at: Place) -> bool {
    ||| exists|i: int|
        0 <= i < board.active.len() && place((#[trigger] board.active[i]).path) == at
            && board.active[i].interest is Some && !board.active[i].cancelled
    ||| exists|j: int| 0 <= j < board.pending.len() && place((#[trigger] board.pending[j]).path) == at
}

/// A place is wanted: it is the foreground's, or that of one of the first two
/// neighbors.
pub open spec fn is_wanted<T>(
    foreground: Option<(Seq<u8>, T)>,
    neighbors: Seq<Seq<u8>>,
    at: Place,
) -> bool {
    ||| foreground is Some && place((foreground->0).0) == at
    ||| neighbors.len() > 0 && place(neighbors[0]) == at
    ||| neighbors.len() > 1 && place(neighbors[1]) == at
}

proof fn wanted_holds<T>(foreground: Option<(Seq<u8>, T)>, neighbors: Seq<Seq<u8>>, count: nat)
    ensures
        ({
            let list = wanted(foreground, neighbors, count);
            &&& foreground is Some ==> list.len() > 0 && list[0] == (Wish {
                path: (foreground->0).0,
                interest: Interest::Foreground((foreground->0).1),
            })
            &&& forall|i: int|
                0 <= i < list.len() && (#[trigger] list[i]).interest is Foreground ==> i == 0
                    && foreground is Some
            &&& forall|i: int|
                0 <= i < list.len() && (#[trigger] list[i]).interest is Neighbor ==> exists|k: int|
                    0 <= k < count && list[i].path == #[trigger] neighbors[k]
            &&& forall|k: int|
                0 <= k < count ==> exists|i: int|
                    0 <= i < list.len() && place((#[trigger] list[i]).path) == place(
                        #[trigger] neighbors[k],
                    )
        }),
    decreases count,
{
    let list = wanted(foreground, neighbors, count);
    if count > 0 {
        let less = (count - 1) as nat;
        let before = wanted(foreground, neighbors, less);
        wanted_holds(foreground, neighbors, less);
        wish_at_bounds(before, place(neighbors[count - 1]));
        let found = wish_at(before, place(neighbors[count - 1]));
        assert(forall|i: int| 0 <= i < before.len() ==> #[trigger] list[i] == before[i]);
        assert forall|k: int| 0 <= k < count implies exists|i: int|
            0 <= i < list.len() && place((#[trigger] list[i]).path) == place(
                #[trigger] neighbors[k],
            ) by {
            if k < less {
                let i = choose|i: int|
                    0 <= i < before.len() && place((#[trigger] before[i]).path) == place(
                        neighbors[k],
                    );
                assert(list[i] == before[i]);
            } else if found < before.len() {
                assert(list[found] == before[found]);
            } else {
                assert(list[before.len() as int].path == neighbors[k]);
            }
        }
        assert forall|i: int|
            0 <= i < list.len() && (#[trigger] list[i]).interest is Neighbor implies exists|k: int|
            0 <= k < count && list[i].path == #[trigger] neighbors[k] by {
            if i < before.len() {
                assert(before[i].interest is Neighbor);
                let k = choose|k: int| 0 <= k < less && before[i].path == #[trigger] neighbors[k];
                assert(list[i].path == neighbors[k]);
            } else {
                assert(list[i].path == neighbors[count - 1]);
            }
        }
    }
}

proof fn assignment_only_takes<T>(active: Seq<Run<T>>, pending: Seq<Wish<T>>)
    ensures
        forall|j: int|
            0 <= j < assigned(active, pending).1.len() ==> pending.contains(
                #[trigger] assigned(active, pending).1[j],
            ),
    decreases active.len(),
{
    if active.len() > 0 {
        assignment_only_takes(active.drop_last(), pending);
        let left = assigned(active.drop_last(), pending).1;
        let rest = assigned(active, pending).1;
        wish_at_bounds(left, place(active.last().path));
        assert forall|j: int| 0 <= j < rest.len() implies pending.contains(#[trigger] rest[j]) by {
            let at = wish_at(left, place(active.last().path));
            if !active.last().cancelled && at < left.len() {
                let origin = if j < at {
                    j
                } else {
                    j + 1
                };
                assert(rest[j] == left[origin]);
            } else {
                assert(rest[j] == left[j]);
            }
        }
    } else {
        assert forall|j: int| 0 <= j < pending.len() implies pending.contains(
            #[trigger] assigned(active, pending).1[j],
        ) by {
            assert(pending[j] == assigned(active, pending).1[j]);
        }
    }
}

proof fn assignment_leaves<T>(active: Seq<Run<T>>, pending: Seq<Wish<T>>, j: int)
    requires
        0 <= j < pending.len(),
        forall|i: int|
            0 <= i < active.len() && !(#[trigger] active[i]).cancelled ==> place(active[i].path)
                != place(pending[j].path),
    ensures
        assigned(active, pending).1.contains(pending[j]),
    decreases active.len(),
{
    if active.len() > 0 {
        assert forall|i: int|
            0 <= i < active.len() - 1 && !(#[trigger] active.drop_last()[i]).cancelled implies place(
            active.drop_last()[i].path,
        ) != place(pending[j].path) by {
            assert(active.drop_last()[i] == active[i]);
        }
        assignment_leaves(active.drop_last(), pending, j);
        let left = assigned(active.drop_last(), pending).1;
        let rest = assigned(active, pending).1;
        wish_at_bounds(left, place(active.last().path));
        let at = wish_at(left, place(active.last().path));
        let k = choose|k: int| 0 <= k < left.len() && left[k] == pending[j];
        if !active.last().cancelled && at < left.len() {
            assert(active[active.len() - 1] == active.last());
            assert(k != at);
            let moved = if k < at {
                k
            } else {
                k - 1
            };
            assert(rest[moved] == pending[j]);
        } else {
            assert(rest[k] == pending[j]);
        }
    } else {
        assert(assigned(active, pending).1[j] == pending[j]);
    }
}

proof fn assignment_hands_over<T>(active: Seq<Run<T>>, pending: Seq<Wish<T>>, i: int)
    requires
        runs_distinct(active),
        wishes_distinct(pending),
        0 <= i < active.len(),
    ensures
        assigned(active, pending).0.len() == active.len(),
        assigned(active, pending).0[i].path == active[i].path,
        forall|j: int|
            0 <= j < pending.len() && !active[i].cancelled && place(
                (#[trigger] pending[j]).path,
            ) == place(active[i].path) ==> assigned(active, pending).0[i].interest == Some(
                pending[j].interest,
            ) && !assigned(active, pending).0[i].cancelled,
        (active[i].cancelled || forall|j: int|
            0 <= j < pending.len() ==> place((#[trigger] pending[j]).path) != place(active[i].path))
            ==> assigned(active, pending).0[i].cancelled && assigned(
            active,
            pending,
        ).0[i].interest is None,
    decreases active.len(),
{
    assignment_is_sound(active, pending);
    let before = active.drop_last();
    assert(runs_distinct(before)) by {
        assert(forall|k: int| 0 <= k < before.len() ==> before[k] == active[k]);
    }
    assignment_is_sound(before, pending);
    let (runs, left) = assigned(before, pending);
    let (after, rest) = assigned(active, pending);
    if i < before.len() {
        assert(before[i] == active[i]);
        assignment_hands_over(before, pending, i);
        assert(after[i] == runs[i]);
    } else {
        assert(active[i] == active.last());
        let run = active.last();
        assert(after[i] == assigned_one(run, left).0);
        wish_at_bounds(left, place(run.path));
        let at = wish_at(left, place(run.path));
        assignment_only_takes(before, pending);
        assert forall|j: int|
            0 <= j < pending.len() && !run.cancelled && place((#[trigger] pending[j]).path)
                == place(run.path) implies after[i].interest == Some(pending[j].interest)
            && !after[i].cancelled by {
            assert forall|k: int|
                0 <= k < before.len() && !(#[trigger] before[k]).cancelled implies place(
                before[k].path,
            ) != place(pending[j].path) by {
                assert(before[k] == active[k]);
                assert(place(active[k].path) != place(active[i].path));
            }
            assignment_leaves(before, pending, j);
            let k = choose|k: int| 0 <= k < left.len() && left[k] == pending[j];
            assert(place(left[k].path) == place(run.path));
            assert(at < left.len());
            assert(pending.contains(left[at]));
            let m = choose|m: int| 0 <= m < pending.len() && pending[m] == left[at];
            if m != j {
                assert(place(pending[m].path) == place(pending[j].path));
            }
        }
        if !run.cancelled && at < left.len() {
            assert(pending.contains(left[at]));
            let m = choose|m: int| 0 <= m < pending.len() && pending[m] == left[at];
            assert(place(pending[m].path) == place(run.path));
        }
    }
}

proof fn preemption_returns<T>(active: Seq<Run<T>>, pending: Seq<Wish<T>>, i: int)
    requires
        0 <= i < active.len(),
    ensures
        ({
            let (after, waiting, kept) = preempted(active, pending);
            &&& after.len() == active.len()
            &&& pending.len() <= waiting.len()
            &&& forall|j: int| 0 <= j < pending.len() ==> #[trigger] waiting[j] == pending[j]
            &&& !is_speculation(active[i]) ==> after[i] == active[i]
            &&& is_speculation(active[i]) ==> after[i] == active[i] || waiting.contains(
                Wish { path: active[i].path, interest: Interest::Neighbor },
            )
            &&& after[i].path == active[i].path
        }),
    decreases active.len(),
{
    let before = active.drop_last();
    let (runs, queue, had) = preempted(before, pending);
    let (after, waiting, kept) = preempted(active, pending);
    if before.len() > 0 {
        let k = if i < before.len() {
            i
        } else {
            0
        };
        preemption_returns(before, pending, k);
        if i < before.len() {
            assert(before[i] == active[i]);
            assert(after[i] == runs[i]);
            let wish = Wish::<T> { path: active[i].path, interest: Interest::Neighbor };
            if queue.contains(wish) {
                let m = choose|m: int| 0 <= m < queue.len() && queue[m] == wish;
                assert(waiting[m] == wish);
            }
        }
    } else {
        assert(before =~= Seq::empty());
    }
    if i == before.len() && is_speculation(active[i]) && had {
        assert(waiting[queue.len() as int] == (Wish::<T> {
            path: active[i].path,
            interest: Interest::Neighbor,
        }));
    }
}

spec fn wanted_count(neighbors: Seq<Seq<u8>>) -> nat {
    if neighbors.len() < MAX_NEIGHBORS {
        neighbors.len()
    } else {
        MAX_NEIGHBORS as nat
    }
}

/// The foreground is decoded for the newest demand: a decode of its place that goes
/// on is for it from now on, and is not begun again; without one it waits.
pub proof fn the_foreground_is_asked_for<T>(
    board: Board<T>,
    path: Seq<u8>,
    token: T,
    neighbors: Seq<Seq<u8>>,
    i: int,
)
    requires
        board.wf(),
    ensures
        0 <= i < board.active.len() && place(board.active[i].path) == place(path)
            && !board.active[i].cancelled ==> {
            let run = board.replaced(Some((path, token)), neighbors).active[i];
            run.interest == Some(Interest::Foreground(token)) && !run.cancelled
        },
        (forall|k: int|
            0 <= k < board.active.len() && place((#[trigger] board.active[k]).path) == place(path)
                ==> board.active[k].cancelled) ==> board.replaced(
            Some((path, token)),
            neighbors,
        ).pending.contains(Wish { path, interest: Interest::Foreground(token) }),
{
    let count = wanted_count(neighbors);
    let list = wanted(Some((path, token)), neighbors, count);
    wanted_holds(Some((path, token)), neighbors, count);
    wanted_is_sound(Some((path, token)), neighbors, count);
    let (active, left) = assigned(board.active, list);
    assignment_is_sound(board.active, list);
    if 0 <= i < board.active.len() {
        assignment_hands_over(board.active, list, i);
        preemption_returns(active, left, i);
        if place(board.active[i].path) == place(path) && !board.active[i].cancelled {
            assert(place(list[0].path) == place(board.active[i].path));
        }
    }
    if forall|k: int|
        0 <= k < board.active.len() && place((#[trigger] board.active[k]).path) == place(path)
            ==> board.active[k].cancelled {
        assignment_leaves(board.active, list, 0);
        preemption_is_sound(active, left);
        let (_, waiting, _) = preempted(active, left);
        let m = choose|m: int| 0 <= m < left.len() && left[m] == list[0];
        assert(waiting[m] == list[0]);
    }
}

/// Decodes of places that are wanted no more are stopped, and nobody gets their
/// results.
pub proof fn unwanted_decodes_are_stopped<T>(
    board: Board<T>,
    foreground: Option<(Seq<u8>, T)>,
    neighbors: Seq<Seq<u8>>,
    i: int,
)
    requires
        board.wf(),
        0 <= i < board.active.len(),
        !is_wanted(foreground, neighbors, place(board.active[i].path)),
    ensures
        board.replaced(foreground, neighbors).active[i].cancelled,
        board.replaced(foreground, neighbors).active[i].interest is None,
{
    let count = wanted_count(neighbors);
    let list = wanted(foreground, neighbors, count);
    wanted_holds(foreground, neighbors, count);
    wanted_is_sound(foreground, neighbors, count);
    let (active, left) = assigned(board.active, list);
    assignment_is_sound(board.active, list);
    assert forall|j: int| 0 <= j < list.len() implies place((#[trigger] list[j]).path) != place(
        board.active[i].path,
    ) by {
        if list[j].interest is Neighbor {
            let k = choose|k: int| 0 <= k < count && list[j].path == #[trigger] neighbors[k];
            assert(k == 0 || k == 1);
        }
    }
    assignment_hands_over(board.active, list, i);
    preemption_returns(active, left, i);
}

proof fn wanted_places_are_waited_for<T>(
    board: Board<T>,
    foreground: Option<(Seq<u8>, T)>,
    neighbors: Seq<Seq<u8>>,
    path: Seq<u8>,
)
    requires
        board.wf(),
        is_wanted(foreground, neighbors, place(path)),
    ensures
        is_waited_for(board.replaced(foreground, neighbors), place(path)),
{
    let at = place(path);
    let count = wanted_count(neighbors);
    let list = wanted(foreground, neighbors, count);
    wanted_holds(foreground, neighbors, count);
    wanted_is_sound(foreground, neighbors, count);
    let (active, left) = assigned(board.active, list);
    assignment_is_sound(board.active, list);
    assignment_only_takes(board.active, list);
    let (after, waiting, kept) = preempted(active, left);
    preemption_is_sound(active, left);
    let result = board.replaced(foreground, neighbors);
    assert(exists|j: int| 0 <= j < list.len() && place((#[trigger] list[j]).path) == at) by {
        if foreground is Some && place((foreground->0).0) == at {
            assert(place(list[0].path) == at);
        } else if neighbors.len() > 0 && place(neighbors[0]) == at {
            assert(0 < count);
        } else {
            assert(1 < count);
        }
    }
    let j = choose|j: int| 0 <= j < list.len() && place((#[trigger] list[j]).path) == at;
    if exists|i: int|
        0 <= i < board.active.len() && place((#[trigger] board.active[i]).path) == at
            && !board.active[i].cancelled {
        let i = choose|i: int|
            0 <= i < board.active.len() && place((#[trigger] board.active[i]).path) == at
                && !board.active[i].cancelled;
        assignment_hands_over(board.active, list, i);
        preemption_returns(active, left, i);
        assert(place(list[j].path) == place(board.active[i].path));
        let wish = Wish::<T> { path: active[i].path, interest: Interest::Neighbor };
        if after[i] == active[i] {
            assert(place(result.active[i].path) == at);
        } else {
            let m = choose|m: int| 0 <= m < waiting.len() && waiting[m] == wish;
            assert(place(result.pending[m].path) == at);
        }
    } else {
        assignment_leaves(board.active, list, j);
        let m = choose|m: int| 0 <= m < left.len() && left[m] == list[j];
        assert(place(result.pending[m].path) == at);
    }
}

proof fn waited_for_places_are_wanted<T>(
    board: Board<T>,
    foreground: Option<(Seq<u8>, T)>,
    neighbors: Seq<Seq<u8>>,
    path: Seq<u8>,
)
    requires
        board.wf(),
        is_waited_for(board.replaced(foreground, neighbors), place(path)),
    ensures
        is_wanted(foreground, neighbors, place(path)),
{
    let at = place(path);
    let count = wanted_count(neighbors);
    let list = wanted(foreground, neighbors, count);
    wanted_holds(foreground, neighbors, count);
    wanted_is_sound(foreground, neighbors, count);
    let (active, left) = assigned(board.active, list);
    assignment_is_sound(board.active, list);
    assignment_only_takes(board.active, list);
    let (after, waiting, kept) = preempted(active, left);
    preemption_is_sound(active, left);
    let result = board.replaced(foreground, neighbors);
    assert forall|j: int| 0 <= j < list.len() implies is_wanted(
        foreground,
        neighbors,
        place((#[trigger] list[j]).path),
    ) by {
        if list[j].interest is Neighbor {
            let k = choose|k: int| 0 <= k < count && list[j].path == #[trigger] neighbors[k];
            assert(k == 0 || k == 1);
        }
    }
    if exists|i: int|
        0 <= i < result.active.len() && place((#[trigger] result.active[i]).path) == at
            && result.active[i].interest is Some && !result.active[i].cancelled {
        let i = choose|i: int|
            0 <= i < result.active.len() && place((#[trigger] result.active[i]).path) == at
                && result.active[i].interest is Some && !result.active[i].cancelled;
        if !is_wanted(foreground, neighbors, place(board.active[i].path)) {
            unwanted_decodes_are_stopped(board, foreground, neighbors, i);
        }
    } else {
        let j = choose|j: int|
            0 <= j < result.pending.len() && place((#[trigger] result.pending[j]).path) == at;
        if j < left.len() {
            assert(waiting[j] == left[j]);
            assert(list.contains(left[j]));
            let m = choose|m: int| 0 <= m < list.len() && list[m] == left[j];
            assert(is_wanted(foreground, neighbors, place(list[m].path)));
        } else {
            preemption_returns_only_speculation(active, left, j);
            let i = choose|i: int|
                0 <= i < active.len() && waiting[j].path == (#[trigger] active[i]).path
                    && active[i].interest is Some;
            assignment_hands_over(board.active, list, i);
            if !is_wanted(foreground, neighbors, place(board.active[i].path)) {
                assert(forall|m: int|
                    0 <= m < list.len() ==> place((#[trigger] list[m]).path) != place(
                        board.active[i].path,
                    ));
            }
        }
    }
}

/// Exactly what is wanted is waited for, once demand is replaced.
pub proof fn demand_is_met<T>(
    board: Board<T>,
    foreground: Option<(Seq<u8>, T)>,
    neighbors: Seq<Seq<u8>>,
    path: Seq<u8>,
)
    requires
        board.wf(),
    ensures
        is_waited_for(board.replaced(foreground, neighbors), place(path)) <==> is_wanted(
            foreground,
            neighbors,
            place(path),
        ),
{
    if is_wanted(foreground, neighbors, place(path)) {
        wanted_places_are_waited_for(board, foreground, neighbors, path);
    }
    if is_waited_for(board.replaced(foreground, neighbors), place(path)) {
        waited_for_places_are_wanted(board, foreground, neighbors, path);
    }
}

proof fn preemption_returns_only_speculation<T>(
    active: Seq<Run<T>>,
    pending: Seq<Wish<T>>,
    j: int,
)
    requires
        pending.len() <= j < preempted(active, pending).1.len(),
    ensures
        exists|i: int|
            0 <= i < active.len() && preempted(active, pending).1[j].path == (
            #[trigger] active[i]).path && active[i].interest is Some,
    decreases active.len(),
{
    if active.len() > 0 {
        let before = active.drop_last();
        let (runs, queue, had) = preempted(before, pending);
        let waiting = preempted(active, pending).1;
        if j < queue.len() {
            preemption_returns_only_speculation(before, pending, j);
            let i = choose|i: int|
                0 <= i < before.len() && queue[j].path == (#[trigger] before[i]).path
                    && before[i].interest is Some;
            assert(active[i] == before[i]);
            assert(waiting[j] == queue[j]);
        } else {
            assert(waiting[j].path == active[active.len() - 1].path);
        }
    }
}

proof fn retained_holds<T>(pending: Seq<Wish<T>>, at: Place, wish: Wish<T>)
    ensures
        retained(pending, at).contains(wish) <==> pending.contains(wish) && (place(wish.path) != at
            || wish.interest is Foreground),
    decreases pending.len(),
{
    if pending.len() > 0 {
        let before = pending.drop_last();
        retained_holds(before, at, wish);
        let rest = retained(before, at);
        let all = retained(pending, at);
        if pending.contains(wish) {
            let m = choose|m: int| 0 <= m < pending.len() && pending[m] == wish;
            if m < before.len() {
                assert(before[m] == wish);
            } else if place(wish.path) != at || wish.interest is Foreground {
                assert(all[rest.len() as int] == wish);
            }
        }
        if before.contains(wish) {
            let m = choose|m: int| 0 <= m < before.len() && before[m] == wish;
            assert(pending[m] == wish);
        }
        if rest.contains(wish) {
            let m = choose|m: int| 0 <= m < rest.len() && rest[m] == wish;
            assert(all[m] == wish);
        }
        if all.contains(wish) {
            let m = choose|m: int| 0 <= m < all.len() && all[m] == wish;
            if m < rest.len() {
                assert(rest[m] == wish);
            } else {
                assert(wish == pending.last());
                assert(pending[pending.len() - 1] == wish);
            }
        }
    }
}

/// A file that changed is not shown as it was: its decode is stopped and its result
/// is for nobody. A foreground that waited for it waits for a new decode; a neighbor
/// is dropped. Other places are left alone.
pub proof fn changed_files_are_decoded_again<T>(board: Board<T>, path: Seq<u8>, i: int, wish: Wish<T>)
    requires
        board.wf(),
        0 <= i < board.active.len(),
    ensures
        board.invalidated(path).recipient(path) is None,
        place(board.active[i].path) == place(path) ==> board.invalidated(path).active[i].cancelled
            && board.invalidated(path).active[i].interest is None,
        place(board.active[i].path) != place(path) ==> board.invalidated(path).active[i]
            == board.active[i],
        place(board.active[i].path) == place(path) ==> (
        board.active[i].interest matches Some(Interest::Foreground(token))
            ==> board.invalidated(path).pending.contains(
            Wish { path: board.active[i].path, interest: Interest::Foreground(token) },
        )),
        place(wish.path) != place(path) ==> board.invalidated(path).pending.contains(wish)
            == board.pending.contains(wish),
        place(wish.path) == place(path) && wish.interest is Neighbor ==> !board.invalidated(
            path,
        ).pending.contains(wish),
{
    let at = run_at(board.active, place(path));
    run_at_bounds(board.active, place(path));
    let after = board.invalidated(path);
    let kept = retained(board.pending, place(path));
    retained_holds(board.pending, place(path), wish);
    run_at_bounds(after.active, place(path));
    if at < board.active.len() {
        assert(forall|k: int|
            0 <= k < board.active.len() ==> (#[trigger] after.active[k]).path
                == board.active[k].path);
        let now = run_at(after.active, place(path));
        assert(now == at) by {
            assert(place(after.active[at].path) == place(path));
            if now < at {
                assert(place(board.active[now].path) == place(path));
            }
        }
        if i != at && place(board.active[i].path) == place(path) {
            if i < at {
                assert(place(board.active[i].path) != place(board.active[at].path));
            } else {
                assert(place(board.active[at].path) != place(board.active[i].path));
            }
        }
        if let Some(Interest::Foreground(token)) = board.active[at].interest {
            let first = Wish::<T> {
                path: board.active[at].path,
                interest: Interest::Foreground(token),
            };
            assert(after.pending == seq![first] + kept);
            assert(after.pending[0] == first);
            if kept.contains(wish) {
                let m = choose|m: int| 0 <= m < kept.len() && kept[m] == wish;
                assert(after.pending[m + 1] == wish);
            }
            if after.pending.contains(wish) && !kept.contains(wish) {
                let m = choose|m: int| 0 <= m < after.pending.len() && after.pending[m] == wish;
                if m > 0 {
                    assert(kept[m - 1] == wish);
                }
            }
        }
    }
}

/// Cancelling everything leaves nothing to start and nobody to tell; what runs
/// keeps its slot until it ends.
pub proof fn nothing_is_waited_for_after_cancelling<T>(board: Board<T>, path: Seq<u8>, i: int)
    ensures
        !is_waited_for(board.all_cancelled(), place(path)),
        board.all_cancelled().active.len() == board.active.len(),
        0 <= i < board.active.len() ==> board.all_cancelled().active[i].cancelled
            && board.all_cancelled().active[i].id == board.active[i].id,
{
}

}
