//! The sweep as a whole, as a model: one coordinator and the tasks it has
//! dispatched, moved forward by what the caller does.
//!
//! The model is built from the same transition functions that the
//! coordinator's and the tasks' own contracts are stated in, so what is
//! proved of it holds of every caller that starts a task for each target it
//! is handed and reports a task's end once the task is done.

use vstd::prelude::*;
use crate::address::HostAddress;
use crate::coordinator::{CoordinatorView, ScanConfig};
use crate::target::{
    lemma_step_makes_progress, probe_result, ConnectAttempt, EventView, StateView, TaskView,
};

verus! {

/// One dispatched task, with what the model remembers of it: how its connect
/// attempt ended, once it has, and whether the coordinator has been told of the
/// task's end.
pub struct Slot {
    pub task: TaskView,
    pub attempt: Option<ConnectAttempt>,
    pub joined: bool,
}

impl Slot {
    /// Whether the task is being probed.
    pub open spec fn probing(self) -> bool {
        self.task.state.in_flight()
    }

    /// Whether the task still holds its unit of the budget.
    pub open spec fn holds_unit(self) -> bool {
        !self.joined
    }

    /// Whether the task has found its port open.
    pub open spec fn found_open(self) -> bool {
        self.task.state matches StateView::Done(outcome) && outcome.is_open()
    }

    /// The slot after its task has taken `event`. The connect attempt that the
    /// task acts on is remembered.
    pub open spec fn step(self, event: EventView) -> Slot {
        Slot {
            task: self.task.step(event),
            attempt: if self.task.state is Probing && event is ConnectFinished {
                Some(event->ConnectFinished_0)
            } else {
                self.attempt
            },
            joined: self.joined,
        }
    }

    /// What holds of every slot of a sweep: its task has been dispatched; it is
    /// done if its end has been reported; and once it is past probing, it has
    /// acted on a connect attempt and holds the port open exactly if that
    /// attempt connected.
    pub open spec fn consistent(self) -> bool {
        &&& !(self.task.state is Pending)
        &&& self.joined ==> self.task.state is Done
        &&& self.task.state.rank() < 3 ==> self.attempt is Some && (self.task.state.found_open()
            <==> self.attempt == Some(ConnectAttempt::Connected))
    }
}

/// What the caller of a sweep does.
pub enum SweepEvent {
    /// Asks the coordinator for its decision and, if handed a target, starts a
    /// task for it whose generator is in state `seed`.
    Poll { seed: u8 },
    /// Hands the task in slot `index` the result of its last action.
    Task { index: int, event: EventView },
    /// Tells the coordinator of the end of the task in slot `index`, once: the
    /// task is done and has not been reported before.
    Join { index: int },
}

/// The number of slots among `slots` that satisfy `p`.
pub open spec fn count(slots: Seq<Slot>, p: spec_fn(Slot) -> bool) -> nat
    decreases slots.len(),
{
    if slots.len() == 0 {
        0
    } else {
        count(slots.drop_last(), p) + if p(slots.last()) {
            1nat
        } else {
            0nat
        }
    }
}

/// A coordinator with the tasks it has dispatched, in the order of dispatch.
pub struct SweepModel {
    pub coordinator: CoordinatorView,
    pub slots: Seq<Slot>,
}

impl SweepModel {
    /// The sweep of `hosts` before anything is dispatched.
    pub open spec fn start(hosts: Seq<HostAddress>, config: ScanConfig) -> SweepModel {
        SweepModel {
            coordinator: CoordinatorView { pending: hosts, config, in_flight: 0 },
            slots: Seq::empty(),
        }
    }

    /// The task that is started for a target that the coordinator hands out.
    pub open spec fn started_task(self, seed: u8) -> TaskView {
        TaskView {
            target: self.coordinator.decision()->Dispatch_0,
            banner_enabled: self.coordinator.config.banner_enabled,
            seed,
            state: StateView::Pending,
        }.step(EventView::Dispatched)
    }

    /// The sweep after `event`.
    pub open spec fn apply(self, event: SweepEvent) -> SweepModel {
        match event {
            SweepEvent::Poll { seed } => if self.coordinator.decision() is Dispatch {
                SweepModel {
                    coordinator: self.coordinator.after_poll(),
                    slots: self.slots.push(
                        Slot { task: self.started_task(seed), attempt: None, joined: false },
                    ),
                }
            } else {
                self
            },
            SweepEvent::Task { index, event } => if 0 <= index < self.slots.len() {
                SweepModel {
                    coordinator: self.coordinator,
                    slots: self.slots.update(index, self.slots[index].step(event)),
                }
            } else {
                self
            },
            SweepEvent::Join { index } => if 0 <= index < self.slots.len()
                && self.slots[index].task.state is Done && !self.slots[index].joined {
                SweepModel {
                    coordinator: self.coordinator.after_complete(),
                    slots: self.slots.update(
                        index,
                        Slot {
                            task: self.slots[index].task,
                            attempt: self.slots[index].attempt,
                            joined: true,
                        },
                    ),
                }
            } else {
                self
            },
        }
    }

    /// The sweep after `events`, first to last.
    pub open spec fn run(self, events: Seq<SweepEvent>) -> SweepModel
        decreases events.len(),
    {
        if events.len() == 0 {
            self
        } else {
            self.apply(events[0]).run(events.drop_first())
        }
    }

    /// The number of targets that are being probed.
    pub open spec fn probing(self) -> nat {
        count(self.slots, |s: Slot| s.probing())
    }

    /// The number of tasks that hold a unit of the budget.
    pub open spec fn holding(self) -> nat {
        count(self.slots, |s: Slot| s.holds_unit())
    }

    /// The hosts whose port the sweep has found open.
    pub open spec fn open_hosts(self) -> Set<HostAddress> {
        Set::new(
            |h: HostAddress|
                exists|i: int|
                    0 <= i < self.slots.len() && (#[trigger] self.slots[i]).task.target.host == h
                        && self.slots[i].found_open(),
        )
    }

    /// What holds of a sweep of `hosts` at every point: the coordinator counts
    /// exactly the tasks that hold a unit, within its budget; every slot is
    /// consistent; and the tasks are the targets of the hosts enumerated so
    /// far, one each and in order.
    pub open spec fn consistent(self, hosts: Seq<HostAddress>) -> bool {
        &&& self.holding() == self.coordinator.in_flight
        &&& self.coordinator.within_budget()
        &&& self.slots.len() <= hosts.len()
        &&& self.coordinator.pending == hosts.skip(self.slots.len() as int)
        &&& forall|i: int|
            0 <= i < self.slots.len() ==> {
                &&& (#[trigger] self.slots[i]).consistent()
                &&& self.slots[i].task.target == self.coordinator.config.target_for(hosts[i])
                &&& self.slots[i].task.banner_enabled == self.coordinator.config.banner_enabled
            }
    }
}

/// Counting after one more slot.
proof fn lemma_count_push(slots: Seq<Slot>, slot: Slot, p: spec_fn(Slot) -> bool)
    ensures
        count(slots.push(slot), p) == count(slots, p) + if p(slot) {
            1nat
        } else {
            0nat
        },
{
    assert(slots.push(slot).drop_last() =~= slots);
}

/// Counting after one slot has changed.
proof fn lemma_count_update(slots: Seq<Slot>, index: int, slot: Slot, p: spec_fn(Slot) -> bool)
    requires
        0 <= index < slots.len(),
    ensures
        count(slots.update(index, slot), p) + (if p(slots[index]) {
            1nat
        } else {
            0nat
        }) == count(slots, p) + if p(slot) {
            1nat
        } else {
            0nat
        },
    decreases slots.len(),
{
    if index == slots.len() - 1 {
        assert(slots.update(index, slot).drop_last() =~= slots.drop_last());
    } else {
        assert(slots.update(index, slot).drop_last() =~= slots.drop_last().update(index, slot));
        lemma_count_update(slots.drop_last(), index, slot, p);
    }
}

/// Where `p` implies `q` slot by slot, no more slots satisfy `p` than `q`.
proof fn lemma_count_le(slots: Seq<Slot>, p: spec_fn(Slot) -> bool, q: spec_fn(Slot) -> bool)
    requires
        forall|i: int| 0 <= i < slots.len() && p(#[trigger] slots[i]) ==> q(slots[i]),
    ensures
        count(slots, p) <= count(slots, q),
    decreases slots.len(),
{
    if slots.len() > 0 {
        let front = slots.drop_last();
        assert forall|i: int| 0 <= i < front.len() && p(#[trigger] front[i]) implies q(
            front[i],
        ) by {
            assert(front[i] == slots[i]);
        }
        lemma_count_le(front, p, q);
    }
}

/// Where no slot satisfies `p`, the count is zero, and conversely.
proof fn lemma_count_zero(slots: Seq<Slot>, p: spec_fn(Slot) -> bool)
    ensures
        count(slots, p) == 0 <==> forall|i: int| 0 <= i < slots.len() ==> !p(#[trigger] slots[i]),
    decreases slots.len(),
{
    if slots.len() > 0 {
        let front = slots.drop_last();
        lemma_count_zero(front, p);
        if count(slots, p) == 0 {
            assert forall|i: int| 0 <= i < slots.len() implies !p(#[trigger] slots[i]) by {
                if i < front.len() {
                    assert(front[i] == slots[i]);
                }
            }
        } else {
            if !p(slots.last()) {
                let i = choose|i: int| 0 <= i < front.len() && p(#[trigger] front[i]);
                assert(front[i] == slots[i]);
            }
        }
    }
}

/// One event keeps a sweep consistent.
proof fn lemma_apply_keeps_consistent(sweep: SweepModel, hosts: Seq<HostAddress>, event: SweepEvent)
    requires
        sweep.consistent(hosts),
    ensures
        sweep.apply(event).consistent(hosts),
        sweep.apply(event).coordinator.config == sweep.coordinator.config,
{
    let next = sweep.apply(event);
    let holds = |s: Slot| s.holds_unit();
    match event {
        SweepEvent::Poll { seed } => {
            if sweep.coordinator.decision() is Dispatch {
                let slot = Slot { task: sweep.started_task(seed), attempt: None, joined: false };
                lemma_count_push(sweep.slots, slot, holds);
                let n = sweep.slots.len() as int;
                assert(sweep.coordinator.pending[0] == hosts[n]);
                assert(next.coordinator.pending =~= hosts.skip(n + 1));
                assert forall|i: int| 0 <= i < next.slots.len() implies {
                    &&& (#[trigger] next.slots[i]).consistent()
                    &&& next.slots[i].task.target == next.coordinator.config.target_for(hosts[i])
                    &&& next.slots[i].task.banner_enabled
                        == next.coordinator.config.banner_enabled
                } by {
                    if i < n {
                        assert(next.slots[i] == sweep.slots[i]);
                    }
                }
            }
        },
        SweepEvent::Task { index, event } => {
            if 0 <= index < sweep.slots.len() {
                let old_slot = sweep.slots[index];
                let slot = old_slot.step(event);
                lemma_count_update(sweep.slots, index, slot, holds);
                lemma_step_makes_progress(old_slot.task, event);
                assert forall|i: int| 0 <= i < next.slots.len() implies {
                    &&& (#[trigger] next.slots[i]).consistent()
                    &&& next.slots[i].task.target == next.coordinator.config.target_for(hosts[i])
                    &&& next.slots[i].task.banner_enabled
                        == next.coordinator.config.banner_enabled
                } by {
                    if i != index {
                        assert(next.slots[i] == sweep.slots[i]);
                    }
                }
            }
        },
        SweepEvent::Join { index } => {
            if 0 <= index < sweep.slots.len() && sweep.slots[index].task.state is Done
                && !sweep.slots[index].joined {
                let slot = Slot {
                    task: sweep.slots[index].task,
                    attempt: sweep.slots[index].attempt,
                    joined: true,
                };
                lemma_count_update(sweep.slots, index, slot, holds);
                assert forall|i: int| 0 <= i < next.slots.len() implies {
                    &&& (#[trigger] next.slots[i]).consistent()
                    &&& next.slots[i].task.target == next.coordinator.config.target_for(hosts[i])
                    &&& next.slots[i].task.banner_enabled
                        == next.coordinator.config.banner_enabled
                } by {
                    if i != index {
                        assert(next.slots[i] == sweep.slots[i]);
                    }
                }
            }
        },
    }
}

/// A run keeps a sweep consistent.
proof fn lemma_run_keeps_consistent(
    sweep: SweepModel,
    hosts: Seq<HostAddress>,
    events: Seq<SweepEvent>,
)
    requires
        sweep.consistent(hosts),
    ensures
        sweep.run(events).consistent(hosts),
        sweep.run(events).coordinator.config == sweep.coordinator.config,
    decreases events.len(),
{
    if events.len() > 0 {
        lemma_apply_keeps_consistent(sweep, hosts, events[0]);
        lemma_run_keeps_consistent(sweep.apply(events[0]), hosts, events.drop_first());
    }
}

/// In a consistent sweep no more targets are being probed than the budget
/// allows, and once the coordinator says that the sweep is finished, every
/// host has had its task and every task is done.
proof fn lemma_consistent_is_bounded(sweep: SweepModel, hosts: Seq<HostAddress>)
    requires
        sweep.consistent(hosts),
    ensures
        sweep.probing() <= sweep.coordinator.config.concurrency,
        sweep.coordinator.decision() is Finished ==> sweep.slots.len() == hosts.len()
            && forall|i: int| 0 <= i < sweep.slots.len() ==> (#[trigger] sweep.slots[i]).task.state is Done,
{
    let probes = |s: Slot| s.probing();
    let holds = |s: Slot| s.holds_unit();
    assert forall|i: int| 0 <= i < sweep.slots.len() && probes(#[trigger] sweep.slots[i]) implies holds(
        sweep.slots[i],
    ) by {}
    lemma_count_le(sweep.slots, probes, holds);
    if sweep.coordinator.decision() is Finished {
        lemma_count_zero(sweep.slots, holds);
        assert forall|i: int| 0 <= i < sweep.slots.len() implies (#[trigger] sweep.slots[i]).task.state is Done by {
            assert(!holds(sweep.slots[i]));
        }
    }
}

/// At no point of a sweep are more targets being probed than the concurrency
/// limit allows. Whatever the caller does and in whatever order (asks for
/// decisions, feeds results to tasks, reports tasks that are done), after
/// every event the tasks that are connecting or grabbing a banner number at
/// most the limit; each task is the target of one enumerated host, in the
/// order of enumeration; and the sweep is finished only when every host has
/// had its task and every task is done.
pub proof fn lemma_sweep_stays_within_budget(
    hosts: Seq<HostAddress>,
    config: ScanConfig,
    events: Seq<SweepEvent>,
)
    ensures
        forall|k: int|
            0 <= k <= events.len() ==> (#[trigger] SweepModel::start(hosts, config).run(
                events.take(k),
            )).probing() <= config.concurrency,
        ({
            let end = SweepModel::start(hosts, config).run(events);
            &&& end.probing() <= config.concurrency
            &&& end.slots.len() <= hosts.len()
            &&& end.coordinator.pending == hosts.skip(end.slots.len() as int)
            &&& forall|i: int|
                0 <= i < end.slots.len() ==> (#[trigger] end.slots[i]).task.target
                    == config.target_for(hosts[i])
            &&& end.coordinator.decision() is Finished ==> end.slots.len() == hosts.len()
                && forall|i: int|
                0 <= i < end.slots.len() ==> (#[trigger] end.slots[i]).task.state is Done
        }),
{
    let start = SweepModel::start(hosts, config);
    assert(start.coordinator.pending =~= hosts.skip(0));
    assert(start.consistent(hosts));
    assert forall|k: int| 0 <= k <= events.len() implies (#[trigger] start.run(
        events.take(k),
    )).probing() <= config.concurrency by {
        lemma_run_keeps_consistent(start, hosts, events.take(k));
        lemma_consistent_is_bounded(start.run(events.take(k)), hosts);
    }
    lemma_run_keeps_consistent(start, hosts, events);
    lemma_consistent_is_bounded(start.run(events), hosts);
}

/// Two sweeps of the same hosts find the same addresses open whenever the
/// connect attempts ended alike host by host, whatever else differed between
/// the two runs: the concurrency limit, the timeout, the banner setting, the
/// probes drawn, the replies read, and the order in which things happened.
pub proof fn lemma_same_listeners_same_open_hosts(
    hosts: Seq<HostAddress>,
    first_config: ScanConfig,
    second_config: ScanConfig,
    first_events: Seq<SweepEvent>,
    second_events: Seq<SweepEvent>,
)
    requires
        SweepModel::start(hosts, first_config).run(first_events).coordinator.decision() is Finished,
        SweepModel::start(hosts, second_config).run(second_events).coordinator.decision()
            is Finished,
        forall|i: int|
            0 <= i < hosts.len() ==> probe_result(
                (#[trigger] SweepModel::start(hosts, first_config).run(
                    first_events,
                ).slots[i]).attempt->0,
            ) == probe_result(
                (#[trigger] SweepModel::start(hosts, second_config).run(
                    second_events,
                ).slots[i]).attempt->0,
            ),
    ensures
        SweepModel::start(hosts, first_config).run(first_events).open_hosts() == SweepModel::start(
            hosts,
            second_config,
        ).run(second_events).open_hosts(),
{
    let first = SweepModel::start(hosts, first_config).run(first_events);
    let second = SweepModel::start(hosts, second_config).run(second_events);
    lemma_sweep_stays_within_budget(hosts, first_config, first_events);
    lemma_sweep_stays_within_budget(hosts, second_config, second_events);
    let start_first = SweepModel::start(hosts, first_config);
    let start_second = SweepModel::start(hosts, second_config);
    assert(start_first.coordinator.pending =~= hosts.skip(0));
    assert(start_second.coordinator.pending =~= hosts.skip(0));
    lemma_run_keeps_consistent(start_first, hosts, first_events);
    lemma_run_keeps_consistent(start_second, hosts, second_events);
    assert forall|h: HostAddress| first.open_hosts().contains(h) == second.open_hosts().contains(
        h,
    ) by {
        if first.open_hosts().contains(h) {
            let i = choose|i: int|
                0 <= i < first.slots.len() && (#[trigger] first.slots[i]).task.target.host == h
                    && first.slots[i].found_open();
            assert(second.slots[i].consistent());
            assert(first.slots[i].consistent());
            assert(second.slots[i].task.target.host == h);
            assert(second.slots[i].found_open());
        }
        if second.open_hosts().contains(h) {
            let i = choose|i: int|
                0 <= i < second.slots.len() && (#[trigger] second.slots[i]).task.target.host == h
                    && second.slots[i].found_open();
            assert(second.slots[i].consistent());
            assert(first.slots[i].consistent());
            assert(first.slots[i].task.target.host == h);
            assert(first.slots[i].found_open());
        }
    }
    assert(first.open_hosts() =~= second.open_hosts());
}

} // verus!
