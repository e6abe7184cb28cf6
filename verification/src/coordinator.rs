//! The sweep as a whole: which target goes out next, and when none may.
//!
//! The coordinator owns the enumerator and the concurrency budget. The caller
//! asks it what to do, starts a task for each target it hands out, and tells
//! it of each task that has ended. Nothing here waits or runs a task.

use vstd::prelude::*;
use crate::address::HostAddress;
use crate::budget::{lemma_wf_is_respected, ConcurrencyBudget};
use crate::enumerator::AddressEnumerator;
use crate::error::ScanError;
use crate::subnet::{parsed_subnet, Subnet};
use crate::target::ScanTarget;

verus! {

/// The concurrency limit of a run that names none.
pub const DEFAULT_CONCURRENCY: usize = 200;

/// The timeout, in milliseconds, of a run that names none.
pub const DEFAULT_TIMEOUT_MS: u64 = 1000;

/// The settings that every target of a run shares.
#[derive(Clone, Copy, Debug, PartialEq, Eq, Structural)]
pub struct ScanConfig {
    /// The port that is probed on every host.
    pub port: u16,
    /// The most targets that may be probed at once.
    pub concurrency: usize,
    /// The ceiling, in milliseconds, on a connect attempt and, on its own, on
    /// a banner exchange.
    pub timeout_ms: u64,
    /// Whether a banner is read from the ports found open.
    pub banner_enabled: bool,
}

impl ScanConfig {
    /// The settings for `port` with every option at its default: 200 targets
    /// at once, a timeout of one second, banners read.
    pub fn new(port: u16) -> (c: Self)
        ensures
            c == (ScanConfig {
                port,
                concurrency: DEFAULT_CONCURRENCY,
                timeout_ms: DEFAULT_TIMEOUT_MS,
                banner_enabled: true,
            }),
    {
        ScanConfig {
            port,
            concurrency: DEFAULT_CONCURRENCY,
            timeout_ms: DEFAULT_TIMEOUT_MS,
            banner_enabled: true,
        }
    }

    /// The target that these settings make of `host`.
    pub open spec fn target_for(self, host: HostAddress) -> ScanTarget {
        ScanTarget { host, port: self.port, timeout_ms: self.timeout_ms }
    }
}

/// What the coordinator tells the caller to do next.
#[derive(Clone, Copy, Debug, PartialEq, Eq, Structural)]
pub enum Decision {
    /// Start a task for this target; it now holds one unit of the budget.
    Dispatch(ScanTarget),
    /// Start nothing until a task has ended: the budget is used up, or every
    /// target is out and some are still being probed.
    Wait,
    /// Every target has been dispatched and every task has ended.
    Finished,
}

/// What happens to a coordinator: it is asked for a decision, or it is told
/// that a task has ended.
pub enum CoordinatorEvent {
    Poll,
    Complete,
}

/// The mathematical content of a `ScanCoordinator`.
pub struct CoordinatorView {
    /// The hosts that have not been dispatched, in the order in which they
    /// will be.
    pub pending: Seq<HostAddress>,
    pub config: ScanConfig,
    /// The number of tasks that have been dispatched and have not ended.
    pub in_flight: nat,
}

impl CoordinatorView {
    /// No more targets are being probed than the limit allows.
    pub open spec fn within_budget(self) -> bool {
        self.in_flight <= self.config.concurrency
    }

    /// The decision in this state.
    pub open spec fn decision(self) -> Decision {
        if self.pending.len() > 0 {
            if self.in_flight < self.config.concurrency {
                Decision::Dispatch(self.config.target_for(self.pending[0]))
            } else {
                Decision::Wait
            }
        } else if self.in_flight > 0 {
            Decision::Wait
        } else {
            Decision::Finished
        }
    }

    /// The state after the decision has been handed out: a dispatched target
    /// leaves the pending hosts and takes a unit of the budget.
    pub open spec fn after_poll(self) -> CoordinatorView {
        if self.decision() is Dispatch {
            CoordinatorView {
                pending: self.pending.drop_first(),
                config: self.config,
                in_flight: self.in_flight + 1,
            }
        } else {
            self
        }
    }

    /// The state after a task has ended: its unit of the budget is free again.
    pub open spec fn after_complete(self) -> CoordinatorView {
        if self.in_flight > 0 {
            CoordinatorView {
                pending: self.pending,
                config: self.config,
                in_flight: (self.in_flight - 1) as nat,
            }
        } else {
            self
        }
    }

    /// The state after `event`.
    pub open spec fn apply(self, event: CoordinatorEvent) -> CoordinatorView {
        match event {
            CoordinatorEvent::Poll => self.after_poll(),
            CoordinatorEvent::Complete => self.after_complete(),
        }
    }

    /// The state after `events`, first to last.
    pub open spec fn run(self, events: Seq<CoordinatorEvent>) -> CoordinatorView
        decreases events.len(),
    {
        if events.len() == 0 {
            self
        } else {
            self.apply(events[0]).run(events.drop_first())
        }
    }
}

/// The coordinator of one sweep.
#[derive(Clone, Copy, Debug)]
pub struct ScanCoordinator {
    hosts: AddressEnumerator,
    config: ScanConfig,
    budget: ConcurrencyBudget,
}

impl View for ScanCoordinator {
    type V = CoordinatorView;

    closed spec fn view(&self) -> CoordinatorView {
        CoordinatorView {
            pending: self.hosts@,
            config: self.config,
            in_flight: self.budget@.held,
        }
    }
}

impl ScanCoordinator {
    /// The invariant of every coordinator that this module hands out; it
    /// includes that the budget is respected.
    pub closed spec fn wf(&self) -> bool {
        &&& self.hosts.wf()
        &&& self.budget.wf()
        &&& self.budget@.respected()
        &&& self.budget@.capacity == self.config.concurrency
    }

    /// A coordinator at the start of the sweep of `subnet`: every host is
    /// pending and nothing is in flight.
    pub fn new(subnet: &Subnet, config: ScanConfig) -> (c: Self)
        requires
            subnet.wf(),
        ensures
            c.wf(),
            c@ == (CoordinatorView { pending: subnet@.hosts(), config, in_flight: 0 }),
    {
        let budget = ConcurrencyBudget::new(config.concurrency);
        proof {
            lemma_wf_is_respected(budget);
        }
        ScanCoordinator { hosts: AddressEnumerator::new(subnet), config, budget }
    }

    /// A coordinator at the start of the sweep of the subnet written in
    /// `text`. Text that is no subnet fails the run before anything is
    /// dispatched.
    pub fn start(text: &str, config: ScanConfig) -> (r: Result<Self, ScanError>)
        ensures
            match r {
                Ok(c) => c.wf() && parsed_subnet(text@) is Some && c@ == (CoordinatorView {
                    pending: parsed_subnet(text@)->0.hosts(),
                    config,
                    in_flight: 0,
                }),
                Err(e) => e == ScanError::InvalidSubnet && parsed_subnet(text@) is None,
            },
    {
        match Subnet::parse(text) {
            Ok(subnet) => Ok(ScanCoordinator::new(&subnet, config)),
            Err(e) => Err(e),
        }
    }

    /// The settings of the run.
    pub fn config(&self) -> (c: ScanConfig)
        ensures
            c == self@.config,
    {
        self.config
    }

    /// The number of hosts that have not been dispatched, found without
    /// walking them; before the first decision this is the size of the sweep.
    /// `None` stands for the 2^128 addresses of the whole IPv6 space.
    pub fn pending(&self) -> (n: Option<u128>)
        requires
            self.wf(),
        ensures
            match n {
                Some(count) => count == self@.pending.len(),
                None => self@.pending.len() > u128::MAX,
            },
    {
        self.hosts.remaining()
    }

    /// The number of tasks that have been dispatched and have not ended.
    pub fn in_flight(&self) -> (n: usize)
        requires
            self.wf(),
        ensures
            n == self@.in_flight,
            n <= self@.config.concurrency,
    {
        self.budget.held()
    }

    /// Decides what the caller does next. A target is handed out only while
    /// fewer tasks are in flight than the limit allows; the hosts go out in
    /// the order of the enumeration, each once.
    pub fn poll(&mut self) -> (d: Decision)
        requires
            old(self).wf(),
        ensures
            final(self).wf(),
            d == old(self)@.decision(),
            final(self)@ == old(self)@.after_poll(),
            d matches Decision::Dispatch(target) ==> target.host.valid(),
    {
        if self.budget.has_room() {
            match self.hosts.next_host() {
                Some(host) => {
                    self.budget.try_acquire();
                    return Decision::Dispatch(
                        ScanTarget {
                            host,
                            port: self.config.port,
                            timeout_ms: self.config.timeout_ms,
                        },
                    );
                },
                None => {},
            }
        }
        if self.hosts.is_exhausted() && self.budget.held() == 0 {
            Decision::Finished
        } else {
            Decision::Wait
        }
    }

    /// Records that a task has ended, however it ended, and frees its unit of
    /// the budget. Returns whether a task was in flight at all.
    pub fn complete(&mut self) -> (released: bool)
        requires
            old(self).wf(),
        ensures
            final(self).wf(),
            released == (old(self)@.in_flight > 0),
            final(self)@ == old(self)@.after_complete(),
    {
        self.budget.release()
    }
}

/// At no point of a run are more targets being probed than the limit allows:
/// whatever sequence of decisions and completions a coordinator goes through,
/// the number in flight stays within the budget.
pub proof fn lemma_budget_holds_throughout(start: CoordinatorView, events: Seq<CoordinatorEvent>)
    requires
        start.within_budget(),
    ensures
        start.run(events).within_budget(),
        start.run(events).config == start.config,
        forall|k: int|
            0 <= k <= events.len() ==> (#[trigger] start.run(events.take(k))).within_budget(),
{
    assert forall|k: int| 0 <= k <= events.len() implies (#[trigger] start.run(
        events.take(k),
    )).within_budget() by {
        lemma_run_stays_within_budget(start, events.take(k));
    }
    lemma_run_stays_within_budget(start, events);
}

/// A run from a state within the budget ends within the budget.
proof fn lemma_run_stays_within_budget(start: CoordinatorView, events: Seq<CoordinatorEvent>)
    requires
        start.within_budget(),
    ensures
        start.run(events).within_budget(),
        start.run(events).config == start.config,
    decreases events.len(),
{
    if events.len() > 0 {
        lemma_run_stays_within_budget(start.apply(events[0]), events.drop_first());
    }
}

/// A coordinator made by this module is within its budget.
pub proof fn lemma_wf_is_within_budget(c: ScanCoordinator)
    requires
        c.wf(),
    ensures
        c@.within_budget(),
{
}

/// With a limit of at least one, a coordinator within its budget never waits
/// in vain: when it says to wait, a task is in flight whose end will free a
/// unit.
pub proof fn lemma_wait_has_a_task_in_flight(c: CoordinatorView)
    requires
        c.config.concurrency >= 1,
        c.decision() is Wait,
    ensures
        c.in_flight > 0,
{
}

} // verus!
