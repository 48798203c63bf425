//! The component supervisor: what is written to the health registry around
//! each run of a component, and how long to wait before the next one.

use vstd::prelude::*;
use vstd::string::*;
use crate::health::{health_wf, marked_error, marked_ok, restarted, HealthRegistry};

verus! {

/// The smaller of two numbers.
pub open spec fn least(a: nat, b: nat) -> nat {
    if a <= b {
        a
    } else {
        b
    }
}

/// Two to the power `e`.
pub open spec fn pow2(e: nat) -> nat
    decreases e,
{
    if e == 0 {
        1
    } else {
        2 * pow2((e - 1) as nat)
    }
}

/// The delay before the restart that follows `failures` failures in a row,
/// counted from none: it starts at `initial` and doubles with each failure
/// until it has reached `max`.
pub open spec fn delay_after(initial: nat, max: nat, failures: nat) -> nat
    decreases failures,
{
    if failures == 0 {
        initial
    } else {
        least(2 * delay_after(initial, max, (failures - 1) as nat), max)
    }
}

/// The time slept in all over `failures` failures in a row.
pub open spec fn slept_over(initial: nat, max: nat, failures: nat) -> nat
    decreases failures,
{
    if failures == 0 {
        0
    } else {
        slept_over(initial, max, (failures - 1) as nat) + delay_after(
            initial,
            max,
            (failures - 1) as nat,
        )
    }
}

/// The delays are the doubled initial delay, held at the largest delay: after
/// `failures` failures in a row the delay is `initial * 2^failures`, or `max`
/// where that is less.
pub proof fn lemma_delay_closed_form(initial: nat, max: nat, failures: nat)
    requires
        initial <= max,
    ensures
        delay_after(initial, max, failures) == least(initial * pow2(failures), max),
    decreases failures,
{
    if failures == 0 {
        assert(initial * pow2(0) == initial) by (nonlinear_arith)
            requires
                pow2(0) == 1,
        ;
    } else {
        let before = (failures - 1) as nat;
        lemma_delay_closed_form(initial, max, before);
        assert(initial * pow2(failures) == 2 * (initial * pow2(before))) by (nonlinear_arith)
            requires
                pow2(failures) == 2 * pow2(before),
        ;
    }
}

/// What ended a run of a component.
#[derive(Debug, PartialEq, Eq)]
pub enum ComponentExit {
    /// The component returned without an error, which it is not meant to do.
    Clean,
    /// The component failed with this error.
    Failed(String),
}

/// What is recorded as the last error of a component that returned without one.
pub open spec fn unexpected_exit_text() -> Seq<char> {
    "component exited unexpectedly"@
}

impl ComponentExit {
    /// The error that is recorded for the exit.
    pub open spec fn error_text(self) -> Seq<char> {
        match self {
            ComponentExit::Clean => unexpected_exit_text(),
            ComponentExit::Failed(e) => e@,
        }
    }
}

/// The restart policy of one component: the delay before its next restart,
/// between an initial and a largest delay.
pub struct Supervisor {
    name: String,
    initial: u64,
    max: u64,
    backoff: u64,
}

/// The restart policy as a mathematical value.
pub struct SupervisorView {
    pub name: Seq<char>,
    pub initial: u64,
    pub max: u64,
    pub backoff: u64,
}

impl View for Supervisor {
    type V = SupervisorView;

    closed spec fn view(&self) -> SupervisorView {
        SupervisorView {
            name: self.name@,
            initial: self.initial,
            max: self.max,
            backoff: self.backoff,
        }
    }
}

impl SupervisorView {
    /// The delays are in order: at least one second, and the next one between
    /// the initial and the largest.
    pub open spec fn wf(self) -> bool {
        1 <= self.initial <= self.backoff <= self.max
    }

    /// The policy after a run of the component ended: the delay that is slept
    /// now, and the policy for the run after that. A clean exit sets the delay
    /// back to the initial one first. The delay doubles after it was taken, so
    /// the first failure waits the initial delay.
    pub open spec fn after_exit(self, clean: bool) -> (u64, SupervisorView) {
        let sleep = if clean {
            self.initial
        } else {
            self.backoff
        };
        (sleep, SupervisorView { backoff: least(2 * sleep as nat, self.max as nat) as u64, ..self })
    }

    /// The policy after `failures` failures in a row.
    pub open spec fn after_failures(self, failures: nat) -> SupervisorView
        decreases failures,
    {
        if failures == 0 {
            self
        } else {
            self.after_failures((failures - 1) as nat).after_exit(false).1
        }
    }
}

/// After `failures` failures in a row from its start, a supervisor waits
/// `delay_after(initial, max, failures)` seconds before the next restart.
pub proof fn lemma_backoff_sequence(start: SupervisorView, failures: nat)
    requires
        start.wf(),
        start.backoff == start.initial,
    ensures
        start.after_failures(failures).wf(),
        start.after_failures(failures).initial == start.initial,
        start.after_failures(failures).max == start.max,
        start.after_failures(failures).backoff == delay_after(
            start.initial as nat,
            start.max as nat,
            failures,
        ),
        start.after_failures(failures).after_exit(false).0 == least(
            start.initial as nat * pow2(failures),
            start.max as nat,
        ),
    decreases failures,
{
    if failures > 0 {
        lemma_backoff_sequence(start, (failures - 1) as nat);
    }
    lemma_delay_closed_form(start.initial as nat, start.max as nat, failures);
}

/// The seconds that a supervisor sleeps in all over its first `failures`
/// failures in a row.
pub open spec fn slept(start: SupervisorView, failures: nat) -> nat
    decreases failures,
{
    if failures == 0 {
        0
    } else {
        slept(start, (failures - 1) as nat) + start.after_failures(
            (failures - 1) as nat,
        ).after_exit(false).0 as nat
    }
}

/// Over `failures` failures in a row a supervisor sleeps the sum of the
/// doubled initial delays, each held at the largest delay: with an initial
/// delay of 1 and a largest of 8 that is 1 + 2 + 4 + 8 + 8 + ...
pub proof fn lemma_cumulative_sleep(start: SupervisorView, failures: nat)
    requires
        start.wf(),
        start.backoff == start.initial,
    ensures
        slept(start, failures) == slept_over(start.initial as nat, start.max as nat, failures),
    decreases failures,
{
    if failures > 0 {
        lemma_cumulative_sleep(start, (failures - 1) as nat);
        lemma_backoff_sequence(start, (failures - 1) as nat);
    }
}

impl Supervisor {
    /// The supervisor of the component `name`. The initial delay is at least
    /// one second, and the largest delay at least the initial one.
    pub fn new(name: &str, initial_backoff_secs: u64, max_backoff_secs: u64) -> (r: Supervisor)
        ensures
            r@.name == name@,
            r@.initial == if initial_backoff_secs < 1 {
                1
            } else {
                initial_backoff_secs
            },
            r@.max == if max_backoff_secs < r@.initial {
                r@.initial
            } else {
                max_backoff_secs
            },
            r@.backoff == r@.initial,
            r@.wf(),
    {
        let initial = if initial_backoff_secs < 1 {
            1
        } else {
            initial_backoff_secs
        };
        let max = if max_backoff_secs < initial {
            initial
        } else {
            max_backoff_secs
        };
        Supervisor { name: name.to_owned(), initial, max, backoff: initial }
    }

    /// The delays are in order.
    pub open spec fn wf(&self) -> bool {
        self@.wf()
    }

    /// The name of the component.
    pub fn name(&self) -> (r: &str)
        ensures
            r@ == self@.name,
    {
        self.name.as_str()
    }

    /// The delay before the next restart, in seconds.
    pub fn backoff_secs(&self) -> (r: u64)
        ensures
            r == self@.backoff,
    {
        self.backoff
    }

    /// To be called before each run of the component: marks it as up.
    pub fn before_run(&self, health: &mut HealthRegistry)
        requires
            health_wf(old(health)@),
        ensures
            final(health)@ == marked_ok(old(health)@, self@.name),
            health_wf(final(health)@),
    {
        health.mark_ok(self.name.as_str());
    }

    /// To be called when a run of the component has ended, however it ended:
    /// marks the component as failed with the error of the exit, counts the
    /// restart, and gives the seconds to sleep before the next run.
    pub fn after_run(&mut self, health: &mut HealthRegistry, exit: &ComponentExit) -> (sleep: u64)
        requires
            old(self)@.wf(),
            health_wf(old(health)@),
        ensures
            (sleep, final(self)@) == old(self)@.after_exit(*exit is Clean),
            final(self)@.wf(),
            final(health)@ == restarted(
                marked_error(old(health)@, old(self)@.name, exit.error_text()),
                old(self)@.name,
            ),
            health_wf(final(health)@),
    {
        match exit {
            ComponentExit::Clean => {
                health.mark_error(self.name.as_str(), "component exited unexpectedly");
                self.backoff = self.initial;
            },
            ComponentExit::Failed(e) => {
                health.mark_error(self.name.as_str(), e.as_str());
            },
        }
        health.bump_restart(self.name.as_str());
        let sleep = self.backoff;
        let doubled = if sleep > u64::MAX / 2 {
            u64::MAX
        } else {
            sleep * 2
        };
        self.backoff = if doubled < self.max {
            doubled
        } else {
            self.max
        };
        sleep
    }
}

} // verus!
