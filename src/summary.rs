//! The figures of the end-of-run summary, read from the run context. How they
//! are shown is up to the caller.
use vstd::prelude::*;
use crate::context::{adjusted, count, Category, RunContext};

verus! {

/// The one-line judgement of a run.
#[derive(PartialEq, Eq, Structural, Clone, Copy, Debug)]
pub enum Verdict {
    /// No host failed and none needed a change.
    Perfect,
    /// No host failed and some were changed.
    ActionsApplied,
    /// At least one host failed.
    Failures,
}

/// A count of outcomes and of the hosts that had at least one.
#[derive(PartialEq, Eq, Structural, Clone, Copy, Debug)]
pub struct Tally {
    pub items: u64,
    pub hosts: usize,
}

/// The figures of the summary table.
#[derive(PartialEq, Eq, Structural, Clone, Copy, Debug)]
pub struct Summary {
    pub roles: u64,
    pub tasks: u64,
    pub seen_hosts: usize,
    pub attempted: Tally,
    pub created: Tally,
    pub modified: Tally,
    pub removed: Tally,
    pub executed: Tally,
    pub passive: Tally,
    pub unchanged: Tally,
    pub changed: Tally,
    pub failed: Tally,
    pub verdict: Verdict,
}

/// The verdict for the numbers of failed and of changed hosts.
pub open spec fn verdict_of(failed_hosts: int, changed_hosts: int) -> Verdict {
    if failed_hosts != 0 {
        Verdict::Failures
    } else if changed_hosts != 0 {
        Verdict::ActionsApplied
    } else {
        Verdict::Perfect
    }
}

/// `a - b`, or zero where `b` is larger.
pub open spec fn diff(a: int, b: int) -> int {
    if a >= b {
        a - b
    } else {
        0
    }
}

fn tally(ctx: &RunContext, k: Category) -> (r: Tally)
    requires
        ctx.wf(),
    ensures
        r.items == count(ctx.totals(), k),
        r.hosts == ctx.hosts_with(k),
{
    Tally { items: ctx.get_total(k), hosts: ctx.get_hosts_count(k) }
}

/// Reads the summary figures: for each category the total and the number of
/// hosts with one; changed means created, removed, modified or executed;
/// unchanged is what was attempted or seen beyond that.
pub fn summarize(ctx: &RunContext) -> (r: Summary)
    requires
        ctx.wf(),
    ensures
        r.roles == ctx.position().role_count,
        r.tasks == ctx.position().task_count,
        r.seen_hosts == ctx.seen().len(),
        r.attempted.items == count(ctx.totals(), Category::Attempted),
        r.attempted.hosts == ctx.hosts_with(Category::Attempted),
        r.created.items == count(ctx.totals(), Category::Created),
        r.created.hosts == ctx.hosts_with(Category::Created),
        r.modified.items == count(ctx.totals(), Category::Modified),
        r.modified.hosts == ctx.hosts_with(Category::Modified),
        r.removed.items == count(ctx.totals(), Category::Removed),
        r.removed.hosts == ctx.hosts_with(Category::Removed),
        r.executed.items == count(ctx.totals(), Category::Executed),
        r.executed.hosts == ctx.hosts_with(Category::Executed),
        r.passive.items == count(ctx.totals(), Category::Passive),
        r.passive.hosts == ctx.hosts_with(Category::Passive),
        r.failed.items == count(ctx.totals(), Category::Failed),
        r.failed.hosts == ctx.hosts_with(Category::Failed),
        r.changed.items == adjusted(ctx.totals()),
        r.changed.hosts == ctx.hosts_adjusted(),
        r.unchanged.items == diff(
            count(ctx.totals(), Category::Attempted) as int,
            adjusted(ctx.totals()),
        ),
        r.unchanged.hosts == ctx.seen().len() - ctx.hosts_adjusted(),
        r.verdict == verdict_of(ctx.hosts_with(Category::Failed), ctx.hosts_adjusted()),
{
    let position = ctx.get_position();
    let seen_hosts = ctx.get_hosts_seen_count();
    let attempted = tally(ctx, Category::Attempted);
    let failed = tally(ctx, Category::Failed);
    let changed = Tally {
        items: ctx.get_total_adjusted_count(),
        hosts: ctx.get_hosts_adjusted_count(),
    };
    let unchanged = Tally {
        items: if attempted.items >= changed.items {
            attempted.items - changed.items
        } else {
            0
        },
        hosts: seen_hosts - changed.hosts,
    };
    let verdict = if failed.hosts != 0 {
        Verdict::Failures
    } else if changed.hosts != 0 {
        Verdict::ActionsApplied
    } else {
        Verdict::Perfect
    };
    Summary {
        roles: position.role_count,
        tasks: position.task_count,
        seen_hosts,
        attempted,
        created: tally(ctx, Category::Created),
        modified: tally(ctx, Category::Modified),
        removed: tally(ctx, Category::Removed),
        executed: tally(ctx, Category::Executed),
        passive: tally(ctx, Category::Passive),
        unchanged,
        changed,
        failed,
        verdict,
    }
}

} // verus!
