//! The run context: per-host outcome counters and their totals for one run,
//! together with the run's current position (playbook, play, role, task).
//! Counters only grow, one increment at a time, and each increment updates
//! the host's counter and the matching total together.
use vstd::prelude::*;

verus! {

/// An outcome category that the run context counts.
#[derive(PartialEq, Eq, Structural, Clone, Copy, Debug)]
pub enum Category {
    Attempted,
    Created,
    Removed,
    Modified,
    Executed,
    Passive,
    Matched,
    Failed,
}

/// One counter per category.
#[derive(PartialEq, Eq, Structural, Clone, Copy, Debug)]
pub struct Counters {
    pub attempted: u64,
    pub created: u64,
    pub removed: u64,
    pub modified: u64,
    pub executed: u64,
    pub passive: u64,
    pub matched: u64,
    pub failed: u64,
}

pub open spec fn count(c: Counters, k: Category) -> u64 {
    match k {
        Category::Attempted => c.attempted,
        Category::Created => c.created,
        Category::Removed => c.removed,
        Category::Modified => c.modified,
        Category::Executed => c.executed,
        Category::Passive => c.passive,
        Category::Matched => c.matched,
        Category::Failed => c.failed,
    }
}

/// The counts of the categories that stand for a real change.
pub open spec fn adjusted(c: Counters) -> int {
    c.created + c.removed + c.modified + c.executed
}

/// The sum of all counters.
pub open spec fn grand(c: Counters) -> int {
    c.attempted + c.created + c.removed + c.modified + c.executed + c.passive + c.matched
        + c.failed
}

pub open spec fn zero_counters() -> Counters {
    Counters {
        attempted: 0,
        created: 0,
        removed: 0,
        modified: 0,
        executed: 0,
        passive: 0,
        matched: 0,
        failed: 0,
    }
}

/// `c` with the counter of `k` one higher.
pub open spec fn bumped(c: Counters, k: Category) -> Counters {
    match k {
        Category::Attempted => Counters { attempted: (c.attempted + 1) as u64, ..c },
        Category::Created => Counters { created: (c.created + 1) as u64, ..c },
        Category::Removed => Counters { removed: (c.removed + 1) as u64, ..c },
        Category::Modified => Counters { modified: (c.modified + 1) as u64, ..c },
        Category::Executed => Counters { executed: (c.executed + 1) as u64, ..c },
        Category::Passive => Counters { passive: (c.passive + 1) as u64, ..c },
        Category::Matched => Counters { matched: (c.matched + 1) as u64, ..c },
        Category::Failed => Counters { failed: (c.failed + 1) as u64, ..c },
    }
}

/// The sum of the counter of `k` over a sequence of hosts.
pub open spec fn total_of(s: Seq<Counters>, k: Category) -> int
    decreases s.len(),
{
    if s.len() == 0 {
        0
    } else {
        total_of(s.drop_last(), k) + count(s.last(), k)
    }
}

/// How many of the hosts have a nonzero counter for `k`.
pub open spec fn hosts_with_of(s: Seq<Counters>, k: Category) -> int
    decreases s.len(),
{
    if s.len() == 0 {
        0
    } else {
        hosts_with_of(s.drop_last(), k) + if count(s.last(), k) > 0 {
            1int
        } else {
            0int
        }
    }
}

/// How many of the hosts have a nonzero adjusted count.
pub open spec fn hosts_adjusted_of(s: Seq<Counters>) -> int
    decreases s.len(),
{
    if s.len() == 0 {
        0
    } else {
        hosts_adjusted_of(s.drop_last()) + if adjusted(s.last()) > 0 {
            1int
        } else {
            0int
        }
    }
}

/// The counters of the host called `name`, zero for a host never seen.
pub open spec fn lookup(names: Seq<Seq<char>>, counts: Seq<Counters>, name: Seq<char>) -> Counters
    decreases names.len(),
{
    if names.len() == 0 || counts.len() == 0 {
        zero_counters()
    } else if names.last() == name {
        counts.last()
    } else {
        lookup(names.drop_last(), counts.drop_last(), name)
    }
}

pub open spec fn unique(names: Seq<Seq<char>>) -> bool {
    forall|i: int, j: int| 0 <= i < j < names.len() ==> names[i] != names[j]
}

proof fn lemma_total_update(s: Seq<Counters>, i: int, c: Counters, k: Category)
    requires
        0 <= i < s.len(),
    ensures
        total_of(s.update(i, c), k) == total_of(s, k) - count(s[i], k) + count(c, k),
    decreases s.len(),
{
    let t = s.update(i, c);
    if i == s.len() - 1 {
        assert(t.drop_last() =~= s.drop_last());
    } else {
        assert(t.drop_last() =~= s.drop_last().update(i, c));
        lemma_total_update(s.drop_last(), i, c, k);
    }
}

proof fn lemma_hosts_with_update(s: Seq<Counters>, i: int, c: Counters, k: Category)
    requires
        0 <= i < s.len(),
    ensures
        hosts_with_of(s.update(i, c), k) == hosts_with_of(s, k) - (if count(s[i], k) > 0 {
            1int
        } else {
            0int
        }) + (if count(c, k) > 0 {
            1int
        } else {
            0int
        }),
    decreases s.len(),
{
    let t = s.update(i, c);
    if i == s.len() - 1 {
        assert(t.drop_last() =~= s.drop_last());
    } else {
        assert(t.drop_last() =~= s.drop_last().update(i, c));
        lemma_hosts_with_update(s.drop_last(), i, c, k);
    }
}

proof fn lemma_hosts_adjusted_update(s: Seq<Counters>, i: int, c: Counters)
    requires
        0 <= i < s.len(),
    ensures
        hosts_adjusted_of(s.update(i, c)) == hosts_adjusted_of(s) - (if adjusted(s[i]) > 0 {
            1int
        } else {
            0int
        }) + (if adjusted(c) > 0 {
            1int
        } else {
            0int
        }),
    decreases s.len(),
{
    let t = s.update(i, c);
    if i == s.len() - 1 {
        assert(t.drop_last() =~= s.drop_last());
    } else {
        assert(t.drop_last() =~= s.drop_last().update(i, c));
        lemma_hosts_adjusted_update(s.drop_last(), i, c);
    }
}

proof fn lemma_lookup_le_total(
    names: Seq<Seq<char>>,
    counts: Seq<Counters>,
    name: Seq<char>,
    k: Category,
)
    requires
        names.len() == counts.len(),
    ensures
        count(lookup(names, counts, name), k) <= total_of(counts, k),
    decreases names.len(),
{
    lemma_total_nonneg(counts, k);
    if names.len() > 0 {
        lemma_total_nonneg(counts.drop_last(), k);
        if names.last() != name {
            lemma_lookup_le_total(names.drop_last(), counts.drop_last(), name, k);
        }
    }
}

proof fn lemma_le_total(s: Seq<Counters>, i: int, k: Category)
    requires
        0 <= i < s.len(),
    ensures
        count(s[i], k) <= total_of(s, k),
        total_of(s, k) >= 0,
    decreases s.len(),
{
    if i < s.len() - 1 {
        lemma_le_total(s.drop_last(), i, k);
    } else {
        lemma_total_nonneg(s.drop_last(), k);
    }
}

proof fn lemma_total_nonneg(s: Seq<Counters>, k: Category)
    ensures
        total_of(s, k) >= 0,
    decreases s.len(),
{
    if s.len() > 0 {
        lemma_total_nonneg(s.drop_last(), k);
    }
}

proof fn lemma_lookup_update(
    names: Seq<Seq<char>>,
    counts: Seq<Counters>,
    i: int,
    c: Counters,
    name: Seq<char>,
)
    requires
        names.len() == counts.len(),
        unique(names),
        0 <= i < names.len(),
    ensures
        lookup(names, counts.update(i, c), name) == if names[i] == name {
            c
        } else {
            lookup(names, counts, name)
        },
    decreases names.len(),
{
    let t = counts.update(i, c);
    if i == names.len() - 1 {
        assert(t.drop_last() =~= counts.drop_last());
    } else {
        assert(t.drop_last() =~= counts.drop_last().update(i, c));
        assert(names.last() != names[i]);
        lemma_lookup_update(names.drop_last(), counts.drop_last(), i, c, name);
    }
}

proof fn lemma_lookup_at(names: Seq<Seq<char>>, counts: Seq<Counters>, i: int)
    requires
        names.len() == counts.len(),
        unique(names),
        0 <= i < names.len(),
    ensures
        lookup(names, counts, names[i]) == counts[i],
    decreases names.len(),
{
    if i < names.len() - 1 {
        assert(names.last() != names[i]);
        lemma_lookup_at(names.drop_last(), counts.drop_last(), i);
    }
}

proof fn lemma_lookup_absent(names: Seq<Seq<char>>, counts: Seq<Counters>, name: Seq<char>)
    requires
        names.len() == counts.len(),
        !names.contains(name),
    ensures
        lookup(names, counts, name) == zero_counters(),
    decreases names.len(),
{
    if names.len() > 0 {
        assert(names.last() == names[names.len() - 1]);
        assert(forall|j: int|
            0 <= j < names.drop_last().len() ==> names.drop_last()[j] == names[j]);
        lemma_lookup_absent(names.drop_last(), counts.drop_last(), name);
    }
}

impl Counters {
    pub fn zero() -> (r: Self)
        ensures
            r == zero_counters(),
    {
        Counters {
            attempted: 0,
            created: 0,
            removed: 0,
            modified: 0,
            executed: 0,
            passive: 0,
            matched: 0,
            failed: 0,
        }
    }

    /// The counter of `k`.
    pub fn get(&self, k: Category) -> (r: u64)
        ensures
            r == count(*self, k),
    {
        match k {
            Category::Attempted => self.attempted,
            Category::Created => self.created,
            Category::Removed => self.removed,
            Category::Modified => self.modified,
            Category::Executed => self.executed,
            Category::Passive => self.passive,
            Category::Matched => self.matched,
            Category::Failed => self.failed,
        }
    }

    /// The sum of the counters that stand for a real change.
    pub fn adjusted(&self) -> (r: u64)
        requires
            grand(*self) <= u64::MAX,
        ensures
            r == adjusted(*self),
    {
        self.created + self.removed + self.modified + self.executed
    }

    fn bump(&mut self, k: Category)
        requires
            count(*old(self), k) < u64::MAX,
        ensures
            *final(self) == bumped(*old(self), k),
            grand(*final(self)) == grand(*old(self)) + 1,
    {
        match k {
            Category::Attempted => self.attempted = self.attempted + 1,
            Category::Created => self.created = self.created + 1,
            Category::Removed => self.removed = self.removed + 1,
            Category::Modified => self.modified = self.modified + 1,
            Category::Executed => self.executed = self.executed + 1,
            Category::Passive => self.passive = self.passive + 1,
            Category::Matched => self.matched = self.matched + 1,
            Category::Failed => self.failed = self.failed + 1,
        }
    }
}

/// The shared account of one playbook run.
pub struct RunContext {
    hosts: Vec<String>,
    counts: Vec<Counters>,
    totals: Counters,
    position: Position,
}

/// Where a run currently is, and how much of the playbook it has walked.
#[derive(Clone, Debug)]
pub struct Position {
    pub playbook_path: Option<String>,
    pub play: Option<String>,
    pub role: Option<String>,
    pub task: Option<String>,
    pub role_count: u64,
    pub task_count: u64,
}

impl RunContext {
    /// The names of the hosts seen so far, in the order first seen.
    pub closed spec fn seen(&self) -> Seq<Seq<char>> {
        self.hosts@.map_values(|h: String| h@)
    }

    /// The counters of the host called `name`.
    pub closed spec fn counters(&self, name: Seq<char>) -> Counters {
        lookup(self.seen(), self.counts@, name)
    }

    /// The sum over all hosts of each counter.
    pub closed spec fn totals(&self) -> Counters {
        self.totals
    }

    /// How many hosts have a nonzero counter for `k`.
    pub closed spec fn hosts_with(&self, k: Category) -> int {
        hosts_with_of(self.counts@, k)
    }

    /// How many hosts have a nonzero adjusted count.
    pub closed spec fn hosts_adjusted(&self) -> int {
        hosts_adjusted_of(self.counts@)
    }

    /// Where the run currently is.
    pub closed spec fn position(&self) -> Position {
        self.position
    }

    pub closed spec fn wf(&self) -> bool {
        &&& self.hosts@.len() == self.counts@.len()
        &&& unique(self.seen())
        &&& forall|k: Category| #[trigger] count(self.totals, k) == total_of(self.counts@, k)
        &&& grand(self.totals) <= u64::MAX
    }

    pub fn new() -> (r: Self)
        ensures
            r.wf(),
            r.seen() == Seq::<Seq<char>>::empty(),
            r.totals() == zero_counters(),
            forall|n: Seq<char>| #[trigger] r.counters(n) == zero_counters(),
    {
        let r = RunContext {
            hosts: Vec::new(),
            counts: Vec::new(),
            totals: Counters::zero(),
            position: Position {
                playbook_path: None,
                play: None,
                role: None,
                task: None,
                role_count: 0,
                task_count: 0,
            },
        };
        assert(r.seen() =~= Seq::<Seq<char>>::empty());
        r
    }

    /// The index of the host called `host`, adding it with zero counters if
    /// it is new.
    fn find_or_add(&mut self, host: &String) -> (i: usize)
        requires
            old(self).wf(),
        ensures
            final(self).wf(),
            i < final(self).seen().len(),
            final(self).seen()[i as int] == host@,
            final(self).totals() == old(self).totals(),
            forall|n: Seq<char>| #[trigger] final(self).counters(n) == old(self).counters(n),
            forall|kk: Category| #[trigger] final(self).hosts_with(kk) == old(self).hosts_with(kk),
            final(self).hosts_adjusted() == old(self).hosts_adjusted(),
            old(self).seen().contains(host@) ==> final(self).seen() == old(self).seen(),
            !old(self).seen().contains(host@) ==> final(self).seen() == old(self).seen().push(
                host@,
            ),
            final(self).position() == old(self).position(),
    {
        let ghost old_seen = self.seen();
        let ghost old_counts = self.counts@;
        let mut i: usize = 0;
        let mut found = false;
        while i < self.hosts.len() && !found
            invariant
                i <= self.hosts@.len(),
                self.hosts@.len() == self.counts@.len(),
                self.seen() == old_seen,
                self.counts@ == old_counts,
                !found ==> forall|j: int| 0 <= j < i ==> old_seen[j] != host@,
                found ==> i < self.hosts@.len() && old_seen[i as int] == host@,
            decreases self.hosts@.len() - i + (if found { 0int } else { 1int }),
        {
            if self.hosts[i] == *host {
                found = true;
            } else {
                i = i + 1;
            }
        }
        if found {
            return i;
        }
        proof {
            assert forall|j: int| 0 <= j < old_seen.len() implies old_seen[j] != host@ by {}
            lemma_lookup_absent(old_seen, old_counts, host@);
        }
        self.hosts.push(host.clone());
        self.counts.push(Counters::zero());
        proof {
            assert(self.seen() =~= old_seen.push(host@));
            assert(self.seen().drop_last() =~= old_seen);
            assert(self.counts@.drop_last() =~= old_counts);
            assert forall|kk: Category|
                #[trigger] count(self.totals, kk) == total_of(self.counts@, kk) by {
                assert(total_of(self.counts@, kk) == total_of(old_counts, kk) + count(
                    self.counts@.last(),
                    kk,
                ));
                assert(count(self.totals, kk) == total_of(old_counts, kk));
            }
            assert forall|n: Seq<char>| #[trigger]
                lookup(self.seen(), self.counts@, n) == lookup(old_seen, old_counts, n) by {}
            assert forall|kk: Category| #[trigger]
                hosts_with_of(self.counts@, kk) == hosts_with_of(old_counts, kk) by {}
            assert(hosts_adjusted_of(self.counts@) == hosts_adjusted_of(old_counts));
        }
        self.hosts.len() - 1
    }

    /// Counts one more outcome of category `k` for the host called `host`,
    /// adding the host to those seen if it is new.
    pub fn increment_for_host(&mut self, host: &String, k: Category)
        requires
            old(self).wf(),
            grand(old(self).totals()) < u64::MAX,
        ensures
            final(self).wf(),
            final(self).totals() == bumped(old(self).totals(), k),
            final(self).counters(host@) == bumped(old(self).counters(host@), k),
            forall|n: Seq<char>|
                n != host@ ==> #[trigger] final(self).counters(n) == old(self).counters(n),
            old(self).seen().contains(host@) ==> final(self).seen() == old(self).seen(),
            !old(self).seen().contains(host@) ==> final(self).seen() == old(self).seen().push(
                host@,
            ),
            forall|kk: Category| #[trigger]
                final(self).hosts_with(kk) == old(self).hosts_with(kk) + (if count(
                    old(self).counters(host@),
                    kk,
                ) == 0 && count(final(self).counters(host@), kk) > 0 {
                    1int
                } else {
                    0int
                }),
            final(self).hosts_adjusted() == old(self).hosts_adjusted() + (if adjusted(
                old(self).counters(host@),
            ) == 0 && adjusted(final(self).counters(host@)) > 0 {
                1int
            } else {
                0int
            }),
            final(self).position() == old(self).position(),
    {
        let i = self.find_or_add(host);
        self.bump_at(i, k);
    }

    fn bump_at(&mut self, i: usize, k: Category)
        requires
            old(self).wf(),
            grand(old(self).totals()) < u64::MAX,
            i < old(self).seen().len(),
        ensures
            final(self).wf(),
            final(self).seen() == old(self).seen(),
            final(self).totals() == bumped(old(self).totals(), k),
            ({
                let h = old(self).seen()[i as int];
                &&& final(self).counters(h) == bumped(old(self).counters(h), k)
                &&& forall|n: Seq<char>|
                    n != h ==> #[trigger] final(self).counters(n) == old(self).counters(n)
                &&& forall|kk: Category| #[trigger]
                    final(self).hosts_with(kk) == old(self).hosts_with(kk) + (if count(
                        old(self).counters(h),
                        kk,
                    ) == 0 && count(final(self).counters(h), kk) > 0 {
                        1int
                    } else {
                        0int
                    })
                &&& final(self).hosts_adjusted() == old(self).hosts_adjusted() + (if adjusted(
                    old(self).counters(h),
                ) == 0 && adjusted(final(self).counters(h)) > 0 {
                    1int
                } else {
                    0int
                })
            }),
            final(self).position() == old(self).position(),
    {
        let ghost mid_seen = self.seen();
        let ghost mid_counts = self.counts@;
        let ghost mid_totals = self.totals;
        let ghost h = mid_seen[i as int];
        proof {
            lemma_lookup_at(mid_seen, mid_counts, i as int);
            lemma_le_total(mid_counts, i as int, k);
            assert(count(self.totals, k) == total_of(mid_counts, k));
            assert(count(self.totals, k) <= grand(self.totals));
        }
        let mut c = self.counts[i];
        c.bump(k);
        self.counts.set(i, c);
        self.totals.bump(k);
        proof {
            assert(self.seen() == mid_seen);
            assert forall|kk: Category|
                #[trigger] count(self.totals, kk) == total_of(self.counts@, kk) by {
                lemma_total_update(mid_counts, i as int, c, kk);
                assert(count(mid_totals, kk) == total_of(mid_counts, kk));
            }
            assert forall|n: Seq<char>|
                #[trigger] lookup(self.seen(), self.counts@, n) == if n == h {
                    c
                } else {
                    lookup(mid_seen, mid_counts, n)
                } by {
                lemma_lookup_update(mid_seen, mid_counts, i as int, c, n);
            }
            assert forall|kk: Category| #[trigger]
                hosts_with_of(self.counts@, kk) == hosts_with_of(mid_counts, kk) - (if count(
                    mid_counts[i as int],
                    kk,
                ) > 0 {
                    1int
                } else {
                    0int
                }) + (if count(c, kk) > 0 {
                    1int
                } else {
                    0int
                }) by {
                lemma_hosts_with_update(mid_counts, i as int, c, kk);
            }
            lemma_hosts_adjusted_update(mid_counts, i as int, c);
            lemma_lookup_update(mid_seen, mid_counts, i as int, c, h);
        }
    }

    /// A host's counter never exceeds the matching total.
    pub proof fn lemma_host_le_total(&self, name: Seq<char>, k: Category)
        requires
            self.wf(),
        ensures
            count(self.counters(name), k) <= count(self.totals(), k),
    {
        lemma_lookup_le_total(self.seen(), self.counts@, name, k);
        assert(count(self.totals, k) == total_of(self.counts@, k));
    }

    /// The counter of `k` for the host called `host`, zero for a host not seen.
    pub fn get_count_for_host(&self, host: &String, k: Category) -> (r: u64)
        requires
            self.wf(),
        ensures
            r == count(self.counters(host@), k),
    {
        let mut i: usize = 0;
        while i < self.hosts.len()
            invariant
                self.wf(),
                i <= self.hosts@.len(),
                forall|j: int| 0 <= j < i ==> self.seen()[j] != host@,
            decreases self.hosts@.len() - i,
        {
            if self.hosts[i] == *host {
                proof {
                    lemma_lookup_at(self.seen(), self.counts@, i as int);
                }
                return self.counts[i].get(k);
            }
            i = i + 1;
        }
        proof {
            lemma_lookup_absent(self.seen(), self.counts@, host@);
        }
        0
    }

    /// The sum over all hosts of the counter of `k`.
    pub fn get_total(&self, k: Category) -> (r: u64)
        ensures
            r == count(self.totals(), k),
    {
        self.totals.get(k)
    }

    /// The sum over all hosts of the counters that stand for a real change.
    pub fn get_total_adjusted_count(&self) -> (r: u64)
        requires
            self.wf(),
        ensures
            r == adjusted(self.totals()),
    {
        self.totals.adjusted()
    }

    /// How many hosts were seen.
    pub fn get_hosts_seen_count(&self) -> (r: usize)
        requires
            self.wf(),
        ensures
            r == self.seen().len(),
    {
        self.hosts.len()
    }

    /// How many hosts have a nonzero counter for `k`.
    pub fn get_hosts_count(&self, k: Category) -> (r: usize)
        requires
            self.wf(),
        ensures
            r == self.hosts_with(k),
            r <= self.seen().len(),
    {
        let mut n: usize = 0;
        let mut i: usize = 0;
        while i < self.counts.len()
            invariant
                self.wf(),
                i <= self.counts@.len(),
                n == hosts_with_of(self.counts@.subrange(0, i as int), k),
                n <= i,
            decreases self.counts@.len() - i,
        {
            proof {
                assert(self.counts@.subrange(0, i + 1).drop_last() =~= self.counts@.subrange(
                    0,
                    i as int,
                ));
            }
            if self.counts[i].get(k) > 0 {
                n = n + 1;
            }
            i = i + 1;
        }
        proof {
            assert(self.counts@.subrange(0, i as int) =~= self.counts@);
        }
        n
    }

    /// How many hosts have a nonzero adjusted count.
    pub fn get_hosts_adjusted_count(&self) -> (r: usize)
        requires
            self.wf(),
        ensures
            r == self.hosts_adjusted(),
            r <= self.seen().len(),
    {
        let mut n: usize = 0;
        let mut i: usize = 0;
        while i < self.counts.len()
            invariant
                self.wf(),
                i <= self.counts@.len(),
                n == hosts_adjusted_of(self.counts@.subrange(0, i as int)),
                n <= i,
            decreases self.counts@.len() - i,
        {
            proof {
                assert(self.counts@.subrange(0, i + 1).drop_last() =~= self.counts@.subrange(
                    0,
                    i as int,
                ));
            }
            let c = self.counts[i];
            if c.created > 0 || c.removed > 0 || c.modified > 0 || c.executed > 0 {
                n = n + 1;
            }
            i = i + 1;
        }
        proof {
            assert(self.counts@.subrange(0, i as int) =~= self.counts@);
        }
        n
    }

    /// Where the run currently is.
    pub fn get_position(&self) -> (r: &Position)
        ensures
            *r == self.position(),
    {
        &self.position
    }

    /// Moves the run to `position`; the counters stay as they are.
    pub fn set_position(&mut self, position: Position)
        ensures
            final(self).position() == position,
            final(self).seen() == old(self).seen(),
            final(self).totals() == old(self).totals(),
            forall|n: Seq<char>| #[trigger] final(self).counters(n) == old(self).counters(n),
            final(self).hosts_adjusted() == old(self).hosts_adjusted(),
            forall|k: Category| #[trigger] final(self).hosts_with(k) == old(self).hosts_with(k),
            old(self).wf() ==> final(self).wf(),
    {
        self.position = position;
    }
}

} // verus!
