//! Interest store: rule-scoped and process-scoped state deciding which
//! processes are "of interest" and therefore worth reporting. Allow/deny
//! rules are keyed by fixed-width executable image paths or cgroup paths;
//! per-process interest is seeded by a rule match and propagates from a
//! parent to its children at fork time. A missing entry always means "not
//! interesting": the filter fails closed, under-reporting rather than
//! acting on stale state.

use vstd::prelude::*;

verus! {

/// Fixed width of an image-path rule key, truncated or zero-padded.
pub const MAX_IMAGE_LEN: usize = 100;

/// Fixed width of a cgroup-path rule key, truncated or zero-padded.
pub const MAX_CGROUP_LEN: usize = 300;

/// A path brought to the fixed rule-key width: truncated when longer,
/// zero-padded when shorter.
pub open spec fn spec_normalized(path: Seq<u8>, width: int) -> Seq<u8> {
    if path.len() >= width {
        path.take(width)
    } else {
        path + Seq::new((width - path.len()) as nat, |j: int| 0u8)
    }
}

/// Some entry of the rule table carries exactly this key and flag.
pub open spec fn rule_maps_to(l: Seq<(Vec<u8>, u8)>, key: Seq<u8>, f: u8) -> bool {
    exists|i: int| 0 <= i < l.len() && l[i].0@ == key && l[i].1 == f
}

/// Some entry of the rule table carries this key.
pub open spec fn rule_has(l: Seq<(Vec<u8>, u8)>, key: Seq<u8>) -> bool {
    exists|i: int| 0 <= i < l.len() && l[i].0@ == key
}

/// No two rule entries share a key.
pub open spec fn rule_keys_unique(l: Seq<(Vec<u8>, u8)>) -> bool {
    forall|i: int, j: int| 0 <= i < j < l.len() ==> l[i].0@ != l[j].0@
}

/// Every rule key has the given fixed width.
pub open spec fn rule_keys_width(l: Seq<(Vec<u8>, u8)>, width: int) -> bool {
    forall|i: int| 0 <= i < l.len() ==> #[trigger] l[i].0@.len() == width
}

/// Some interest entry carries this pid with a non-zero flag.
pub open spec fn pid_flagged(l: Seq<(i32, u8)>, pid: i32) -> bool {
    exists|i: int| 0 <= i < l.len() && l[i].0 == pid && l[i].1 != 0
}

/// Some interest entry carries this pid.
pub open spec fn pid_present(l: Seq<(i32, u8)>, pid: i32) -> bool {
    exists|i: int| 0 <= i < l.len() && l[i].0 == pid
}

/// No two interest entries share a pid.
pub open spec fn pid_keys_unique(l: Seq<(i32, u8)>) -> bool {
    forall|i: int, j: int| 0 <= i < j < l.len() ==> l[i].0 != l[j].0
}

/// One interest-store transition, seen abstractly: a process is marked of
/// interest by a rule match, cleared on exit, or made to inherit its
/// parent's standing at fork time.
#[derive(Clone, Copy, PartialEq, Eq, Structural, Debug)]
pub enum InterestOp {
    Mark(i32),
    Clear(i32),
    Inherit(i32, i32),
}

/// The set of interesting pids after one transition.
pub open spec fn apply_op(s: Set<i32>, op: InterestOp) -> Set<i32> {
    match op {
        InterestOp::Mark(p) => s.insert(p),
        InterestOp::Clear(p) => s.remove(p),
        InterestOp::Inherit(parent, child) => if s.contains(parent) {
            s.insert(child)
        } else {
            s.remove(child)
        },
    }
}

/// The set of interesting pids after a sequence of transitions.
pub open spec fn apply_ops(s: Set<i32>, ops: Seq<InterestOp>) -> Set<i32>
    decreases ops.len(),
{
    if ops.len() == 0 {
        s
    } else {
        apply_ops(apply_op(s, ops[0]), ops.drop_first())
    }
}

/// Whether one transition can make `p` interesting: a mark of `p` itself,
/// or an inheritance into `p` from a parent interesting at that moment.
pub open spec fn taints(s: Set<i32>, op: InterestOp, p: i32) -> bool {
    match op {
        InterestOp::Mark(q) => q == p,
        InterestOp::Clear(_) => false,
        InterestOp::Inherit(parent, child) => child == p && s.contains(parent),
    }
}

/// A transition sequence acts as its prefix followed by its last step.
proof fn lemma_apply_ops_snoc(s: Set<i32>, ops: Seq<InterestOp>)
    requires
        ops.len() > 0,
    ensures
        apply_ops(s, ops) == apply_op(
            apply_ops(s, ops.take(ops.len() - 1)),
            ops[ops.len() - 1],
        ),
    decreases ops.len(),
{
    if ops.len() == 1 {
        assert(ops.take(0) =~= Seq::<InterestOp>::empty());
        assert(ops.drop_first() =~= Seq::<InterestOp>::empty());
        assert(apply_ops(s, ops.take(0)) == s);
        assert(apply_ops(s, ops) == apply_ops(apply_op(s, ops[0]), ops.drop_first()));
        assert(apply_ops(apply_op(s, ops[0]), ops.drop_first()) == apply_op(s, ops[0]));
    } else {
        let tail = ops.drop_first();
        lemma_apply_ops_snoc(apply_op(s, ops[0]), tail);
        let prefix = ops.take(ops.len() - 1);
        assert(prefix.drop_first() =~= tail.take(tail.len() - 1));
        assert(prefix[0] == ops[0]);
        assert(tail[tail.len() - 1] == ops[ops.len() - 1]);
        assert(apply_ops(s, ops) == apply_ops(apply_op(s, ops[0]), tail));
        assert(apply_ops(s, prefix) == apply_ops(apply_op(s, prefix[0]), prefix.drop_first()));
    }
}

/// Law: a process that no transition marks, and that never inherits from a
/// parent interesting at inheritance time, is uninteresting after any
/// sequence of interest-store transitions.
pub proof fn lemma_untouched_pid_stays_uninteresting(s: Set<i32>, ops: Seq<InterestOp>, p: i32)
    requires
        !s.contains(p),
        forall|i: int| 0 <= i < ops.len() ==> !taints(apply_ops(s, ops.take(i)), #[trigger] ops[i], p),
    ensures
        !apply_ops(s, ops).contains(p),
    decreases ops.len(),
{
    if ops.len() > 0 {
        let n = ops.len() - 1;
        let prefix = ops.take(n);
        assert forall|i: int| 0 <= i < n implies !taints(
            apply_ops(s, prefix.take(i)),
            #[trigger] prefix[i],
            p,
        ) by {
            assert(prefix.take(i) =~= ops.take(i));
            assert(prefix[i] == ops[i]);
        }
        lemma_untouched_pid_stays_uninteresting(s, prefix, p);
        lemma_apply_ops_snoc(s, ops);
        assert(!taints(apply_ops(s, ops.take(n)), ops[n], p));
    }
}

/// Brings a path to the fixed rule-key width: truncated when longer,
/// zero-padded when shorter.
pub fn normalize_path(path: &Vec<u8>, width: usize) -> (r: Vec<u8>)
    ensures
        r@ == spec_normalized(path@, width as int),
        r@.len() == width,
{
    let n: usize = if path.len() >= width {
        width
    } else {
        path.len()
    };
    let mut out: Vec<u8> = Vec::new();
    let mut i: usize = 0;
    while i < n
        invariant
            i <= n,
            n <= path@.len(),
            n <= width,
            out@ == path@.take(i as int),
        decreases n - i,
    {
        out.push(path[i]);
        assert(out@ =~= path@.take(i + 1));
        i += 1;
    }
    while out.len() < width
        invariant
            n <= out@.len() <= width,
            out@ == path@.take(n as int) + Seq::new((out@.len() - n) as nat, |j: int| 0u8),
        decreases width - out@.len(),
    {
        out.push(0u8);
        assert(out@ =~= path@.take(n as int) + Seq::new((out@.len() - n) as nat, |j: int| 0u8));
    }
    proof {
        if path@.len() >= width {
            assert(out@ =~= spec_normalized(path@, width as int));
        } else {
            assert(path@.take(n as int) =~= path@);
            assert(out@ =~= spec_normalized(path@, width as int));
        }
    }
    out
}

/// Byte-for-byte comparison of two paths.
fn bytes_eq(a: &Vec<u8>, b: &Vec<u8>) -> (r: bool)
    ensures
        r == (a@ == b@),
{
    if a.len() != b.len() {
        return false;
    }
    let mut i: usize = 0;
    while i < a.len()
        invariant
            i <= a@.len(),
            a@.len() == b@.len(),
            forall|j: int| 0 <= j < i ==> a@[j] == b@[j],
        decreases a@.len() - i,
    {
        if a[i] != b[i] {
            return false;
        }
        i += 1;
    }
    proof {
        assert(a@ =~= b@);
    }
    true
}

/// Position of the entry for `key` in a rule table, if one exists.
fn rule_index(l: &Vec<(Vec<u8>, u8)>, key: &Vec<u8>) -> (r: Option<usize>)
    ensures
        match r {
            Some(i) => i < l@.len() && l@[i as int].0@ == key@,
            None => !rule_has(l@, key@),
        },
{
    let mut i: usize = 0;
    while i < l.len()
        invariant
            i <= l@.len(),
            forall|j: int| 0 <= j < i ==> l@[j].0@ != key@,
        decreases l@.len() - i,
    {
        if bytes_eq(&l[i].0, key) {
            return Some(i);
        }
        i += 1;
    }
    None
}

/// Flag of the entry for `key` in a rule table, if one exists.
fn rule_lookup(l: &Vec<(Vec<u8>, u8)>, key: &Vec<u8>) -> (r: Option<u8>)
    ensures
        match r {
            Some(f) => rule_maps_to(l@, key@, f),
            None => !rule_has(l@, key@),
        },
{
    match rule_index(l, key) {
        Some(i) => Some(l[i].1),
        None => None,
    }
}

/// Creates or overwrites the entry for `key` in a rule table.
fn rule_insert(l: &mut Vec<(Vec<u8>, u8)>, key: Vec<u8>, flag: u8)
    requires
        rule_keys_unique(old(l)@),
    ensures
        rule_keys_unique(final(l)@),
        rule_maps_to(final(l)@, key@, flag),
        forall|k2: Seq<u8>, f2: u8|
            k2 != key@ ==> (rule_maps_to(final(l)@, k2, f2) <==> rule_maps_to(old(l)@, k2, f2)),
        forall|i: int|
            0 <= i < final(l)@.len() ==> (#[trigger] final(l)@[i].0@ == key@ || rule_has(
                old(l)@,
                final(l)@[i].0@,
            )),
{
    match rule_index(l, &key) {
        Some(i) => {
            l.set(i, (key, flag));
            proof {
                let l0 = old(l)@;
                let l1 = l@;
                let i = i as int;
                assert(forall|j: int| 0 <= j < l1.len() ==> #[trigger] l1[j].0@ == l0[j].0@);
                assert(l1[i].0@ == key@ && l1[i].1 == flag);
                assert forall|k2: Seq<u8>, f2: u8| k2 != key@ implies (rule_maps_to(l1, k2, f2)
                    <==> rule_maps_to(l0, k2, f2)) by {
                    if rule_maps_to(l0, k2, f2) {
                        let w = choose|w: int| 0 <= w < l0.len() && l0[w].0@ == k2 && l0[w].1 == f2;
                        assert(w != i);
                        assert(l1[w].0@ == k2 && l1[w].1 == f2);
                    }
                    if rule_maps_to(l1, k2, f2) {
                        let w = choose|w: int| 0 <= w < l1.len() && l1[w].0@ == k2 && l1[w].1 == f2;
                        assert(w != i);
                        assert(l0[w].0@ == k2 && l0[w].1 == f2);
                    }
                }
            }
        },
        None => {
            l.push((key, flag));
            proof {
                let l0 = old(l)@;
                let l1 = l@;
                let n = l0.len() as int;
                assert(l1[n].0@ == key@ && l1[n].1 == flag);
                assert(forall|j: int| 0 <= j < n ==> #[trigger] l1[j] == l0[j]);
                assert forall|k2: Seq<u8>, f2: u8| k2 != key@ implies (rule_maps_to(l1, k2, f2)
                    <==> rule_maps_to(l0, k2, f2)) by {
                    if rule_maps_to(l0, k2, f2) {
                        let w = choose|w: int| 0 <= w < l0.len() && l0[w].0@ == k2 && l0[w].1 == f2;
                        assert(l1[w].0@ == k2 && l1[w].1 == f2);
                    }
                    if rule_maps_to(l1, k2, f2) {
                        let w = choose|w: int| 0 <= w < l1.len() && l1[w].0@ == k2 && l1[w].1 == f2;
                        assert(w != n);
                        assert(l0[w].0@ == k2 && l0[w].1 == f2);
                    }
                }
            }
        },
    }
}

/// The rule tables and the per-process interest flags.
#[derive(Clone, Debug)]
pub struct InterestStore {
    pub image_rules: Vec<(Vec<u8>, u8)>,
    pub cgroup_rules: Vec<(Vec<u8>, u8)>,
    pub interest: Vec<(i32, u8)>,
}

impl InterestStore {
    /// Keys are unique in each table and rule keys have their fixed width.
    pub open spec fn wf(self) -> bool {
        &&& rule_keys_unique(self.image_rules@)
        &&& rule_keys_unique(self.cgroup_rules@)
        &&& pid_keys_unique(self.interest@)
        &&& rule_keys_width(self.image_rules@, MAX_IMAGE_LEN as int)
        &&& rule_keys_width(self.cgroup_rules@, MAX_CGROUP_LEN as int)
    }

    /// Whether the store holds `pid` as interesting: a missing entry means
    /// "not interesting".
    pub open spec fn is_interesting_spec(self, pid: i32) -> bool {
        pid_flagged(self.interest@, pid)
    }

    /// The set of pids the store holds as interesting.
    pub open spec fn interesting_set(self) -> Set<i32> {
        Set::new(|p: i32| self.is_interesting_spec(p))
    }

    /// Both rule tables, unchanged by interest transitions.
    pub open spec fn rules_unchanged(self, other: InterestStore) -> bool {
        &&& self.image_rules@ == other.image_rules@
        &&& self.cgroup_rules@ == other.cgroup_rules@
    }

    /// An empty store: no rules, nothing interesting.
    pub fn new() -> (s: InterestStore)
        ensures
            s.wf(),
            s.image_rules@.len() == 0,
            s.cgroup_rules@.len() == 0,
            forall|p: i32| !s.is_interesting_spec(p),
    {
        InterestStore { image_rules: Vec::new(), cgroup_rules: Vec::new(), interest: Vec::new() }
    }

    /// Looks a pid up, defaulting to "not interesting" on a miss.
    pub fn is_interesting(&self, pid: i32) -> (r: bool)
        ensures
            r == self.is_interesting_spec(pid),
    {
        let mut i: usize = 0;
        while i < self.interest.len()
            invariant
                i <= self.interest@.len(),
                forall|j: int| 0 <= j < i ==> !(self.interest@[j].0 == pid && self.interest@[j].1
                    != 0),
            decreases self.interest@.len() - i,
        {
            let entry = self.interest[i];
            if entry.0 == pid && entry.1 != 0 {
                return true;
            }
            i += 1;
        }
        false
    }

    /// Position of the interest entry for `pid`, if one exists.
    fn pid_index(&self, pid: i32) -> (r: Option<usize>)
        ensures
            match r {
                Some(i) => i < self.interest@.len() && self.interest@[i as int].0 == pid,
                None => !pid_present(self.interest@, pid),
            },
    {
        let mut i: usize = 0;
        while i < self.interest.len()
            invariant
                i <= self.interest@.len(),
                forall|j: int| 0 <= j < i ==> self.interest@[j].0 != pid,
            decreases self.interest@.len() - i,
        {
            if self.interest[i].0 == pid {
                return Some(i);
            }
            i += 1;
        }
        None
    }

    /// Records `pid` as of interest, creating or overwriting its entry.
    pub fn mark_interesting(&mut self, pid: i32)
        requires
            old(self).wf(),
        ensures
            final(self).wf(),
            final(self).is_interesting_spec(pid),
            forall|q: i32| q != pid ==> final(self).is_interesting_spec(q) == old(
                self,
            ).is_interesting_spec(q),
            final(self).rules_unchanged(*old(self)),
            final(self).interesting_set() == apply_op(
                old(self).interesting_set(),
                InterestOp::Mark(pid),
            ),
    {
        match self.pid_index(pid) {
            Some(i) => {
                self.interest.set(i, (pid, 1));
                proof {
                    let l0 = old(self).interest@;
                    let l1 = self.interest@;
                    assert(l1[i as int].0 == pid && l1[i as int].1 != 0);
                    assert(forall|j: int| 0 <= j < l1.len() ==> l1[j].0 == #[trigger] l0[j].0);
                    assert forall|q: i32| q != pid implies pid_flagged(l1, q) == pid_flagged(
                        l0,
                        q,
                    ) by {
                        if pid_flagged(l0, q) {
                            let w = choose|w: int|
                                0 <= w < l0.len() && l0[w].0 == q && l0[w].1 != 0;
                            assert(l1[w].0 == q && l1[w].1 != 0);
                        }
                        if pid_flagged(l1, q) {
                            let w = choose|w: int|
                                0 <= w < l1.len() && l1[w].0 == q && l1[w].1 != 0;
                            assert(l0[w].0 == q && l0[w].1 != 0);
                        }
                    }
                }
            },
            None => {
                self.interest.push((pid, 1));
                proof {
                    let l0 = old(self).interest@;
                    let l1 = self.interest@;
                    assert(l1[l1.len() - 1].0 == pid && l1[l1.len() - 1].1 != 0);
                    assert forall|q: i32| q != pid implies pid_flagged(l1, q) == pid_flagged(
                        l0,
                        q,
                    ) by {
                        if pid_flagged(l0, q) {
                            let w = choose|w: int|
                                0 <= w < l0.len() && l0[w].0 == q && l0[w].1 != 0;
                            assert(l1[w].0 == q && l1[w].1 != 0);
                        }
                        if pid_flagged(l1, q) {
                            let w = choose|w: int|
                                0 <= w < l1.len() && l1[w].0 == q && l1[w].1 != 0;
                            assert(w < l0.len());
                            assert(l0[w].0 == q && l0[w].1 != 0);
                        }
                    }
                }
            },
        }
        proof {
            assert(self.interesting_set() =~= apply_op(
                old(self).interesting_set(),
                InterestOp::Mark(pid),
            ));
        }
    }

    /// Removes the interest entry for `pid`, as on process exit. A pid
    /// without an entry stays without one.
    pub fn clear(&mut self, pid: i32)
        requires
            old(self).wf(),
        ensures
            final(self).wf(),
            !final(self).is_interesting_spec(pid),
            forall|q: i32| q != pid ==> final(self).is_interesting_spec(q) == old(
                self,
            ).is_interesting_spec(q),
            final(self).rules_unchanged(*old(self)),
            final(self).interesting_set() == apply_op(
                old(self).interesting_set(),
                InterestOp::Clear(pid),
            ),
    {
        match self.pid_index(pid) {
            Some(i) => {
                self.interest.remove(i);
                proof {
                    let l0 = old(self).interest@;
                    let l1 = self.interest@;
                    let i = i as int;
                    assert forall|j: int| 0 <= j < l1.len() implies !(l1[j].0 == pid && l1[j].1
                        != 0) by {
                        if j < i {
                            assert(l1[j] == l0[j]);
                            assert(l0[j].0 != pid);
                        } else {
                            assert(l1[j] == l0[j + 1]);
                            assert(l0[j + 1].0 != pid);
                        }
                    }
                    assert forall|q: i32| q != pid implies pid_flagged(l1, q) == pid_flagged(
                        l0,
                        q,
                    ) by {
                        if pid_flagged(l0, q) {
                            let w = choose|w: int|
                                0 <= w < l0.len() && l0[w].0 == q && l0[w].1 != 0;
                            if w < i {
                                assert(l1[w].0 == q && l1[w].1 != 0);
                            } else {
                                assert(w != i);
                                assert(l1[w - 1].0 == q && l1[w - 1].1 != 0);
                            }
                        }
                        if pid_flagged(l1, q) {
                            let w = choose|w: int|
                                0 <= w < l1.len() && l1[w].0 == q && l1[w].1 != 0;
                            if w < i {
                                assert(l0[w].0 == q && l0[w].1 != 0);
                            } else {
                                assert(l0[w + 1].0 == q && l0[w + 1].1 != 0);
                            }
                        }
                    }
                    assert forall|a: int, b: int| 0 <= a < b < l1.len() implies l1[a].0
                        != l1[b].0 by {
                        let a0 = if a < i {
                            a
                        } else {
                            a + 1
                        };
                        let b0 = if b < i {
                            b
                        } else {
                            b + 1
                        };
                        assert(l1[a] == l0[a0] && l1[b] == l0[b0]);
                    }
                }
            },
            None => {
            },
        }
        proof {
            assert(self.interesting_set() =~= apply_op(
                old(self).interesting_set(),
                InterestOp::Clear(pid),
            ));
        }
    }

    /// Propagates interest across fork: the child takes the parent's
    /// current standing, so subtrees under a matched ancestor stay
    /// observable without re-evaluating rules on every descendant.
    pub fn inherit(&mut self, parent_pid: i32, child_pid: i32)
        requires
            old(self).wf(),
        ensures
            final(self).wf(),
            final(self).is_interesting_spec(child_pid) == old(self).is_interesting_spec(
                parent_pid,
            ),
            forall|q: i32| q != child_pid ==> final(self).is_interesting_spec(q) == old(
                self,
            ).is_interesting_spec(q),
            final(self).rules_unchanged(*old(self)),
            final(self).interesting_set() == apply_op(
                old(self).interesting_set(),
                InterestOp::Inherit(parent_pid, child_pid),
            ),
    {
        if self.is_interesting(parent_pid) {
            self.mark_interesting(child_pid);
        } else {
            self.clear(child_pid);
        }
        proof {
            assert(self.interesting_set() =~= apply_op(
                old(self).interesting_set(),
                InterestOp::Inherit(parent_pid, child_pid),
            ));
        }
    }

    /// Seeds a child's standing at fork time: the child takes the flag of
    /// its own image rule where one matches, and inherits the parent's
    /// standing otherwise. Whole subtrees under a matched ancestor thus
    /// stay observable without re-evaluating rules on every descendant.
    pub fn seed_child(&mut self, parent_pid: i32, child_pid: i32, image_path: &Vec<u8>)
        requires
            old(self).wf(),
        ensures
            final(self).wf(),
            final(self).rules_unchanged(*old(self)),
            forall|q: i32| q != child_pid ==> final(self).is_interesting_spec(q) == old(
                self,
            ).is_interesting_spec(q),
            ({
                let key = spec_normalized(image_path@, MAX_IMAGE_LEN as int);
                if rule_has(old(self).image_rules@, key) {
                    forall|f: u8|
                        rule_maps_to(old(self).image_rules@, key, f)
                            ==> final(self).is_interesting_spec(child_pid) == (f != 0)
                } else {
                    final(self).is_interesting_spec(child_pid) == old(self).is_interesting_spec(
                        parent_pid,
                    )
                }
            }),
    {
        match self.matches_image_rule(image_path) {
            Some(flag) => {
                if flag != 0 {
                    self.mark_interesting(child_pid);
                } else {
                    self.clear(child_pid);
                }
                proof {
                    let key = spec_normalized(image_path@, MAX_IMAGE_LEN as int);
                    let l = old(self).image_rules@;
                    assert forall|f: u8| rule_maps_to(l, key, f) implies self.is_interesting_spec(
                        child_pid,
                    ) == (f != 0) by {
                        let w = choose|w: int| 0 <= w < l.len() && l[w].0@ == key && l[w].1 == f;
                        let w2 = choose|w2: int|
                            0 <= w2 < l.len() && l[w2].0@ == key && l[w2].1 == flag;
                        if w != w2 {
                            assert(l[w].0@ != l[w2].0@);
                        }
                    }
                }
            },
            None => {
                self.inherit(parent_pid, child_pid);
            },
        }
    }

    /// Flag of the image-path rule matching `path` after normalization to
    /// the fixed key width, or `None` when no rule matches.
    pub fn matches_image_rule(&self, path: &Vec<u8>) -> (r: Option<u8>)
        ensures
            match r {
                Some(f) => rule_maps_to(
                    self.image_rules@,
                    spec_normalized(path@, MAX_IMAGE_LEN as int),
                    f,
                ),
                None => !rule_has(self.image_rules@, spec_normalized(path@, MAX_IMAGE_LEN as int)),
            },
    {
        let key = normalize_path(path, MAX_IMAGE_LEN);
        rule_lookup(&self.image_rules, &key)
    }

    /// Flag of the cgroup-path rule matching `path` after normalization to
    /// the fixed key width, or `None` when no rule matches.
    pub fn matches_cgroup_rule(&self, path: &Vec<u8>) -> (r: Option<u8>)
        ensures
            match r {
                Some(f) => rule_maps_to(
                    self.cgroup_rules@,
                    spec_normalized(path@, MAX_CGROUP_LEN as int),
                    f,
                ),
                None => !rule_has(
                    self.cgroup_rules@,
                    spec_normalized(path@, MAX_CGROUP_LEN as int),
                ),
            },
    {
        let key = normalize_path(path, MAX_CGROUP_LEN);
        rule_lookup(&self.cgroup_rules, &key)
    }

    /// Installs or overwrites an image-path rule; configuration populates
    /// the tables, the probe side only reads them.
    pub fn add_image_rule(&mut self, path: &Vec<u8>, flag: u8)
        requires
            old(self).wf(),
        ensures
            final(self).wf(),
            rule_maps_to(
                final(self).image_rules@,
                spec_normalized(path@, MAX_IMAGE_LEN as int),
                flag,
            ),
            forall|k2: Seq<u8>, f2: u8|
                k2 != spec_normalized(path@, MAX_IMAGE_LEN as int) ==> (rule_maps_to(
                    final(self).image_rules@,
                    k2,
                    f2,
                ) <==> rule_maps_to(old(self).image_rules@, k2, f2)),
            final(self).cgroup_rules@ == old(self).cgroup_rules@,
            final(self).interest@ == old(self).interest@,
    {
        let key = normalize_path(path, MAX_IMAGE_LEN);
        let ghost key_view = key@;
        rule_insert(&mut self.image_rules, key, flag);
        proof {
            assert forall|i: int| 0 <= i < self.image_rules@.len() implies #[trigger] self.image_rules@[i].0@.len()
                == MAX_IMAGE_LEN as int by {
                if self.image_rules@[i].0@ != key_view {
                    assert(rule_has(old(self).image_rules@, self.image_rules@[i].0@));
                }
            }
        }
    }

    /// Installs or overwrites a cgroup-path rule.
    pub fn add_cgroup_rule(&mut self, path: &Vec<u8>, flag: u8)
        requires
            old(self).wf(),
        ensures
            final(self).wf(),
            rule_maps_to(
                final(self).cgroup_rules@,
                spec_normalized(path@, MAX_CGROUP_LEN as int),
                flag,
            ),
            forall|k2: Seq<u8>, f2: u8|
                k2 != spec_normalized(path@, MAX_CGROUP_LEN as int) ==> (rule_maps_to(
                    final(self).cgroup_rules@,
                    k2,
                    f2,
                ) <==> rule_maps_to(old(self).cgroup_rules@, k2, f2)),
            final(self).image_rules@ == old(self).image_rules@,
            final(self).interest@ == old(self).interest@,
    {
        let key = normalize_path(path, MAX_CGROUP_LEN);
        let ghost key_view = key@;
        rule_insert(&mut self.cgroup_rules, key, flag);
        proof {
            assert forall|i: int| 0 <= i < self.cgroup_rules@.len() implies #[trigger] self.cgroup_rules@[i].0@.len()
                == MAX_CGROUP_LEN as int by {
                if self.cgroup_rules@[i].0@ != key_view {
                    assert(rule_has(old(self).cgroup_rules@, self.cgroup_rules@[i].0@));
                }
            }
        }
    }
}

} // verus!
