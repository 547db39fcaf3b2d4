//! Tasks of a project: as inherited or configured, and once expanded.
use vstd::prelude::*;
use crate::config::TaskConfig;
use crate::token::{Token, copy_tokens, extend_tokens};

verus! {

/// A task of a project whose lists still hold tokens.
#[derive(Debug)]
pub struct PendingTask {
    /// The key of the task within its project.
    pub id: String,
    pub target: String,
    pub command: Option<String>,
    pub deps: Vec<Token>,
    pub inputs: Vec<Token>,
    pub outputs: Vec<Token>,
    pub args: Vec<Token>,
}

/// A task of a project whose lists have been expanded.
#[derive(Clone, Debug)]
pub struct Task {
    /// The key of the task within its project.
    pub id: String,
    pub target: String,
    pub command: Option<String>,
    pub deps: Vec<String>,
    pub inputs: Vec<String>,
    pub outputs: Vec<String>,
    pub args: Vec<String>,
}

/// `t` is the task configured by `c`, stored under key `id` with target `target`.
pub open spec fn from_config_spec(t: PendingTask, id: Seq<char>, target: Seq<char>, c: TaskConfig) -> bool {
    &&& t.id@ == id
    &&& t.target@ == target
    &&& t.command == c.command
    &&& t.deps@ == c.deps@
    &&& t.inputs@ == c.inputs@
    &&& t.outputs@ == c.outputs@
    &&& t.args@ == c.args@
}

/// `t` is `base` with the local configuration `c` laid over it: a command of
/// `c` replaces that of `base`, and the lists of `c` follow those of `base`.
pub open spec fn merged_spec(t: PendingTask, base: PendingTask, c: TaskConfig) -> bool {
    &&& t.id@ == base.id@
    &&& t.target@ == base.target@
    &&& t.command == (if c.command is Some { c.command } else { base.command })
    &&& t.deps@ == base.deps@ + c.deps@
    &&& t.inputs@ == base.inputs@ + c.inputs@
    &&& t.outputs@ == base.outputs@ + c.outputs@
    &&& t.args@ == base.args@ + c.args@
}

pub fn copy_option_string(s: &Option<String>) -> (r: Option<String>)
    ensures
        r == *s,
{
    match s {
        Some(v) => Some(v.clone()),
        None => None,
    }
}

impl PendingTask {
    pub fn from_config(id: &String, target: String, config: &TaskConfig) -> (r: PendingTask)
        ensures
            from_config_spec(r, id@, target@, *config),
    {
        PendingTask {
            id: id.clone(),
            target,
            command: copy_option_string(&config.command),
            deps: copy_tokens(&config.deps),
            inputs: copy_tokens(&config.inputs),
            outputs: copy_tokens(&config.outputs),
            args: copy_tokens(&config.args),
        }
    }

    /// Merges the settings of a local task into this one.
    pub fn merge(&mut self, config: &TaskConfig)
        ensures
            merged_spec(*final(self), *old(self), *config),
    {
        if config.command.is_some() {
            self.command = copy_option_string(&config.command);
        }
        extend_tokens(&mut self.deps, &config.deps);
        extend_tokens(&mut self.inputs, &config.inputs);
        extend_tokens(&mut self.outputs, &config.outputs);
        extend_tokens(&mut self.args, &config.args);
    }
}

pub open spec fn pending_ids_unique(ts: Seq<PendingTask>) -> bool {
    forall|i: int, j: int| 0 <= i < j < ts.len() ==> ts[i].id@ != ts[j].id@
}

pub open spec fn has_pending(ts: Seq<PendingTask>, k: Seq<char>) -> bool {
    exists|i: int| 0 <= i < ts.len() && ts[i].id@ == k
}

/// The task of key `k`; meaningful where `has_pending(ts, k)`.
pub open spec fn pending_of(ts: Seq<PendingTask>, k: Seq<char>) -> PendingTask {
    ts[choose|i: int| 0 <= i < ts.len() && ts[i].id@ == k]
}

pub proof fn lemma_pending_at(ts: Seq<PendingTask>, i: int)
    requires
        pending_ids_unique(ts),
        0 <= i < ts.len(),
    ensures
        has_pending(ts, ts[i].id@),
        pending_of(ts, ts[i].id@) == ts[i],
{
    let k = ts[i].id@;
    assert(has_pending(ts, k));
    let j = choose|j: int| 0 <= j < ts.len() && ts[j].id@ == k;
    assert(j == i);
}

/// Position of the task with key `id`, if any.
pub fn find_pending(ts: &Vec<PendingTask>, id: &String) -> (r: Option<usize>)
    ensures
        match r {
            Some(i) => i < ts.len() && ts@[i as int].id@ == id@,
            None => !has_pending(ts@, id@),
        },
{
    let mut i: usize = 0;
    while i < ts.len()
        invariant
            i <= ts.len(),
            forall|j: int| 0 <= j < i ==> ts@[j].id@ != id@,
        decreases ts.len() - i,
    {
        if ts[i].id == *id {
            return Some(i);
        }
        i += 1;
    }
    None
}

/// Replacing the task at `q` by one of the same key changes only that key.
pub proof fn lemma_pending_update(old: Seq<PendingTask>, q: int, t: PendingTask)
    requires
        pending_ids_unique(old),
        0 <= q < old.len(),
        t.id@ == old[q].id@,
    ensures
        pending_ids_unique(old.update(q, t)),
        forall|k: Seq<char>| #[trigger] has_pending(old.update(q, t), k) == has_pending(old, k),
        pending_of(old.update(q, t), t.id@) == t,
        forall|k: Seq<char>| k != t.id@ && has_pending(old, k)
            ==> #[trigger] pending_of(old.update(q, t), k) == pending_of(old, k),
{
    let new = old.update(q, t);
    assert forall|a: int, b: int| 0 <= a < b < new.len() implies new[a].id@ != new[b].id@ by {
        assert(new[a].id@ == old[a].id@ && new[b].id@ == old[b].id@);
    }
    assert forall|k: Seq<char>| #[trigger] has_pending(new, k) == has_pending(old, k) by {
        if has_pending(new, k) {
            let j = choose|j: int| 0 <= j < new.len() && new[j].id@ == k;
            assert(old[j].id@ == k);
        }
        if has_pending(old, k) {
            let j = choose|j: int| 0 <= j < old.len() && old[j].id@ == k;
            assert(new[j].id@ == k);
        }
    }
    lemma_pending_at(new, q);
    assert forall|k: Seq<char>| k != t.id@ && has_pending(old, k)
        implies #[trigger] pending_of(new, k) == pending_of(old, k) by {
        let j = choose|j: int| 0 <= j < old.len() && old[j].id@ == k;
        lemma_pending_at(old, j);
        lemma_pending_at(new, j);
    }
}

/// Adding a task of a new key changes only that key.
pub proof fn lemma_pending_push(old: Seq<PendingTask>, t: PendingTask)
    requires
        pending_ids_unique(old),
        !has_pending(old, t.id@),
    ensures
        pending_ids_unique(old.push(t)),
        forall|k: Seq<char>| #[trigger] has_pending(old.push(t), k) == (has_pending(old, k) || k == t.id@),
        pending_of(old.push(t), t.id@) == t,
        forall|k: Seq<char>| k != t.id@ && has_pending(old, k)
            ==> #[trigger] pending_of(old.push(t), k) == pending_of(old, k),
{
    let new = old.push(t);
    assert forall|a: int, b: int| 0 <= a < b < new.len() implies new[a].id@ != new[b].id@ by {
        if b == old.len() {
            assert(old[a].id@ == new[a].id@);
        } else {
            assert(new[a].id@ == old[a].id@ && new[b].id@ == old[b].id@);
        }
    }
    assert forall|k: Seq<char>| #[trigger] has_pending(new, k) == (has_pending(old, k) || k == t.id@) by {
        if has_pending(new, k) {
            let j = choose|j: int| 0 <= j < new.len() && new[j].id@ == k;
            if j < old.len() {
                assert(old[j].id@ == k);
            }
        }
        if has_pending(old, k) {
            let j = choose|j: int| 0 <= j < old.len() && old[j].id@ == k;
            assert(new[j].id@ == k);
        }
        if k == t.id@ {
            assert(new[old.len() as int].id@ == k);
        }
    }
    lemma_pending_at(new, old.len() as int);
    assert forall|k: Seq<char>| k != t.id@ && has_pending(old, k)
        implies #[trigger] pending_of(new, k) == pending_of(old, k) by {
        let j = choose|j: int| 0 <= j < old.len() && old[j].id@ == k;
        lemma_pending_at(old, j);
        lemma_pending_at(new, j);
    }
}

} // verus!
