//! Which global tasks a project inherits, under which keys, and how its own
//! tasks are laid over them.
use vstd::prelude::*;
use crate::config::{GlobalProjectConfig, ProjectConfig, TaskConfig, config_wf, rename_sources_unique};
use crate::errors::ProjectError;
use crate::expand::{ExpandContext, expand_task, expanded_spec, expands};
use crate::file_group::{FileGroup, group_ids_unique};
use crate::strings::strs;
use crate::target::{format_target, target_of, valid_target};
use crate::task::{
    PendingTask, Task, find_pending, from_config_spec, has_pending, lemma_pending_push,
    lemma_pending_update, merged_spec, pending_ids_unique, pending_of,
};

verus! {

pub open spec fn seq_has(v: Seq<String>, k: Seq<char>) -> bool {
    exists|i: int| 0 <= i < v.len() && v[i]@ == k
}

/// Whether the global task `k` passes the project's selection and exclusion.
/// Both are tested against the task's own id, never against a renamed one.
pub open spec fn inherits(config: Option<ProjectConfig>, k: Seq<char>) -> bool {
    match config {
        None => true,
        Some(c) => {
            &&& match c.inherited_tasks.only {
                None => true,
                Some(v) => seq_has(v@, k),
            }
            &&& match c.inherited_tasks.exclude {
                None => true,
                Some(v) => !seq_has(v@, k),
            }
        },
    }
}

pub open spec fn has_rename(r: Seq<(String, String)>, k: Seq<char>) -> bool {
    exists|i: int| 0 <= i < r.len() && r[i].0@ == k
}

/// The key that global task `k` is stored under.
pub open spec fn inherited_key(config: Option<ProjectConfig>, k: Seq<char>) -> Seq<char> {
    match config {
        None => k,
        Some(c) => {
            let r = c.inherited_tasks.rename@;
            if has_rename(r, k) {
                r[choose|i: int| 0 <= i < r.len() && r[i].0@ == k].1@
            } else {
                k
            }
        },
    }
}

/// The global task at position `i` is inherited, under key `k`.
pub open spec fn inherited_as(config: Option<ProjectConfig>, g: Seq<TaskConfig>, i: int, k: Seq<char>) -> bool {
    &&& 0 <= i < g.len()
    &&& inherits(config, g[i].id@)
    &&& inherited_key(config, g[i].id@) == k
}

/// Task `t` comes from the global task at position `i`, and no later one of
/// the first `n` is inherited under the same key.
pub open spec fn inherited_from(
    config: Option<ProjectConfig>,
    g: Seq<TaskConfig>,
    n: int,
    project_id: Seq<char>,
    t: PendingTask,
    i: int,
) -> bool {
    &&& inherited_as(config, g, i, t.id@)
    &&& from_config_spec(t, t.id@, target_of(project_id, t.id@), g[i])
    &&& forall|i2: int| i < i2 < n ==> !#[trigger] inherited_as(config, g, i2, t.id@)
}

/// Every task of `ts` comes from one of the first `n` global tasks.
pub open spec fn all_inherited_from(
    config: Option<ProjectConfig>,
    g: Seq<TaskConfig>,
    n: int,
    project_id: Seq<char>,
    ts: Seq<PendingTask>,
) -> bool {
    forall|j: int| 0 <= j < ts.len() ==> #[trigger] inherited_task(config, g, n, project_id, ts[j])
}

/// Task `t` comes from one of the first `n` global tasks.
pub open spec fn inherited_task(
    config: Option<ProjectConfig>,
    g: Seq<TaskConfig>,
    n: int,
    project_id: Seq<char>,
    t: PendingTask,
) -> bool {
    exists|i: int| #[trigger] inherited_from(config, g, n, project_id, t, i)
}

/// Each inherited global task gets a valid target under its key.
pub open spec fn inherited_targets_valid(config: Option<ProjectConfig>, g: Seq<TaskConfig>, project_id: Seq<char>) -> bool {
    forall|i: int| 0 <= i < g.len() && #[trigger] inherits(config, g[i].id@)
        ==> valid_target(project_id, inherited_key(config, g[i].id@))
}

/// `ts` is what a project inherits from the global tasks `g`.
pub open spec fn inherit_post(config: Option<ProjectConfig>, g: Seq<TaskConfig>, project_id: Seq<char>, ts: Seq<PendingTask>) -> bool {
    &&& pending_ids_unique(ts)
    &&& forall|k: Seq<char>| #[trigger] has_pending(ts, k)
        <==> exists|i: int| #[trigger] inherited_as(config, g, i, k)
    &&& all_inherited_from(config, g, g.len() as int, project_id, ts)
}

pub fn contains_string(v: &Vec<String>, k: &String) -> (r: bool)
    ensures
        r == seq_has(v@, k@),
{
    let mut i: usize = 0;
    while i < v.len()
        invariant
            i <= v.len(),
            forall|j: int| 0 <= j < i ==> v@[j]@ != k@,
        decreases v.len() - i,
    {
        if v[i] == *k {
            return true;
        }
        i += 1;
    }
    false
}

/// The key that global task `id` is stored under.
pub fn rename_key(config: &Option<ProjectConfig>, id: &String) -> (r: String)
    requires
        config_wf(*config),
    ensures
        r@ == inherited_key(*config, id@),
{
    if let Some(c) = config {
        let r = &c.inherited_tasks.rename;
        let mut i: usize = 0;
        while i < r.len()
            invariant
                i <= r.len(),
                r@ == c.inherited_tasks.rename@,
                *config == Some(*c),
                rename_sources_unique(r@),
                forall|j: int| 0 <= j < i ==> r@[j].0@ != id@,
            decreases r.len() - i,
        {
            if r[i].0 == *id {
                proof {
                    assert(r@[i as int].0@ == id@);
                    let rs = c.inherited_tasks.rename@;
                    assert(has_rename(rs, id@));
                    assert forall|j: int| 0 <= j < rs.len() && rs[j].0@ == id@ implies j == i by {
                        if j != i {
                            assert(rename_sources_unique(rs));
                        }
                    }
                }
                let out = r[i].1.clone();
                assert(out@ == r@[i as int].1@);
                return out;
            }
            i += 1;
        }
    }
    id.clone()
}

/// Whether the global task `id` is inherited at all.
pub fn is_inherited(config: &Option<ProjectConfig>, id: &String) -> (r: bool)
    ensures
        r == inherits(*config, id@),
{
    match config {
        None => true,
        Some(c) => {
            let selected = match &c.inherited_tasks.only {
                None => true,
                Some(v) => contains_string(v, id),
            };
            let excluded = match &c.inherited_tasks.exclude {
                None => false,
                Some(v) => contains_string(v, id),
            };
            selected && !excluded
        },
    }
}

/// Whether the selection of the configuration names no task at all.
fn selects_none(config: &Option<ProjectConfig>) -> (r: bool)
    ensures
        r ==> forall|k: Seq<char>| !#[trigger] inherits(*config, k),
{
    if let Some(c) = config {
        if let Some(v) = &c.inherited_tasks.only {
            return v.len() == 0;
        }
    }
    false
}

/// The tasks a project inherits from the workspace: each global task that
/// passes selection and exclusion, stored under its renamed key where the
/// project renames it. Where two inherited tasks share a key, the later one
/// in the global order is kept.
pub fn inherit_global_tasks(
    config: &Option<ProjectConfig>,
    global_config: &GlobalProjectConfig,
    project_id: &String,
) -> (r: Result<Vec<PendingTask>, ProjectError>)
    requires
        global_config.wf(),
        config_wf(*config),
    ensures
        r is Ok <==> inherited_targets_valid(*config, global_config.tasks@, project_id@),
        match r {
            Ok(ts) => inherit_post(*config, global_config.tasks@, project_id@, ts@),
            Err(e) => e is InvalidTarget,
        },
{
    let ghost c = *config;
    let ghost g = global_config.tasks@;
    let ghost p = project_id@;
    let mut ts: Vec<PendingTask> = Vec::new();
    let ghost mut src: Seq<int> = Seq::empty();
    let mut n: usize = 0;
    let none = selects_none(config);
    if none {
        n = global_config.tasks.len();
    }
    while n < global_config.tasks.len()
        invariant
            c == *config,
            g == global_config.tasks@,
            p == project_id@,
            config_wf(c),
            n <= g.len(),
            none ==> forall|k: Seq<char>| !#[trigger] inherits(c, k),
            pending_ids_unique(ts@),
            forall|k: Seq<char>| #[trigger] has_pending(ts@, k)
                <==> exists|i: int| i < n && #[trigger] inherited_as(c, g, i, k),
            src.len() == ts.len(),
            forall|j: int| 0 <= j < ts.len() ==> inherited_from(c, g, n as int, p, #[trigger] ts@[j], src[j]),
            forall|i: int| 0 <= i < n && #[trigger] inherits(c, g[i].id@)
                ==> valid_target(p, inherited_key(c, g[i].id@)),
        decreases g.len() - n,
    {
        let t = &global_config.tasks[n];
        let ghost old_ts = ts@;
        let ghost n1: int = n + 1;
        if is_inherited(config, &t.id) {
            let key = rename_key(config, &t.id);
            let ghost kk = key@;
            let target = match format_target(project_id, &key) {
                Ok(target) => target,
                Err(e) => {
                    return Err(e);
                },
            };
            let task = PendingTask::from_config(&key, target, t);
            assert(inherited_from(c, g, n1, p, task, n as int));
            let found = find_pending(&ts, &key);
            match found {
                Some(q) => {
                    ts.set(q, task);
                },
                None => {
                    ts.push(task);
                },
            }
            let ghost q: int = match found {
                Some(q) => q as int,
                None => old_ts.len() as int,
            };
            assert(ts@[q] == task);
            assert forall|j: int| 0 <= j < ts.len() && j != q implies ts@[j] == old_ts[j] && old_ts[j].id@ != kk by {}
            assert(pending_ids_unique(ts@)) by {
                assert forall|a: int, b: int| 0 <= a < b < ts.len() implies ts@[a].id@ != ts@[b].id@ by {
                    if a != q && b != q {
                        assert(ts@[a] == old_ts[a] && ts@[b] == old_ts[b]);
                    }
                }
            }
            assert forall|k: Seq<char>| #[trigger] has_pending(ts@, k)
                <==> exists|i: int| i < n + 1 && #[trigger] inherited_as(c, g, i, k) by {
                if has_pending(ts@, k) {
                    let j = choose|j: int| 0 <= j < ts.len() && ts@[j].id@ == k;
                    if j == q {
                        assert(inherited_as(c, g, n as int, k));
                    } else {
                        assert(has_pending(old_ts, k));
                        let i = choose|i: int| i < n && #[trigger] inherited_as(c, g, i, k);
                        assert(inherited_as(c, g, i, k));
                    }
                }
                if exists|i: int| i < n + 1 && #[trigger] inherited_as(c, g, i, k) {
                    let i = choose|i: int| i < n + 1 && #[trigger] inherited_as(c, g, i, k);
                    if i == n {
                        assert(ts@[q].id@ == k);
                    } else {
                        assert(has_pending(old_ts, k));
                        let j = choose|j: int| 0 <= j < old_ts.len() && old_ts[j].id@ == k;
                        if j == q {
                            assert(ts@[q].id@ == k);
                        } else {
                            assert(ts@[j].id@ == k);
                        }
                    }
                }
            }
            proof {
                let old_src = src;
                src = if q == old_ts.len() { old_src.push(n as int) } else { old_src.update(q, n as int) };
                assert forall|j: int| 0 <= j < ts.len() implies inherited_from(c, g, n1, p, #[trigger] ts@[j], src[j]) by {
                    if j != q {
                        assert(ts@[j] == old_ts[j]);
                        assert(inherited_from(c, g, n as int, p, old_ts[j], old_src[j]));
                        assert(!inherited_as(c, g, n as int, old_ts[j].id@));
                    }
                }
            }
        } else {
            assert forall|k: Seq<char>| #[trigger] has_pending(ts@, k)
                <==> exists|i: int| i < n + 1 && #[trigger] inherited_as(c, g, i, k) by {
                if exists|i: int| i < n + 1 && #[trigger] inherited_as(c, g, i, k) {
                    let i = choose|i: int| i < n + 1 && #[trigger] inherited_as(c, g, i, k);
                    assert(i != n);
                }
            }
            assert forall|j: int| 0 <= j < ts.len() implies inherited_from(c, g, n1, p, #[trigger] ts@[j], src[j]) by {
                assert(inherited_from(c, g, n as int, p, ts@[j], src[j]));
                assert(t == g[n as int]);
                assert(!inherited_as(c, g, n as int, ts@[j].id@));
            }
        }
        n += 1;
    }
    assert forall|k: Seq<char>| #[trigger] has_pending(ts@, k)
        <==> exists|i: int| #[trigger] inherited_as(c, g, i, k) by {
        if exists|i: int| #[trigger] inherited_as(c, g, i, k) {
            let i = choose|i: int| #[trigger] inherited_as(c, g, i, k);
            assert(i < n);
        }
    }
    assert(all_inherited_from(c, g, g.len() as int, p, ts@)) by {
        assert forall|j: int| 0 <= j < ts@.len() implies #[trigger] inherited_task(
            c, g, g.len() as int, p, ts@[j]) by {
            assert(inherited_from(c, g, g.len() as int, p, ts@[j], src[j]));
        }
    }
    Ok(ts)
}

/// The local task configurations of an optional project configuration.
pub open spec fn local_tasks(config: Option<ProjectConfig>) -> Seq<TaskConfig> {
    match config {
        Some(c) => c.tasks@,
        None => Seq::empty(),
    }
}

/// Whether one of the first `n` local tasks has key `k`.
pub open spec fn has_local(config: Option<ProjectConfig>, n: int, k: Seq<char>) -> bool {
    exists|m: int| 0 <= m < n && m < local_tasks(config).len() && (#[trigger] local_tasks(config)[m]).id@ == k
}

/// In `fs`, the local task `c` was laid over task of the same key in `ts`,
/// or added as a new task where `ts` has none.
pub open spec fn local_applied(fs: Seq<PendingTask>, ts: Seq<PendingTask>, c: TaskConfig, project_id: Seq<char>) -> bool {
    &&& has_pending(fs, c.id@)
    &&& if has_pending(ts, c.id@) {
        merged_spec(pending_of(fs, c.id@), pending_of(ts, c.id@), c)
    } else {
        from_config_spec(pending_of(fs, c.id@), c.id@, target_of(project_id, c.id@), c)
    }
}

/// Each local task that adds a new key gets a valid target.
pub open spec fn local_targets_valid(config: Option<ProjectConfig>, project_id: Seq<char>, ts: Seq<PendingTask>) -> bool {
    forall|m: int| 0 <= m < local_tasks(config).len()
        && !has_pending(ts, (#[trigger] local_tasks(config)[m]).id@)
        ==> valid_target(project_id, local_tasks(config)[m].id@)
}

/// `fs` is `ts` with the project's local tasks laid over it.
pub open spec fn merge_post(config: Option<ProjectConfig>, project_id: Seq<char>, ts: Seq<PendingTask>, fs: Seq<PendingTask>) -> bool {
    &&& pending_ids_unique(fs)
    &&& forall|k: Seq<char>| #[trigger] has_pending(fs, k)
        <==> has_pending(ts, k) || has_local(config, local_tasks(config).len() as int, k)
    &&& forall|k: Seq<char>| has_pending(ts, k) && !has_local(config, local_tasks(config).len() as int, k)
        ==> #[trigger] pending_of(fs, k) == pending_of(ts, k)
    &&& forall|m: int| 0 <= m < local_tasks(config).len()
        ==> local_applied(fs, ts, #[trigger] local_tasks(config)[m], project_id)
}

/// Lays the project's own tasks over the inherited ones: a local task whose
/// key is already present is merged into that task, any other is added.
pub fn merge_local_tasks(
    tasks: Vec<PendingTask>,
    config: &Option<ProjectConfig>,
    project_id: &String,
) -> (r: Result<Vec<PendingTask>, ProjectError>)
    requires
        pending_ids_unique(tasks@),
        config_wf(*config),
    ensures
        r is Ok <==> local_targets_valid(*config, project_id@, tasks@),
        match r {
            Ok(fs) => merge_post(*config, project_id@, tasks@, fs@),
            Err(e) => e is InvalidTarget,
        },
{
    let ghost c = *config;
    let ghost l = local_tasks(*config);
    let ghost ts = tasks@;
    let ghost p = project_id@;
    let mut fs = tasks;
    if let Some(local_config) = config {
        let locals = &local_config.tasks;
        assert(l == locals@);
        let mut m: usize = 0;
        while m < locals.len()
            invariant
                c == *config,
                l == locals@,
                l == local_tasks(c),
                ts == tasks@,
                p == project_id@,
                config_wf(c),
                crate::config::task_ids_unique(l),
                m <= l.len(),
                pending_ids_unique(fs@),
                forall|k: Seq<char>| #[trigger] has_pending(fs@, k)
                    <==> has_pending(ts, k) || has_local(c, m as int, k),
                forall|k: Seq<char>| has_pending(ts, k) && !has_local(c, m as int, k)
                    ==> #[trigger] pending_of(fs@, k) == pending_of(ts, k),
                forall|j: int| 0 <= j < m ==> local_applied(fs@, ts, #[trigger] l[j], p),
                forall|j: int| 0 <= j < m && !has_pending(ts, (#[trigger] l[j]).id@) ==> valid_target(p, l[j].id@),
            decreases l.len() - m,
        {
            let lc = &locals[m];
            let ghost k0 = lc.id@;
            let ghost old_fs = fs@;
            let ghost m1: int = m + 1;
            assert(!has_local(c, m as int, k0)) by {
                if has_local(c, m as int, k0) {
                    let j = choose|j: int| 0 <= j < m && j < l.len() && (#[trigger] l[j]).id@ == k0;
                    assert(l[j].id@ != l[m as int].id@);
                }
            }
            assert forall|k: Seq<char>| #[trigger] has_local(c, m1, k) == (has_local(c, m as int, k) || k == k0) by {
                if has_local(c, m1, k) {
                    let j = choose|j: int| 0 <= j < m1 && j < l.len() && (#[trigger] l[j]).id@ == k;
                    if j < m {
                        assert(has_local(c, m as int, k));
                    }
                }
                if has_local(c, m as int, k) {
                    let j = choose|j: int| 0 <= j < m && j < l.len() && (#[trigger] l[j]).id@ == k;
                    assert(has_local(c, m1, k));
                }
                if k == k0 {
                    assert(l[m as int].id@ == k);
                    assert(has_local(c, m1, k));
                }
            }
            match find_pending(&fs, &lc.id) {
                Some(q) => {
                    assert(old_fs[q as int].id@ == k0);
                    assert(has_pending(old_fs, k0));
                    assert(has_pending(ts, k0));
                    proof {
                        crate::task::lemma_pending_at(old_fs, q as int);
                    }
                    let mut t = fs.remove(q);
                    t.merge(lc);
                    fs.insert(q, t);
                    proof {
                        assert(fs@ =~= old_fs.update(q as int, fs@[q as int]));
                        lemma_pending_update(old_fs, q as int, fs@[q as int]);
                    }
                },
                None => {
                    let target = match format_target(project_id, &lc.id) {
                        Ok(target) => target,
                        Err(e) => {
                            return Err(e);
                        },
                    };
                    let t = PendingTask::from_config(&lc.id, target, lc);
                    fs.push(t);
                    proof {
                        lemma_pending_push(old_fs, t);
                    }
                },
            }
            assert forall|j: int| 0 <= j < m1 implies local_applied(fs@, ts, #[trigger] l[j], p) by {
                if j < m {
                    assert(local_applied(old_fs, ts, l[j], p));
                    assert(l[j].id@ != k0);
                }
            }
            m += 1;
        }
        assert(l.len() == m);
    }
    Ok(fs)
}

/// The projects that a project depends on, as configured.
pub open spec fn depends_on_of(config: Option<ProjectConfig>) -> Seq<Seq<char>> {
    match config {
        Some(c) => strs(c.depends_on@),
        None => Seq::empty(),
    }
}

/// `inh` is what the project inherits, `fs` that with its local tasks laid
/// over it, and `ts` each task of `fs` expanded.
pub open spec fn resolution(
    config: Option<ProjectConfig>,
    g: Seq<TaskConfig>,
    project_id: Seq<char>,
    groups: Seq<FileGroup>,
    inh: Seq<PendingTask>,
    fs: Seq<PendingTask>,
    ts: Seq<Task>,
) -> bool {
    &&& inherit_post(config, g, project_id, inh)
    &&& merge_post(config, project_id, inh, fs)
    &&& ts.len() == fs.len()
    &&& forall|j: int| 0 <= j < ts.len()
        ==> expanded_spec(#[trigger] ts[j], fs[j], groups, project_id, depends_on_of(config))
}

/// `ts` are the resolved and expanded tasks of the project.
pub open spec fn resolves_to(
    config: Option<ProjectConfig>,
    g: Seq<TaskConfig>,
    project_id: Seq<char>,
    groups: Seq<FileGroup>,
    ts: Seq<Task>,
) -> bool {
    exists|inh: Seq<PendingTask>, fs: Seq<PendingTask>| #[trigger] resolution(config, g, project_id, groups, inh, fs, ts)
}

/// Why resolving the tasks of a project may fail with `e`: a target that
/// cannot be formed, or a task whose tokens cannot be expanded.
pub open spec fn tasks_error(
    config: Option<ProjectConfig>,
    g: Seq<TaskConfig>,
    project_id: Seq<char>,
    groups: Seq<FileGroup>,
    e: ProjectError,
) -> bool {
    match e {
        ProjectError::InvalidTarget(_, _) => !inherited_targets_valid(config, g, project_id)
            || exists|inh: Seq<PendingTask>| #[trigger] inherit_post(config, g, project_id, inh)
                && !local_targets_valid(config, project_id, inh),
        ProjectError::InvalidToken(_, _) => exists|inh: Seq<PendingTask>, fs: Seq<PendingTask>, j: int|
            #[trigger] inherit_post(config, g, project_id, inh)
            && #[trigger] merge_post(config, project_id, inh, fs) && 0 <= j < fs.len()
            && !expands(#[trigger] fs[j], groups, project_id, depends_on_of(config)),
        _ => false,
    }
}

/// The tasks of a project: the global tasks it inherits, its own tasks laid
/// over them, and every task expanded against the project's file groups.
pub fn create_tasks_from_config(
    config: &Option<ProjectConfig>,
    global_config: &GlobalProjectConfig,
    project_id: &String,
    file_groups: &Vec<FileGroup>,
) -> (r: Result<Vec<Task>, ProjectError>)
    requires
        global_config.wf(),
        config_wf(*config),
        group_ids_unique(file_groups@),
    ensures
        match r {
            Ok(ts) => resolves_to(*config, global_config.tasks@, project_id@, file_groups@, ts@),
            Err(e) => tasks_error(*config, global_config.tasks@, project_id@, file_groups@, e),
        },
{
    let inherited = match inherit_global_tasks(config, global_config, project_id) {
        Ok(ts) => ts,
        Err(e) => {
            return Err(e);
        },
    };
    let ghost inh = inherited@;
    let mut merged = match merge_local_tasks(inherited, config, project_id) {
        Ok(fs) => fs,
        Err(e) => {
            assert(inherit_post(*config, global_config.tasks@, project_id@, inh));
            return Err(e);
        },
    };
    let ghost fs = merged@;
    let no_deps: Vec<String> = Vec::new();
    let depends_on = match config {
        Some(c) => &c.depends_on,
        None => &no_deps,
    };
    assert(strs(depends_on@) == depends_on_of(*config)) by {
        assert(strs(no_deps@) =~= Seq::<Seq<char>>::empty());
    }
    let ctx = ExpandContext { file_groups, project_id, depends_on };
    let mut tasks: Vec<Task> = Vec::new();
    let ghost mut i: int = 0;
    while merged.len() > 0
        invariant
            group_ids_unique(file_groups@),
            ctx.file_groups@ == file_groups@,
            ctx.project_id@ == project_id@,
            strs(ctx.depends_on@) == depends_on_of(*config),
            0 <= i <= fs.len(),
            inherit_post(*config, global_config.tasks@, project_id@, inh),
            merge_post(*config, project_id@, inh, fs),
            merged@ == fs.skip(i),
            tasks.len() == i,
            forall|j: int| 0 <= j < i ==> expanded_spec(#[trigger] tasks@[j], fs[j], file_groups@, project_id@,
                depends_on_of(*config)),
        decreases merged.len(),
    {
        let t = merged.remove(0);
        assert(t == fs[i]);
        match expand_task(t, &ctx) {
            Ok(x) => {
                tasks.push(x);
            },
            Err(e) => {
                assert(inherit_post(*config, global_config.tasks@, project_id@, inh)
                    && merge_post(*config, project_id@, inh, fs) && !expands(fs[i], file_groups@, project_id@,
                    depends_on_of(*config)));
                return Err(e);
            },
        }
        proof {
            assert(merged@ =~= fs.skip(i + 1));
            i = i + 1;
        }
    }
    assert(resolution(*config, global_config.tasks@, project_id@, file_groups@, inh, fs, tasks@));
    assert(resolves_to(*config, global_config.tasks@, project_id@, file_groups@, tasks@));
    Ok(tasks)
}

} // verus!
