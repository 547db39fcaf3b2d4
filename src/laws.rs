//! Properties of task inheritance and file-group assembly, proved from the
//! contracts of the functions they speak of.
use vstd::prelude::*;
use crate::config::{ProjectConfig, TaskConfig};
use crate::file_group::{FileGroup, file_groups_post, files_in, has_group, lemma_files_in_at, local_groups};
use crate::inherit::{
    inherit_post, inherited_as, inherited_key, inherits, local_applied, local_tasks,
    merge_post, seq_has,
};
use crate::project::{lex_le, sorted};
use crate::strings::strs;
use crate::task::{PendingTask, has_pending, merged_spec, pending_of};

verus! {

/// The project selects every global task, excludes none and renames none.
pub open spec fn plain_inheritance(config: Option<ProjectConfig>) -> bool {
    match config {
        None => true,
        Some(c) => {
            &&& c.inherited_tasks.only is None
            &&& match c.inherited_tasks.exclude {
                None => true,
                Some(v) => v.len() == 0,
            }
            &&& c.inherited_tasks.rename.len() == 0
        },
    }
}

/// Where a project selects all, excludes none and renames none, it inherits
/// exactly the ids of the global tasks.
pub proof fn lemma_inherit_everything(
    config: Option<ProjectConfig>,
    g: Seq<TaskConfig>,
    project_id: Seq<char>,
    ts: Seq<PendingTask>,
)
    requires
        plain_inheritance(config),
        inherit_post(config, g, project_id, ts),
    ensures
        forall|k: Seq<char>| #[trigger] has_pending(ts, k)
            <==> exists|i: int| 0 <= i < g.len() && (#[trigger] g[i]).id@ == k,
{
    assert forall|k: Seq<char>| #[trigger] has_pending(ts, k)
        <==> exists|i: int| 0 <= i < g.len() && (#[trigger] g[i]).id@ == k by {
        if has_pending(ts, k) {
            let i = choose|i: int| #[trigger] inherited_as(config, g, i, k);
            assert(g[i].id@ == k);
        }
        if exists|i: int| 0 <= i < g.len() && (#[trigger] g[i]).id@ == k {
            let i = choose|i: int| 0 <= i < g.len() && (#[trigger] g[i]).id@ == k;
            assert(inherits(config, k));
            assert(inherited_as(config, g, i, k));
        }
    }
}

/// Where a project's selection is empty, it inherits no task at all.
pub proof fn lemma_empty_selection_inherits_nothing(
    config: Option<ProjectConfig>,
    g: Seq<TaskConfig>,
    project_id: Seq<char>,
    ts: Seq<PendingTask>,
)
    requires
        config matches Some(c) && c.inherited_tasks.only matches Some(v) && v.len() == 0,
        inherit_post(config, g, project_id, ts),
    ensures
        ts.len() == 0,
{
    if ts.len() > 0 {
        let k = ts[0].id@;
        assert(has_pending(ts, k));
        let i = choose|i: int| #[trigger] inherited_as(config, g, i, k);
        assert(inherits(config, g[i].id@));
    }
}

/// Exclusion is tested against a global task's own id: an excluded task is
/// never inherited, under any key, while a task that is selected and not
/// itself excluded is inherited under its renamed key, whatever that key is.
pub proof fn lemma_exclude_matches_own_id(
    config: Option<ProjectConfig>,
    g: Seq<TaskConfig>,
    project_id: Seq<char>,
    ts: Seq<PendingTask>,
    i: int,
)
    requires
        inherit_post(config, g, project_id, ts),
        0 <= i < g.len(),
    ensures
        (config matches Some(c) && c.inherited_tasks.exclude matches Some(v) && seq_has(v@, g[i].id@))
            ==> forall|k: Seq<char>| !#[trigger] inherited_as(config, g, i, k),
        inherits(config, g[i].id@) ==> has_pending(ts, inherited_key(config, g[i].id@)),
{
    if inherits(config, g[i].id@) {
        assert(inherited_as(config, g, i, inherited_key(config, g[i].id@)));
    }
}

/// A local task whose id is already inherited is merged into that task: the
/// result holds exactly one task of that id, the inherited one with the
/// local configuration laid over it.
pub proof fn lemma_local_task_merges(
    config: Option<ProjectConfig>,
    project_id: Seq<char>,
    ts: Seq<PendingTask>,
    fs: Seq<PendingTask>,
    m: int,
)
    requires
        merge_post(config, project_id, ts, fs),
        0 <= m < local_tasks(config).len(),
        has_pending(ts, local_tasks(config)[m].id@),
    ensures
        exists|j: int| 0 <= j < fs.len() && (#[trigger] fs[j]).id@ == local_tasks(config)[m].id@,
        forall|a: int, b: int| 0 <= a < fs.len() && 0 <= b < fs.len()
            && fs[a].id@ == local_tasks(config)[m].id@ && fs[b].id@ == local_tasks(config)[m].id@ ==> a == b,
        merged_spec(pending_of(fs, local_tasks(config)[m].id@), pending_of(ts, local_tasks(config)[m].id@),
            local_tasks(config)[m]),
{
    let c = local_tasks(config)[m];
    assert(local_applied(fs, ts, c, project_id));
}

/// Merging file groups only adds: a group defined both globally and locally
/// holds the global patterns followed by the local ones.
pub proof fn lemma_file_groups_add(
    config: Option<ProjectConfig>,
    g: Seq<FileGroup>,
    r: Seq<FileGroup>,
    i: int,
    m: int,
)
    requires
        crate::file_group::group_ids_unique(g),
        crate::file_group::group_ids_unique(local_groups(config)),
        file_groups_post(config, g, r),
        0 <= i < g.len(),
        0 <= m < local_groups(config).len(),
        g[i].id@ == local_groups(config)[m].id@,
    ensures
        has_group(r, g[i].id@),
        files_in(r, g[i].id@) == strs(g[i].files@) + strs(local_groups(config)[m].files@),
{
    lemma_files_in_at(g, i);
    lemma_files_in_at(local_groups(config), m);
}

proof fn lemma_lex_antisymmetric(a: Seq<char>, b: Seq<char>)
    requires
        lex_le(a, b),
        lex_le(b, a),
    ensures
        a == b,
    decreases a.len(),
{
    if a.len() == 0 {
        assert(b.len() == 0);
        assert(a =~= b);
    } else {
        assert(b.len() > 0);
        assert(a[0] == b[0]);
        lemma_lex_antisymmetric(a.drop_first(), b.drop_first());
        assert(a =~= seq![a[0]] + a.drop_first());
        assert(b =~= seq![b[0]] + b.drop_first());
    }
}

/// Two sorted lists that hold the same elements are equal.
pub proof fn lemma_sorted_unique(s1: Seq<Seq<char>>, s2: Seq<Seq<char>>)
    requires
        sorted(s1),
        sorted(s2),
        s1.to_multiset() == s2.to_multiset(),
    ensures
        s1 == s2,
    decreases s1.len(),
{
    s1.to_multiset_ensures();
    s2.to_multiset_ensures();
    if s1.len() == 0 {
        assert(s1 =~= s2);
    } else {
        assert(s1.contains(s1[0]));
        assert(s1.to_multiset().count(s1[0]) > 0);
        assert(s2.to_multiset().count(s1[0]) > 0);
        assert(s2.contains(s1[0]));
        let k = choose|k: int| 0 <= k < s2.len() && s2[k] == s1[0];
        assert(s2.contains(s2[0]));
        assert(s2.to_multiset().count(s2[0]) > 0);
        assert(s1.to_multiset().count(s2[0]) > 0);
        assert(s1.contains(s2[0]));
        let k2 = choose|k: int| 0 <= k < s1.len() && s1[k] == s2[0];
        if k != 0 && k2 != 0 {
            assert(lex_le(s2[0], s2[k]));
            assert(lex_le(s1[0], s1[k2]));
            lemma_lex_antisymmetric(s1[0], s2[0]);
        }
        assert(s1[0] == s2[0]);
        let t1 = s1.remove(0);
        let t2 = s2.remove(0);
        assert(t1.to_multiset() =~= t2.to_multiset());
        assert(sorted(t1)) by {
            assert forall|i: int, j: int| 0 <= i < j < t1.len() implies lex_le(t1[i], t1[j]) by {
                assert(t1[i] == s1[i + 1] && t1[j] == s1[j + 1]);
            }
        }
        assert(sorted(t2)) by {
            assert forall|i: int, j: int| 0 <= i < j < t2.len() implies lex_le(t2[i], t2[j]) by {
                assert(t2[i] == s2[i + 1] && t2[j] == s2[j + 1]);
            }
        }
        lemma_sorted_unique(t1, t2);
        assert(s1 =~= seq![s1[0]] + t1);
        assert(s2 =~= seq![s2[0]] + t2);
    }
}

/// The dependency list does not depend on the order of declaration: two
/// declarations of the same ids, in any order, give the same sorted list.
pub proof fn lemma_dependencies_ignore_order(
    declared1: Seq<Seq<char>>,
    declared2: Seq<Seq<char>>,
    r1: Seq<Seq<char>>,
    r2: Seq<Seq<char>>,
)
    requires
        declared1.to_multiset() == declared2.to_multiset(),
        sorted(r1),
        r1.to_multiset() == declared1.to_multiset(),
        sorted(r2),
        r2.to_multiset() == declared2.to_multiset(),
    ensures
        r1 == r2,
{
    lemma_sorted_unique(r1, r2);
}

} // verus!
