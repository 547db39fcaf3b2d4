//! Named lists of path patterns, and their assembly from global and local groups.
use vstd::prelude::*;
use crate::config::{GlobalProjectConfig, ProjectConfig, config_wf};
use crate::strings::{copy_strings, extend_strings, strs};

verus! {

#[derive(Clone, Debug)]
pub struct FileGroup {
    pub id: String,
    pub files: Vec<String>,
}

pub open spec fn group_ids_unique(gs: Seq<FileGroup>) -> bool {
    forall|i: int, j: int| 0 <= i < j < gs.len() ==> gs[i].id@ != gs[j].id@
}

pub open spec fn has_group(gs: Seq<FileGroup>, k: Seq<char>) -> bool {
    exists|i: int| 0 <= i < gs.len() && gs[i].id@ == k
}

/// The patterns of group `k`, empty where there is no such group.
pub open spec fn files_in(gs: Seq<FileGroup>, k: Seq<char>) -> Seq<Seq<char>> {
    if has_group(gs, k) {
        strs(gs[choose|i: int| 0 <= i < gs.len() && gs[i].id@ == k].files@)
    } else {
        Seq::empty()
    }
}

pub proof fn lemma_files_in_at(gs: Seq<FileGroup>, i: int)
    requires
        group_ids_unique(gs),
        0 <= i < gs.len(),
    ensures
        has_group(gs, gs[i].id@),
        files_in(gs, gs[i].id@) == strs(gs[i].files@),
{
    let k = gs[i].id@;
    assert(has_group(gs, k));
    let j = choose|j: int| 0 <= j < gs.len() && gs[j].id@ == k;
    assert(j == i);
}

impl FileGroup {
    pub fn new(id: &String, files: Vec<String>) -> (r: FileGroup)
        ensures
            r.id@ == id@,
            r.files@ == files@,
    {
        FileGroup { id: id.clone(), files }
    }

    /// Adds the given patterns after those already held.
    pub fn merge(&mut self, files: &Vec<String>)
        ensures
            final(self).id == old(self).id,
            final(self).files@ == old(self).files@ + files@,
    {
        extend_strings(&mut self.files, files);
    }
}

/// Position of the group with id `id`, if any.
pub fn find_group(gs: &Vec<FileGroup>, id: &String) -> (r: Option<usize>)
    ensures
        match r {
            Some(i) => i < gs.len() && gs@[i as int].id@ == id@,
            None => !has_group(gs@, id@),
        },
{
    let mut i: usize = 0;
    while i < gs.len()
        invariant
            i <= gs.len(),
            forall|j: int| 0 <= j < i ==> gs@[j].id@ != id@,
        decreases gs.len() - i,
    {
        if gs[i].id == *id {
            return Some(i);
        }
        i += 1;
    }
    None
}

/// The local file groups of an optional project configuration.
pub open spec fn local_groups(config: Option<ProjectConfig>) -> Seq<FileGroup> {
    match config {
        Some(c) => c.file_groups@,
        None => Seq::empty(),
    }
}

/// `r` holds every global and every local group; a group's patterns are its
/// global ones followed by its local ones; the global groups come first, in order.
pub open spec fn file_groups_post(config: Option<ProjectConfig>, g: Seq<FileGroup>, r: Seq<FileGroup>) -> bool {
    &&& group_ids_unique(r)
    &&& forall|k: Seq<char>| #[trigger] has_group(r, k)
        <==> has_group(g, k) || has_group(local_groups(config), k)
    &&& forall|k: Seq<char>| #[trigger] files_in(r, k)
        == files_in(g, k) + files_in(local_groups(config), k)
    &&& forall|i: int| 0 <= i < g.len() ==> r[i].id@ == (#[trigger] g[i]).id@
}

proof fn lemma_take_unique(gs: Seq<FileGroup>, n: int)
    requires
        group_ids_unique(gs),
        0 <= n <= gs.len(),
    ensures
        group_ids_unique(gs.take(n)),
        forall|k: Seq<char>| #[trigger] has_group(gs.take(n), k) ==> has_group(gs, k),
{
    assert forall|k: Seq<char>| #[trigger] has_group(gs.take(n), k) implies has_group(gs, k) by {
        let j = choose|j: int| 0 <= j < gs.take(n).len() && gs.take(n)[j].id@ == k;
        assert(gs[j].id@ == k);
    }
}

/// Files of key `k` in the first `n + 1` groups, from those in the first `n`.
proof fn lemma_take_step(gs: Seq<FileGroup>, n: int, k: Seq<char>)
    requires
        group_ids_unique(gs),
        0 <= n < gs.len(),
    ensures
        has_group(gs.take(n + 1), k) == (has_group(gs.take(n), k) || gs[n].id@ == k),
        gs[n].id@ == k ==> !has_group(gs.take(n), k) && files_in(gs.take(n + 1), k) == strs(gs[n].files@),
        gs[n].id@ != k ==> files_in(gs.take(n + 1), k) == files_in(gs.take(n), k),
{
    let a = gs.take(n);
    let b = gs.take(n + 1);
    lemma_take_unique(gs, n);
    lemma_take_unique(gs, n + 1);
    if has_group(a, k) {
        let j = choose|j: int| 0 <= j < a.len() && a[j].id@ == k;
        assert(b[j].id@ == k);
        lemma_files_in_at(a, j);
        lemma_files_in_at(b, j);
    }
    if has_group(b, k) {
        let j = choose|j: int| 0 <= j < b.len() && b[j].id@ == k;
        if j < n {
            assert(a[j].id@ == k);
        }
    }
    if gs[n].id@ == k {
        assert(b[n].id@ == k);
        lemma_files_in_at(b, n);
    }
}

/// The file groups of a project: every global group, each extended by the
/// patterns of the local group of the same id, then the local groups that
/// have no global counterpart. No group is ever dropped.
pub fn create_file_groups_from_config(
    config: &Option<ProjectConfig>,
    global_config: &GlobalProjectConfig,
) -> (r: Vec<FileGroup>)
    requires
        global_config.wf(),
        config_wf(*config),
    ensures
        file_groups_post(*config, global_config.file_groups@, r@),
{
    let ghost g = global_config.file_groups@;
    let ghost l = local_groups(*config);
    let mut r: Vec<FileGroup> = Vec::new();
    let mut i: usize = 0;
    while i < global_config.file_groups.len()
        invariant
            g == global_config.file_groups@,
            group_ids_unique(g),
            i <= g.len(),
            r.len() == i,
            forall|j: int| 0 <= j < i ==> r@[j].id@ == (#[trigger] g[j]).id@ && r@[j].files@ == g[j].files@,
        decreases g.len() - i,
    {
        let group = &global_config.file_groups[i];
        r.push(FileGroup::new(&group.id, copy_strings(&group.files)));
        i += 1;
    }
    assert(group_ids_unique(r@)) by {
        assert forall|a: int, b: int| 0 <= a < b < r.len() implies r@[a].id@ != r@[b].id@ by {
            assert(r@[a].id@ == g[a].id@ && r@[b].id@ == g[b].id@);
        }
    }
    assert forall|k: Seq<char>| #[trigger] has_group(r@, k) <==> has_group(g, k) by {
        if has_group(r@, k) {
            let j = choose|j: int| 0 <= j < r.len() && r@[j].id@ == k;
            assert(g[j].id@ == k);
        }
        if has_group(g, k) {
            let j = choose|j: int| 0 <= j < g.len() && g[j].id@ == k;
            assert(r@[j].id@ == k);
        }
    }
    assert forall|k: Seq<char>| #[trigger] files_in(r@, k) == files_in(g, k) by {
        if has_group(g, k) {
            let j = choose|j: int| 0 <= j < g.len() && g[j].id@ == k;
            assert(r@[j].id@ == k);
            lemma_files_in_at(g, j);
            lemma_files_in_at(r@, j);
        }
    }
    if let Some(local_config) = config {
        let locals = &local_config.file_groups;
        assert(l == locals@);
        let mut i: usize = 0;
        while i < locals.len()
            invariant
                g == global_config.file_groups@,
                l == locals@,
                group_ids_unique(g),
                group_ids_unique(l),
                i <= l.len(),
                r.len() >= g.len(),
                group_ids_unique(r@),
                forall|j: int| 0 <= j < g.len() ==> r@[j].id@ == (#[trigger] g[j]).id@,
                forall|k: Seq<char>| #[trigger] has_group(r@, k)
                    <==> has_group(g, k) || has_group(l.take(i as int), k),
                forall|k: Seq<char>| #[trigger] files_in(r@, k)
                    == files_in(g, k) + files_in(l.take(i as int), k),
            decreases l.len() - i,
        {
            let local = &locals[i];
            let ghost old_r = r@;
            let ghost k0 = local.id@;
            proof {
                lemma_take_step(l, i as int, k0);
            }
            match find_group(&r, &local.id) {
                Some(p) => {
                    let mut group = r.remove(p);
                    group.merge(&local.files);
                    r.insert(p, group);
                    assert(r@ =~= old_r.update(p as int, r@[p as int]));
                    assert(group_ids_unique(r@)) by {
                        assert forall|a: int, b: int| 0 <= a < b < r.len() implies r@[a].id@ != r@[b].id@ by {
                            assert(r@[a].id@ == old_r[a].id@ && r@[b].id@ == old_r[b].id@);
                        }
                    }
                    assert forall|k: Seq<char>| #[trigger] has_group(r@, k) <==> has_group(old_r, k) by {
                        if has_group(r@, k) {
                            let j = choose|j: int| 0 <= j < r.len() && r@[j].id@ == k;
                            assert(old_r[j].id@ == k);
                        }
                        if has_group(old_r, k) {
                            let j = choose|j: int| 0 <= j < old_r.len() && old_r[j].id@ == k;
                            assert(r@[j].id@ == k);
                        }
                    }
                    assert forall|k: Seq<char>| #[trigger] files_in(r@, k)
                        == files_in(g, k) + files_in(l.take(i + 1), k) by {
                        lemma_take_step(l, i as int, k);
                        if has_group(old_r, k) {
                            let j = choose|j: int| 0 <= j < old_r.len() && old_r[j].id@ == k;
                            lemma_files_in_at(old_r, j);
                            lemma_files_in_at(r@, j);
                            if k == k0 {
                                assert(j == p);
                                assert(strs(r@[j].files@) =~= strs(old_r[j].files@) + strs(local.files@));
                                assert(files_in(l.take(i as int), k) =~= Seq::empty());
                                assert(files_in(g, k) + files_in(l.take(i as int), k) =~= files_in(g, k));
                            }
                        }
                    }
                },
                None => {
                    r.push(FileGroup::new(&local.id, copy_strings(&local.files)));
                    assert(group_ids_unique(r@)) by {
                        assert forall|a: int, b: int| 0 <= a < b < r.len() implies r@[a].id@ != r@[b].id@ by {
                            if b == old_r.len() {
                                assert(old_r[a].id@ == r@[a].id@);
                            } else {
                                assert(r@[a].id@ == old_r[a].id@ && r@[b].id@ == old_r[b].id@);
                            }
                        }
                    }
                    assert forall|k: Seq<char>| #[trigger] has_group(r@, k)
                        <==> has_group(old_r, k) || k == k0 by {
                        if has_group(r@, k) {
                            let j = choose|j: int| 0 <= j < r.len() && r@[j].id@ == k;
                            if j < old_r.len() {
                                assert(old_r[j].id@ == k);
                            }
                        }
                        if has_group(old_r, k) {
                            let j = choose|j: int| 0 <= j < old_r.len() && old_r[j].id@ == k;
                            assert(r@[j].id@ == k);
                        }
                        if k == k0 {
                            assert(r@[old_r.len() as int].id@ == k);
                        }
                    }
                    assert forall|k: Seq<char>| #[trigger] files_in(r@, k)
                        == files_in(g, k) + files_in(l.take(i + 1), k) by {
                        lemma_take_step(l, i as int, k);
                        if k == k0 {
                            lemma_files_in_at(r@, old_r.len() as int);
                            assert(!has_group(g, k));
                            assert(files_in(g, k) + files_in(l.take(i + 1), k) =~= files_in(l.take(i + 1), k));
                        } else if has_group(old_r, k) {
                            let j = choose|j: int| 0 <= j < old_r.len() && old_r[j].id@ == k;
                            lemma_files_in_at(old_r, j);
                            lemma_files_in_at(r@, j);
                        }
                    }
                },
            }
            i += 1;
        }
        assert(l.take(l.len() as int) =~= l);
    } else {
        assert forall|k: Seq<char>| #[trigger] files_in(r@, k)
            == files_in(g, k) + files_in(l, k) by {
            assert(files_in(g, k) + files_in(l, k) =~= files_in(g, k));
        }
    }
    r
}

} // verus!
