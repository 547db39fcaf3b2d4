//! A project of the workspace: its resolved file groups and tasks, and the
//! queries made of it.
use vstd::prelude::*;
use crate::config::{GlobalProjectConfig, ProjectConfig, config_wf};
use crate::errors::ProjectError;
use crate::file_group::{FileGroup, create_file_groups_from_config, file_groups_post};
use crate::inherit::{create_tasks_from_config, resolves_to, tasks_error};
use crate::strings::{copy_strings, strs};
use crate::task::Task;

verus! {

/// `a` comes no later than `b` in the order of their characters.
pub open spec fn lex_le(a: Seq<char>, b: Seq<char>) -> bool
    decreases a.len(),
{
    if a.len() == 0 {
        true
    } else if b.len() == 0 {
        false
    } else if a[0] != b[0] {
        (a[0] as u32) < (b[0] as u32)
    } else {
        lex_le(a.drop_first(), b.drop_first())
    }
}

pub open spec fn sorted(s: Seq<Seq<char>>) -> bool {
    forall|i: int, j: int| 0 <= i < j < s.len() ==> lex_le(s[i], s[j])
}

/// Relies on `slice::sort`: a stable sort by `Ord`, which orders strings by
/// their bytes, the order of their characters, and keeps every element.
#[verifier::external_body]
fn sort_strings(v: &mut Vec<String>)
    ensures
        sorted(strs(final(v)@)),
        strs(final(v)@).to_multiset() == strs(old(v)@).to_multiset(),
{
    v.sort();
}

/// `s` with each backslash turned into a slash.
pub open spec fn normalized(s: Seq<char>) -> Seq<char> {
    s.map_values(|c: char| if c == '\\' { '/' } else { c })
}

/// The absolute root of a project: its source path, normalized, under the workspace root.
pub open spec fn root_of(workspace_root: Seq<char>, source: Seq<char>) -> Seq<char> {
    workspace_root + seq!['/'] + normalized(source)
}

/// `file` is `root` itself or lies below it.
pub open spec fn path_under(file: Seq<char>, root: Seq<char>) -> bool {
    file == root || (root.len() < file.len() && file.take(root.len() as int) == root
        && file[root.len() as int] == '/')
}

/// Turns every backslash of a path into a slash.
pub fn normalize_separators(s: &String) -> (r: String)
    ensures
        r@ == normalized(s@),
{
    proof {
        reveal_strlit("/");
        reveal_strlit("");
    }
    let t = s.as_str();
    let n = t.unicode_len();
    let mut out = String::from_str("");
    let mut start: usize = 0;
    let mut i: usize = 0;
    while i < n
        invariant
            n == s@.len(),
            t@ == s@,
            start <= i <= n,
            out@ == normalized(s@.take(start as int)),
            forall|j: int| start <= j < i ==> s@[j] != '\\',
        decreases n - i,
    {
        let c = t.get_char(i);
        if c == '\\' {
            let part = t.substring_char(start, i);
            let ghost before = out@;
            let slash = "/";
            proof {
                reveal_strlit("/");
            }
            assert(slash@ == seq!['/']);
            out = out.concat(part).concat(slash);
            assert(out@ == before + part@ + seq!['/']);
            assert(normalized(s@.take(i + 1)) =~= normalized(s@.take(start as int)) + s@.subrange(start as int, i as int) + seq!['/']);
            start = i + 1;
        }
        i += 1;
    }
    let part = t.substring_char(start, n);
    out = out.concat(part);
    assert(normalized(s@) =~= normalized(s@.take(start as int)) + s@.subrange(start as int, n as int));
    out
}

/// The root of a project under the workspace root.
pub fn project_root(workspace_root: &String, source: &String) -> (r: String)
    ensures
        r@ == root_of(workspace_root@, source@),
{
    proof {
        reveal_strlit("/");
    }
    let norm = normalize_separators(source);
    let r = workspace_root.clone().concat("/").concat(norm.as_str());
    assert(r@ =~= root_of(workspace_root@, source@));
    r
}

/// Whether `file` is `root` or lies below it.
pub fn is_under(file: &String, root: &String) -> (r: bool)
    ensures
        r == path_under(file@, root@),
{
    let f = file.as_str();
    let d = root.as_str();
    let fl = f.unicode_len();
    let dl = d.unicode_len();
    if fl < dl {
        return false;
    }
    let mut i: usize = 0;
    while i < dl
        invariant
            fl == file@.len(),
            dl == root@.len(),
            f@ == file@,
            d@ == root@,
            dl <= fl,
            i <= dl,
            forall|j: int| 0 <= j < i ==> file@[j] == root@[j],
        decreases dl - i,
    {
        if f.get_char(i) != d.get_char(i) {
            return false;
        }
        i += 1;
    }
    assert(file@.take(dl as int) =~= root@);
    if fl == dl {
        assert(file@ =~= root@);
        return true;
    }
    f.get_char(dl) == '/'
}

pub struct Project {
    /// The project's own configuration, where it has one.
    pub config: Option<ProjectConfig>,
    /// Every global file group, extended by the project's own.
    pub file_groups: Vec<FileGroup>,
    /// Unique id of the project in the workspace.
    pub id: String,
    /// Absolute path of the project's root.
    pub root: String,
    /// Path of the project relative to the workspace root.
    pub source: String,
    /// The project's tasks, inherited and its own, expanded.
    pub tasks: Vec<Task>,
}

/// Why constructing a project whose root exists may fail with `e`.
pub open spec fn construct_error(config: Option<ProjectConfig>, global_config: GlobalProjectConfig, id: Seq<char>, e: ProjectError) -> bool {
    exists|groups: Seq<FileGroup>| #[trigger] file_groups_post(config, global_config.file_groups@, groups)
        && tasks_error(config, global_config.tasks@, id, groups, e)
}

impl Project {
    /// Resolves a project from the workspace defaults and its own optional
    /// configuration. `root_exists` tells whether the project's root, as
    /// `project_root` gives it, exists; without it nothing else is done.
    pub fn new(
        id: &String,
        source: &String,
        workspace_root: &String,
        root_exists: bool,
        config: Option<ProjectConfig>,
        global_config: &GlobalProjectConfig,
    ) -> (r: Result<Project, ProjectError>)
        requires
            global_config.wf(),
            config_wf(config),
        ensures
            !root_exists ==> r == Err::<Project, ProjectError>(ProjectError::MissingProject(*source)),
            root_exists ==> match r {
                Ok(p) => {
                    &&& p.id@ == id@
                    &&& p.source@ == source@
                    &&& p.root@ == root_of(workspace_root@, source@)
                    &&& p.config == config
                    &&& file_groups_post(config, global_config.file_groups@, p.file_groups@)
                    &&& resolves_to(config, global_config.tasks@, id@, p.file_groups@, p.tasks@)
                },
                Err(e) => construct_error(config, *global_config, id@, e),
            },
    {
        if !root_exists {
            return Err(ProjectError::MissingProject(source.clone()));
        }
        let root = project_root(workspace_root, source);
        let file_groups = create_file_groups_from_config(&config, global_config);
        let tasks = match create_tasks_from_config(&config, global_config, id, &file_groups) {
            Ok(tasks) => tasks,
            Err(e) => {
                assert(file_groups_post(config, global_config.file_groups@, file_groups@));
                return Err(e);
            },
        };
        Ok(Project { config, file_groups, id: id.clone(), root, source: source.clone(), tasks })
    }

    /// The ids of the projects this one depends on, sorted.
    pub fn get_dependencies(&self) -> (r: Vec<String>)
        ensures
            sorted(strs(r@)),
            strs(r@).to_multiset() == match self.config {
                Some(c) => strs(c.depends_on@),
                None => Seq::empty(),
            }.to_multiset(),
    {
        let mut depends_on: Vec<String> = match &self.config {
            Some(c) => copy_strings(&c.depends_on),
            None => Vec::new(),
        };
        assert(strs(depends_on@) =~= match self.config {
            Some(c) => strs(c.depends_on@),
            None => Seq::empty(),
        });
        sort_strings(&mut depends_on);
        depends_on
    }

    /// The task of the given id.
    pub fn get_task(&self, task_id: &String) -> (r: Result<&Task, ProjectError>)
        ensures
            match r {
                Ok(t) => exists|i: int| 0 <= i < self.tasks.len() && self.tasks@[i] == *t && t.id@ == task_id@,
                Err(e) => (forall|i: int| 0 <= i < self.tasks.len() ==> (#[trigger] self.tasks@[i]).id@ != task_id@)
                    && e == ProjectError::UnconfiguredTask(*task_id, self.id),
            },
    {
        let mut i: usize = 0;
        while i < self.tasks.len()
            invariant
                i <= self.tasks.len(),
                forall|j: int| 0 <= j < i ==> (#[trigger] self.tasks@[j]).id@ != task_id@,
            decreases self.tasks.len() - i,
        {
            if self.tasks[i].id == *task_id {
                return Ok(&self.tasks[i]);
            }
            i += 1;
        }
        Err(ProjectError::UnconfiguredTask(task_id.clone(), self.id.clone()))
    }

    /// Whether any of the touched files lies in the project.
    pub fn is_affected(&self, touched_files: &Vec<String>) -> (r: bool)
        ensures
            r == exists|i: int| 0 <= i < touched_files.len() && path_under(#[trigger] touched_files@[i]@, self.root@),
    {
        let mut i: usize = 0;
        while i < touched_files.len()
            invariant
                i <= touched_files.len(),
                forall|j: int| 0 <= j < i ==> !path_under(#[trigger] touched_files@[j]@, self.root@),
            decreases touched_files.len() - i,
        {
            if is_under(&touched_files[i], &self.root) {
                return true;
            }
            i += 1;
        }
        false
    }
}

} // verus!
