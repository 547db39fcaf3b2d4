//! Workspace-wide defaults and the optional per-project override.
use vstd::prelude::*;
use crate::file_group::{FileGroup, group_ids_unique};
use crate::token::Token;

verus! {

/// A task as configured, before it belongs to a project.
#[derive(Clone, Debug)]
pub struct TaskConfig {
    pub id: String,
    pub command: Option<String>,
    pub deps: Vec<Token>,
    pub inputs: Vec<Token>,
    pub outputs: Vec<Token>,
    pub args: Vec<Token>,
}

/// Which global tasks a project inherits, and under which ids.
#[derive(Clone, Debug)]
pub struct InheritedTasksConfig {
    /// `None` inherits every task; `Some` only those listed.
    pub only: Option<Vec<String>>,
    /// `None` excludes none.
    pub exclude: Option<Vec<String>>,
    /// Pairs of a global task id and the id it is inherited under.
    pub rename: Vec<(String, String)>,
}

/// The optional configuration file of one project.
#[derive(Clone, Debug)]
pub struct ProjectConfig {
    pub depends_on: Vec<String>,
    pub file_groups: Vec<FileGroup>,
    pub tasks: Vec<TaskConfig>,
    pub inherited_tasks: InheritedTasksConfig,
}

/// The defaults that every project of the workspace starts from.
#[derive(Clone, Debug)]
pub struct GlobalProjectConfig {
    pub file_groups: Vec<FileGroup>,
    pub tasks: Vec<TaskConfig>,
}

pub open spec fn task_ids_unique(ts: Seq<TaskConfig>) -> bool {
    forall|i: int, j: int| 0 <= i < j < ts.len() ==> ts[i].id@ != ts[j].id@
}

pub open spec fn rename_sources_unique(r: Seq<(String, String)>) -> bool {
    forall|i: int, j: int| 0 <= i < j < r.len() ==> r[i].0@ != r[j].0@
}

pub fn task_ids_distinct(ts: &Vec<TaskConfig>) -> (r: bool)
    ensures
        r == task_ids_unique(ts@),
{
    let mut j: usize = 0;
    while j < ts.len()
        invariant
            j <= ts.len(),
            forall|a: int, b: int| 0 <= a < b < j ==> ts@[a].id@ != ts@[b].id@,
        decreases ts.len() - j,
    {
        let mut i: usize = 0;
        while i < j
            invariant
                i <= j < ts.len(),
                forall|a: int| 0 <= a < i ==> ts@[a].id@ != ts@[j as int].id@,
            decreases j - i,
        {
            if ts[i].id == ts[j].id {
                return false;
            }
            i += 1;
        }
        j += 1;
    }
    true
}

pub fn group_ids_distinct(gs: &Vec<FileGroup>) -> (r: bool)
    ensures
        r == group_ids_unique(gs@),
{
    let mut j: usize = 0;
    while j < gs.len()
        invariant
            j <= gs.len(),
            forall|a: int, b: int| 0 <= a < b < j ==> gs@[a].id@ != gs@[b].id@,
        decreases gs.len() - j,
    {
        let mut i: usize = 0;
        while i < j
            invariant
                i <= j < gs.len(),
                forall|a: int| 0 <= a < i ==> gs@[a].id@ != gs@[j as int].id@,
            decreases j - i,
        {
            if gs[i].id == gs[j].id {
                return false;
            }
            i += 1;
        }
        j += 1;
    }
    true
}

pub fn rename_sources_distinct(rs: &Vec<(String, String)>) -> (r: bool)
    ensures
        r == rename_sources_unique(rs@),
{
    let mut j: usize = 0;
    while j < rs.len()
        invariant
            j <= rs.len(),
            forall|a: int, b: int| 0 <= a < b < j ==> rs@[a].0@ != rs@[b].0@,
        decreases rs.len() - j,
    {
        let mut i: usize = 0;
        while i < j
            invariant
                i <= j < rs.len(),
                forall|a: int| 0 <= a < i ==> rs@[a].0@ != rs@[j as int].0@,
            decreases j - i,
        {
            if rs[i].0 == rs[j].0 {
                return false;
            }
            i += 1;
        }
        j += 1;
    }
    true
}

impl GlobalProjectConfig {
    /// Ids are keys: each file group id and each task id occurs once.
    pub open spec fn wf(&self) -> bool {
        &&& group_ids_unique(self.file_groups@)
        &&& task_ids_unique(self.tasks@)
    }

    /// Whether each file group id and each task id occurs once.
    pub fn is_well_formed(&self) -> (r: bool)
        ensures
            r == self.wf(),
    {
        group_ids_distinct(&self.file_groups) && task_ids_distinct(&self.tasks)
    }
}

impl ProjectConfig {
    /// Ids are keys: each file group id, task id and renamed id occurs once.
    pub open spec fn wf(&self) -> bool {
        &&& group_ids_unique(self.file_groups@)
        &&& task_ids_unique(self.tasks@)
        &&& rename_sources_unique(self.inherited_tasks.rename@)
    }

    /// Whether each file group id, task id and renamed id occurs once.
    pub fn is_well_formed(&self) -> (r: bool)
        ensures
            r == self.wf(),
    {
        group_ids_distinct(&self.file_groups) && task_ids_distinct(&self.tasks)
            && rename_sources_distinct(&self.inherited_tasks.rename)
    }
}

pub open spec fn config_wf(c: Option<ProjectConfig>) -> bool {
    match c {
        Some(c) => c.wf(),
        None => true,
    }
}

} // verus!
