//! Target identifiers: a project id and a task id joined by a colon.
use vstd::prelude::*;
use crate::errors::ProjectError;

verus! {

/// Characters allowed in a project or task id.
pub open spec fn id_char(c: char) -> bool {
    ('a' <= c && c <= 'z') || ('A' <= c && c <= 'Z') || ('0' <= c && c <= '9')
        || c == '-' || c == '_' || c == '/' || c == '.'
}

pub open spec fn valid_id(s: Seq<char>) -> bool {
    s.len() > 0 && forall|i: int| 0 <= i < s.len() ==> id_char(#[trigger] s[i])
}

pub open spec fn target_of(project_id: Seq<char>, task_id: Seq<char>) -> Seq<char> {
    project_id + seq![':'] + task_id
}

pub open spec fn valid_target(project_id: Seq<char>, task_id: Seq<char>) -> bool {
    valid_id(project_id) && valid_id(task_id)
}

pub fn is_valid_id(s: &String) -> (r: bool)
    ensures
        r == valid_id(s@),
{
    let t = s.as_str();
    let n = t.unicode_len();
    if n == 0 {
        return false;
    }
    let mut i: usize = 0;
    while i < n
        invariant
            n == s@.len(),
            t@ == s@,
            i <= n,
            forall|j: int| 0 <= j < i ==> id_char(#[trigger] s@[j]),
        decreases n - i,
    {
        let c = t.get_char(i);
        if !(('a' <= c && c <= 'z') || ('A' <= c && c <= 'Z') || ('0' <= c && c <= '9')
            || c == '-' || c == '_' || c == '/' || c == '.') {
            return false;
        }
        i += 1;
    }
    true
}

/// The target of a task of a project, or an error where either id is malformed.
pub fn format_target(project_id: &String, task_id: &String) -> (r: Result<String, ProjectError>)
    ensures
        match r {
            Ok(t) => valid_target(project_id@, task_id@) && t@ == target_of(project_id@, task_id@),
            Err(e) => !valid_target(project_id@, task_id@)
                && e == ProjectError::InvalidTarget(*project_id, *task_id),
        },
{
    if !is_valid_id(project_id) || !is_valid_id(task_id) {
        return Err(ProjectError::InvalidTarget(project_id.clone(), task_id.clone()));
    }
    proof {
        reveal_strlit(":");
    }
    let t = project_id.clone().concat(":").concat(task_id.as_str());
    assert(t@ =~= target_of(project_id@, task_id@));
    Ok(t)
}

} // verus!
