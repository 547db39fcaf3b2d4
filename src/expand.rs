//! Expansion of the tokens of a task, list by list: dependencies, inputs,
//! outputs, then arguments, which may name the expanded inputs and outputs.
use vstd::prelude::*;
use crate::errors::{ProjectError, TokenScope};
use crate::file_group::{FileGroup, files_in, find_group, group_ids_unique, has_group, lemma_files_in_at};
use crate::strings::{copy_strings, strs};
use crate::target::target_of;
use crate::task::{PendingTask, Task};
use crate::token::Token;

verus! {

/// What a project's tokens are expanded against.
pub struct ExpandContext<'a> {
    pub file_groups: &'a Vec<FileGroup>,
    pub project_id: &'a String,
    pub depends_on: &'a Vec<String>,
}

/// The targets of task `name` in each of the projects `deps`.
pub open spec fn dep_targets(deps: Seq<Seq<char>>, name: Seq<char>) -> Seq<Seq<char>> {
    deps.map_values(|d: Seq<char>| target_of(d, name))
}

/// The values one token stands for in list `scope`, or `None` where the token
/// has no meaning there. `inputs` and `outputs` are the task's expanded lists.
pub open spec fn expand_token(
    scope: TokenScope,
    t: Token,
    groups: Seq<FileGroup>,
    project_id: Seq<char>,
    deps: Seq<Seq<char>>,
    inputs: Seq<Seq<char>>,
    outputs: Seq<Seq<char>>,
) -> Option<Seq<Seq<char>>> {
    match t {
        Token::Literal(s) => Some(seq![s@]),
        Token::FileGroup(name) => if scope != TokenScope::Deps && has_group(groups, name@) {
            Some(files_in(groups, name@))
        } else {
            None
        },
        Token::Input(i) => if scope == TokenScope::Args && i < inputs.len() {
            Some(seq![inputs[i as int]])
        } else {
            None
        },
        Token::Output(i) => if scope == TokenScope::Args && i < outputs.len() {
            Some(seq![outputs[i as int]])
        } else {
            None
        },
        Token::OwnTask(name) => if scope == TokenScope::Deps {
            Some(seq![target_of(project_id, name@)])
        } else {
            None
        },
        Token::DependencyTask(name) => if scope == TokenScope::Deps {
            Some(dep_targets(deps, name@))
        } else {
            None
        },
    }
}

/// The values of a list of tokens, in order, or `None` where one token fails.
pub open spec fn expand_list(
    scope: TokenScope,
    ts: Seq<Token>,
    groups: Seq<FileGroup>,
    project_id: Seq<char>,
    deps: Seq<Seq<char>>,
    inputs: Seq<Seq<char>>,
    outputs: Seq<Seq<char>>,
) -> Option<Seq<Seq<char>>>
    decreases ts.len(),
{
    if ts.len() == 0 {
        Some(Seq::empty())
    } else {
        match (
            expand_list(scope, ts.drop_last(), groups, project_id, deps, inputs, outputs),
            expand_token(scope, ts.last(), groups, project_id, deps, inputs, outputs),
        ) {
            (Some(a), Some(b)) => Some(a + b),
            _ => None,
        }
    }
}

proof fn lemma_prefix_fails(
    scope: TokenScope,
    ts: Seq<Token>,
    n: int,
    groups: Seq<FileGroup>,
    project_id: Seq<char>,
    deps: Seq<Seq<char>>,
    inputs: Seq<Seq<char>>,
    outputs: Seq<Seq<char>>,
)
    requires
        0 <= n <= ts.len(),
        expand_list(scope, ts.take(n), groups, project_id, deps, inputs, outputs) is None,
    ensures
        expand_list(scope, ts, groups, project_id, deps, inputs, outputs) is None,
    decreases ts.len() - n,
{
    if n == ts.len() {
        assert(ts.take(n) =~= ts);
    } else {
        assert(ts.take(n + 1).drop_last() =~= ts.take(n));
        lemma_prefix_fails(scope, ts, n + 1, groups, project_id, deps, inputs, outputs);
    }
}

fn join_target(project_id: &String, name: &String) -> (r: String)
    ensures
        r@ == target_of(project_id@, name@),
{
    proof {
        reveal_strlit(":");
    }
    let t = project_id.clone().concat(":").concat(name.as_str());
    assert(t@ =~= target_of(project_id@, name@));
    t
}

/// The values of one token in list `scope`.
pub fn expand_one(
    scope: TokenScope,
    t: &Token,
    ctx: &ExpandContext,
    inputs: &Vec<String>,
    outputs: &Vec<String>,
) -> (r: Option<Vec<String>>)
    requires
        group_ids_unique(ctx.file_groups@),
    ensures
        match r {
            Some(v) => expand_token(scope, *t, ctx.file_groups@, ctx.project_id@, strs(ctx.depends_on@),
                strs(inputs@), strs(outputs@)) == Some(strs(v@)),
            None => expand_token(scope, *t, ctx.file_groups@, ctx.project_id@, strs(ctx.depends_on@),
                strs(inputs@), strs(outputs@)) is None,
        },
{
    match t {
        Token::Literal(s) => {
            let v = vec![s.clone()];
            assert(strs(v@) =~= seq![s@]);
            Some(v)
        },
        Token::FileGroup(name) => {
            if scope == TokenScope::Deps {
                return None;
            }
            match find_group(ctx.file_groups, name) {
                Some(i) => {
                    proof {
                        lemma_files_in_at(ctx.file_groups@, i as int);
                    }
                    Some(copy_strings(&ctx.file_groups[i].files))
                },
                None => None,
            }
        },
        Token::Input(i) => {
            if scope == TokenScope::Args && *i < inputs.len() {
                let v = vec![inputs[*i].clone()];
                assert(strs(v@) =~= seq![strs(inputs@)[*i as int]]);
                Some(v)
            } else {
                None
            }
        },
        Token::Output(i) => {
            if scope == TokenScope::Args && *i < outputs.len() {
                let v = vec![outputs[*i].clone()];
                assert(strs(v@) =~= seq![strs(outputs@)[*i as int]]);
                Some(v)
            } else {
                None
            }
        },
        Token::OwnTask(name) => {
            if scope == TokenScope::Deps {
                let v = vec![join_target(ctx.project_id, name)];
                assert(strs(v@) =~= seq![target_of(ctx.project_id@, name@)]);
                Some(v)
            } else {
                None
            }
        },
        Token::DependencyTask(name) => {
            if scope != TokenScope::Deps {
                return None;
            }
            let deps = ctx.depends_on;
            let mut v: Vec<String> = Vec::new();
            let mut i: usize = 0;
            while i < deps.len()
                invariant
                    i <= deps.len(),
                    strs(v@) =~= dep_targets(strs(deps@), name@).take(i as int),
                decreases deps.len() - i,
            {
                let ghost before = v@;
                v.push(join_target(&deps[i], name));
                assert(strs(deps@)[i as int] == deps@[i as int]@);
                assert(strs(v@) =~= strs(before).push(target_of(deps@[i as int]@, name@)));
                i += 1;
            }
            assert(dep_targets(strs(deps@), name@).take(i as int) =~= dep_targets(strs(deps@), name@));
            Some(v)
        },
    }
}

/// The values of a list of tokens in list `scope`, in order.
pub fn expand_tokens(
    scope: TokenScope,
    ts: &Vec<Token>,
    ctx: &ExpandContext,
    inputs: &Vec<String>,
    outputs: &Vec<String>,
) -> (r: Option<Vec<String>>)
    requires
        group_ids_unique(ctx.file_groups@),
    ensures
        match r {
            Some(v) => expand_list(scope, ts@, ctx.file_groups@, ctx.project_id@, strs(ctx.depends_on@),
                strs(inputs@), strs(outputs@)) == Some(strs(v@)),
            None => expand_list(scope, ts@, ctx.file_groups@, ctx.project_id@, strs(ctx.depends_on@),
                strs(inputs@), strs(outputs@)) is None,
        },
{
    let ghost g = ctx.file_groups@;
    let ghost p = ctx.project_id@;
    let ghost d = strs(ctx.depends_on@);
    let ghost ins = strs(inputs@);
    let ghost outs = strs(outputs@);
    let mut acc: Vec<String> = Vec::new();
    let mut i: usize = 0;
    assert(ts@.take(0) =~= Seq::<Token>::empty());
    assert(strs(acc@) =~= Seq::<Seq<char>>::empty());
    while i < ts.len()
        invariant
            i <= ts.len(),
            group_ids_unique(g),
            g == ctx.file_groups@,
            p == ctx.project_id@,
            d == strs(ctx.depends_on@),
            ins == strs(inputs@),
            outs == strs(outputs@),
            expand_list(scope, ts@.take(i as int), g, p, d, ins, outs) == Some(strs(acc@)),
        decreases ts.len() - i,
    {
        assert(ts@.take(i + 1).drop_last() =~= ts@.take(i as int));
        assert(ts@.take(i + 1).last() == ts@[i as int]);
        match expand_one(scope, &ts[i], ctx, inputs, outputs) {
            Some(v) => {
                let ghost before = acc@;
                let mut w = v;
                acc.append(&mut w);
                assert(strs(acc@) =~= strs(before) + strs(v@));
            },
            None => {
                proof {
                    lemma_prefix_fails(scope, ts@, i + 1, g, p, d, ins, outs);
                }
                return None;
            },
        }
        i += 1;
    }
    assert(ts@.take(i as int) =~= ts@);
    Some(acc)
}

/// `t` is `p` with each list expanded: dependencies, inputs and outputs on
/// their own, then arguments against the expanded inputs and outputs.
pub open spec fn expanded_spec(t: Task, p: PendingTask, groups: Seq<FileGroup>, project_id: Seq<char>, deps: Seq<Seq<char>>) -> bool {
    let none = Seq::<Seq<char>>::empty();
    &&& t.id == p.id
    &&& t.target == p.target
    &&& t.command == p.command
    &&& expand_list(TokenScope::Deps, p.deps@, groups, project_id, deps, none, none) == Some(strs(t.deps@))
    &&& expand_list(TokenScope::Inputs, p.inputs@, groups, project_id, deps, none, none) == Some(strs(t.inputs@))
    &&& expand_list(TokenScope::Outputs, p.outputs@, groups, project_id, deps, none, none) == Some(strs(t.outputs@))
    &&& expand_list(TokenScope::Args, p.args@, groups, project_id, deps, strs(t.inputs@), strs(t.outputs@))
        == Some(strs(t.args@))
}

/// Every list of `p` can be expanded.
pub open spec fn expands(p: PendingTask, groups: Seq<FileGroup>, project_id: Seq<char>, deps: Seq<Seq<char>>) -> bool {
    let none = Seq::<Seq<char>>::empty();
    match (
        expand_list(TokenScope::Deps, p.deps@, groups, project_id, deps, none, none),
        expand_list(TokenScope::Inputs, p.inputs@, groups, project_id, deps, none, none),
        expand_list(TokenScope::Outputs, p.outputs@, groups, project_id, deps, none, none),
    ) {
        (Some(_), Some(i), Some(o)) => expand_list(TokenScope::Args, p.args@, groups, project_id, deps, i, o) is Some,
        _ => false,
    }
}

/// Expands the lists of a task, in the order dependencies, inputs, outputs,
/// arguments. The first list that fails names the error.
pub fn expand_task(t: PendingTask, ctx: &ExpandContext) -> (r: Result<Task, ProjectError>)
    requires
        group_ids_unique(ctx.file_groups@),
    ensures
        match r {
            Ok(x) => expanded_spec(x, t, ctx.file_groups@, ctx.project_id@, strs(ctx.depends_on@)),
            Err(e) => !expands(t, ctx.file_groups@, ctx.project_id@, strs(ctx.depends_on@))
                && e is InvalidToken,
        },
{
    let none: Vec<String> = Vec::new();
    assert(strs(none@) =~= Seq::<Seq<char>>::empty());
    let deps = match expand_tokens(TokenScope::Deps, &t.deps, ctx, &none, &none) {
        Some(v) => v,
        None => {
            return Err(ProjectError::InvalidToken(t.target, TokenScope::Deps));
        },
    };
    let inputs = match expand_tokens(TokenScope::Inputs, &t.inputs, ctx, &none, &none) {
        Some(v) => v,
        None => {
            return Err(ProjectError::InvalidToken(t.target, TokenScope::Inputs));
        },
    };
    let outputs = match expand_tokens(TokenScope::Outputs, &t.outputs, ctx, &none, &none) {
        Some(v) => v,
        None => {
            return Err(ProjectError::InvalidToken(t.target, TokenScope::Outputs));
        },
    };
    let args = match expand_tokens(TokenScope::Args, &t.args, ctx, &inputs, &outputs) {
        Some(v) => v,
        None => {
            return Err(ProjectError::InvalidToken(t.target, TokenScope::Args));
        },
    };
    Ok(Task { id: t.id, target: t.target, command: t.command, deps, inputs, outputs, args })
}

} // verus!
