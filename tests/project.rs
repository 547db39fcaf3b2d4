use moon_project::config::{GlobalProjectConfig, InheritedTasksConfig, ProjectConfig, TaskConfig};
use moon_project::errors::{ProjectError, TokenScope};
use moon_project::file_group::{create_file_groups_from_config, FileGroup};
use moon_project::inherit::{create_tasks_from_config, inherit_global_tasks};
use moon_project::project::{normalize_separators, project_root, Project};
use moon_project::task::Task;
use moon_project::token::Token;

fn s(v: &str) -> String {
    v.to_string()
}

fn lit(v: &str) -> Token {
    Token::Literal(s(v))
}

fn task_config(id: &str, command: Option<&str>) -> TaskConfig {
    TaskConfig {
        id: s(id),
        command: command.map(s),
        deps: vec![],
        inputs: vec![],
        outputs: vec![],
        args: vec![],
    }
}

fn group(id: &str, files: &[&str]) -> FileGroup {
    FileGroup { id: s(id), files: files.iter().map(|f| s(f)).collect() }
}

fn global(groups: Vec<FileGroup>, tasks: Vec<TaskConfig>) -> GlobalProjectConfig {
    GlobalProjectConfig { file_groups: groups, tasks }
}

fn local(
    only: Option<Vec<&str>>,
    exclude: Option<Vec<&str>>,
    rename: Vec<(&str, &str)>,
    tasks: Vec<TaskConfig>,
) -> ProjectConfig {
    ProjectConfig {
        depends_on: vec![],
        file_groups: vec![],
        tasks,
        inherited_tasks: InheritedTasksConfig {
            only: only.map(|v| v.into_iter().map(s).collect()),
            exclude: exclude.map(|v| v.into_iter().map(s).collect()),
            rename: rename.into_iter().map(|(a, b)| (s(a), s(b))).collect(),
        },
    }
}

fn sorted_ids(tasks: &[Task]) -> Vec<String> {
    let mut ids: Vec<String> = tasks.iter().map(|t| t.id.clone()).collect();
    ids.sort();
    ids
}

fn basic_project(root: &str) -> Project {
    Project::new(&s("basic"), &s("projects/basic"), &s(root), true, None, &global(vec![], vec![])).unwrap()
}

#[test]
fn returns_true_if_inside_project() {
    let root = "/fixtures";
    let project = basic_project(root);
    let set = vec![format!("{}/{}", root, "projects/basic/file.ts")];
    assert!(project.is_affected(&set));
}

#[test]
fn returns_false_if_outside_project() {
    let root = "/fixtures";
    let project = basic_project(root);
    let set = vec![format!("{}/{}", root, "projects/other/file.ts")];
    assert!(!project.is_affected(&set));
}

#[test]
fn affected_by_touched_file_under_root() {
    let project = basic_project("/ws");
    assert_eq!(project.root, "/ws/projects/basic");
    assert!(project.is_affected(&vec![s("/ws/projects/basic/file.ts")]));
    assert!(!project.is_affected(&vec![s("/ws/projects/other/file.ts")]));
    assert!(!project.is_affected(&vec![s("/ws/projects/basic2/file.ts")]));
    assert!(project.is_affected(&vec![s("/ws/projects/basic")]));
    assert!(!project.is_affected(&vec![]));
}

#[test]
fn missing_root_fails_before_anything_else() {
    let config = local(None, None, vec![], vec![task_config("bad id", None)]);
    let r = Project::new(&s("basic"), &s("projects/missing"), &s("/ws"), false, Some(config), &global(vec![], vec![]));
    assert!(matches!(r, Err(ProjectError::MissingProject(ref p)) if p == "projects/missing"));
}

#[test]
fn root_normalizes_separators() {
    assert_eq!(normalize_separators(&s("a\\b\\c")), "a/b/c");
    assert_eq!(normalize_separators(&s("")), "");
    assert_eq!(project_root(&s("/ws"), &s("projects\\basic")), "/ws/projects/basic");
}

#[test]
fn inherits_every_global_task_by_default() {
    let g = global(vec![], vec![task_config("a", Some("x")), task_config("b", None)]);
    let tasks = inherit_global_tasks(&None, &g, &s("p")).unwrap();
    let ids: Vec<String> = tasks.iter().map(|t| t.id.clone()).collect();
    assert_eq!(ids, vec![s("a"), s("b")]);
    assert_eq!(tasks[0].target, "p:a");
    assert_eq!(tasks[0].command, Some(s("x")));

    let c = local(None, Some(vec![]), vec![], vec![]);
    let tasks = inherit_global_tasks(&Some(c), &g, &s("p")).unwrap();
    assert_eq!(tasks.len(), 2);
}

#[test]
fn empty_selection_inherits_nothing() {
    let g = global(vec![], vec![task_config("a", None), task_config("b", None), task_config("c", None)]);
    let c = local(Some(vec![]), None, vec![], vec![task_config("own", None)]);
    let tasks = create_tasks_from_config(&Some(c), &g, &s("p"), &vec![]).unwrap();
    assert_eq!(sorted_ids(&tasks), vec![s("own")]);
}

#[test]
fn selection_keeps_only_named_tasks() {
    let g = global(vec![], vec![task_config("a", None), task_config("b", None)]);
    let c = local(Some(vec!["b"]), None, vec![], vec![]);
    let tasks = inherit_global_tasks(&Some(c), &g, &s("p")).unwrap();
    assert_eq!(sorted_ids_pending(&tasks), vec![s("b")]);
}

fn sorted_ids_pending(tasks: &[moon_project::task::PendingTask]) -> Vec<String> {
    let mut ids: Vec<String> = tasks.iter().map(|t| t.id.clone()).collect();
    ids.sort();
    ids
}

#[test]
fn exclude_of_source_id_wins_over_rename() {
    let g = global(vec![], vec![task_config("a", None), task_config("b", None)]);
    let c = local(None, Some(vec!["a"]), vec![("a", "c")], vec![]);
    let tasks = inherit_global_tasks(&Some(c), &g, &s("p")).unwrap();
    assert_eq!(sorted_ids_pending(&tasks), vec![s("b")]);
}

#[test]
fn exclude_of_renamed_id_does_not_match() {
    let g = global(vec![], vec![task_config("a", None), task_config("b", None)]);
    let c = local(None, Some(vec!["c"]), vec![("a", "c")], vec![]);
    let tasks = inherit_global_tasks(&Some(c), &g, &s("p")).unwrap();
    assert_eq!(sorted_ids_pending(&tasks), vec![s("b"), s("c")]);
    let renamed = tasks.iter().find(|t| t.id == "c").unwrap();
    assert_eq!(renamed.target, "p:c");
}

#[test]
fn colliding_renames_keep_the_later_task() {
    let g = global(vec![], vec![task_config("a", Some("first")), task_config("b", Some("second"))]);
    let c = local(None, None, vec![("a", "x"), ("b", "x")], vec![]);
    let tasks = inherit_global_tasks(&Some(c), &g, &s("p")).unwrap();
    assert_eq!(tasks.len(), 1);
    assert_eq!(tasks[0].id, "x");
    assert_eq!(tasks[0].command, Some(s("second")));
}

#[test]
fn local_task_merges_into_inherited_one() {
    let mut gb = task_config("build", Some("tsc"));
    gb.args = vec![lit("--build")];
    let g = global(vec![], vec![gb]);
    let mut lb = task_config("build", Some("tsc-local"));
    lb.args = vec![lit("--watch")];
    let c = local(None, None, vec![], vec![lb]);
    let tasks = create_tasks_from_config(&Some(c), &g, &s("web"), &vec![]).unwrap();
    assert_eq!(tasks.len(), 1);
    assert_eq!(tasks[0].id, "build");
    assert_eq!(tasks[0].target, "web:build");
    assert_eq!(tasks[0].command, Some(s("tsc-local")));
    assert_eq!(tasks[0].args, vec![s("--build"), s("--watch")]);
}

#[test]
fn local_task_without_command_keeps_inherited_command() {
    let g = global(vec![], vec![task_config("build", Some("tsc"))]);
    let c = local(None, None, vec![], vec![task_config("build", None)]);
    let tasks = create_tasks_from_config(&Some(c), &g, &s("web"), &vec![]).unwrap();
    assert_eq!(tasks[0].command, Some(s("tsc")));
}

#[test]
fn local_task_merges_into_renamed_task() {
    let g = global(vec![], vec![task_config("a", Some("x"))]);
    let c = local(None, None, vec![("a", "c")], vec![task_config("c", Some("y"))]);
    let tasks = create_tasks_from_config(&Some(c), &g, &s("p"), &vec![]).unwrap();
    assert_eq!(tasks.len(), 1);
    assert_eq!(tasks[0].id, "c");
    assert_eq!(tasks[0].command, Some(s("y")));
}

#[test]
fn arguments_see_expanded_outputs() {
    let groups = vec![group("dist", &["dist/**"]), group("sources", &["src/**"])];
    let mut t = task_config("build", None);
    t.inputs = vec![Token::FileGroup(s("sources")), lit("package.json")];
    t.outputs = vec![Token::FileGroup(s("dist"))];
    t.args = vec![lit("--out"), Token::Output(0), Token::Input(1)];
    let g = global(vec![], vec![t]);
    let tasks = create_tasks_from_config(&None, &g, &s("p"), &groups).unwrap();
    assert_eq!(tasks[0].inputs, vec![s("src/**"), s("package.json")]);
    assert_eq!(tasks[0].outputs, vec![s("dist/**")]);
    assert_eq!(tasks[0].args, vec![s("--out"), s("dist/**"), s("package.json")]);
}

#[test]
fn output_reference_out_of_range_fails_in_arguments() {
    let mut t = task_config("build", None);
    t.args = vec![Token::Output(0)];
    let g = global(vec![], vec![t]);
    let r = create_tasks_from_config(&None, &g, &s("p"), &vec![]);
    assert!(matches!(r, Err(ProjectError::InvalidToken(ref target, TokenScope::Args)) if target == "p:build"));
}

#[test]
fn input_reference_outside_arguments_fails() {
    let mut t = task_config("build", None);
    t.outputs = vec![Token::Input(0)];
    t.inputs = vec![lit("a")];
    let g = global(vec![], vec![t]);
    let r = create_tasks_from_config(&None, &g, &s("p"), &vec![]);
    assert!(matches!(r, Err(ProjectError::InvalidToken(_, TokenScope::Outputs))));
}

#[test]
fn unknown_file_group_fails_in_inputs() {
    let mut t = task_config("build", None);
    t.inputs = vec![Token::FileGroup(s("nope"))];
    let g = global(vec![], vec![t]);
    let r = create_tasks_from_config(&None, &g, &s("p"), &vec![]);
    assert!(matches!(r, Err(ProjectError::InvalidToken(_, TokenScope::Inputs))));
}

#[test]
fn file_group_in_dependencies_fails() {
    let mut t = task_config("build", None);
    t.deps = vec![Token::FileGroup(s("sources"))];
    let g = global(vec![], vec![t]);
    let groups = vec![group("sources", &["src/**"])];
    let r = create_tasks_from_config(&None, &g, &s("p"), &groups);
    assert!(matches!(r, Err(ProjectError::InvalidToken(_, TokenScope::Deps))));
}

#[test]
fn dependencies_expand_to_targets() {
    let mut t = task_config("build", None);
    t.deps = vec![Token::OwnTask(s("codegen")), Token::DependencyTask(s("build")), lit("x:y")];
    let g = global(vec![], vec![t]);
    let mut c = local(None, None, vec![], vec![]);
    c.depends_on = vec![s("lib-b"), s("lib-a")];
    let tasks = create_tasks_from_config(&Some(c), &g, &s("app"), &vec![]).unwrap();
    assert_eq!(tasks[0].deps, vec![s("app:codegen"), s("lib-b:build"), s("lib-a:build"), s("x:y")]);
}

#[test]
fn invalid_task_id_fails_target_format() {
    let g = global(vec![], vec![task_config("bad id", None)]);
    let r = create_tasks_from_config(&None, &g, &s("p"), &vec![]);
    assert!(matches!(r, Err(ProjectError::InvalidTarget(ref p, ref t)) if p == "p" && t == "bad id"));

    let c = local(None, None, vec![], vec![task_config("", None)]);
    let r = create_tasks_from_config(&Some(c), &global(vec![], vec![]), &s("p"), &vec![]);
    assert!(matches!(r, Err(ProjectError::InvalidTarget(_, _))));
}

#[test]
fn file_group_merge_is_additive() {
    let g = global(vec![group("sources", &["src/**"]), group("configs", &["*.json"])], vec![]);
    let mut c = local(None, None, vec![], vec![]);
    c.file_groups = vec![group("sources", &["test/**"]), group("docs", &["docs/**"])];
    let c = Some(c);
    let groups = create_file_groups_from_config(&c, &g);
    let ids: Vec<String> = groups.iter().map(|g| g.id.clone()).collect();
    assert_eq!(ids, vec![s("sources"), s("configs"), s("docs")]);
    assert_eq!(groups[0].files, vec![s("src/**"), s("test/**")]);
    assert_eq!(groups[1].files, vec![s("*.json")]);
    assert_eq!(groups[2].files, vec![s("docs/**")]);
    let again = create_file_groups_from_config(&c, &g);
    assert_eq!(again[0].files, groups[0].files);
}

#[test]
fn dependencies_are_sorted() {
    let mut c = local(None, None, vec![], vec![]);
    c.depends_on = vec![s("zeta"), s("alpha"), s("mid"), s("alpha")];
    let project = Project::new(&s("p"), &s("p"), &s("/ws"), true, Some(c), &global(vec![], vec![])).unwrap();
    assert_eq!(project.get_dependencies(), vec![s("alpha"), s("alpha"), s("mid"), s("zeta")]);
    assert!(basic_project("/ws").get_dependencies().is_empty());
}

#[test]
fn get_task_finds_or_reports() {
    let g = global(vec![], vec![task_config("build", Some("tsc"))]);
    let project = Project::new(&s("web"), &s("web"), &s("/ws"), true, None, &g).unwrap();
    assert_eq!(project.get_task(&s("build")).unwrap().target, "web:build");
    let r = project.get_task(&s("test"));
    assert!(matches!(r, Err(ProjectError::UnconfiguredTask(ref t, ref p)) if t == "test" && p == "web"));
}

#[test]
fn dependencies_ignore_declaration_order() {
    let make = |deps: Vec<&str>| {
        let mut c = local(None, None, vec![], vec![]);
        c.depends_on = deps.into_iter().map(s).collect();
        Project::new(&s("p"), &s("p"), &s("/ws"), true, Some(c), &global(vec![], vec![])).unwrap()
    };
    let a = make(vec!["b", "ab", "a", "B"]);
    let b = make(vec!["a", "B", "b", "ab"]);
    assert_eq!(a.get_dependencies(), b.get_dependencies());
    assert_eq!(a.get_dependencies(), vec![s("B"), s("a"), s("ab"), s("b")]);
}
