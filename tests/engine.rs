use playbook::builtins::{self, Builtin, ExitCode, TransientContext, VarsFailure};
use playbook::docker::{self, HostFacts};
use playbook::fork::{self, ChildOutcome, SlotPool};
use playbook::guest::{self, GuestLanguage};
use playbook::resolver::{self, SourceFile};
use playbook::runner::{self, Closure, LoopStep, StepAction};
use playbook::systems::{self, SupportedInfrastructure, TaskErrorSource};
use playbook::{format_cmd, Context, CtxObj};

fn s(x: &str) -> CtxObj {
    CtxObj::Str(String::from(x))
}

fn strings(v: &[&str]) -> Vec<String> {
    v.iter().map(|x| String::from(*x)).collect()
}

fn diverging(t: &TransientContext) -> Option<ExitCode> {
    match t {
        TransientContext::Diverging(c) => Some(*c),
        _ => None,
    }
}

#[test]
fn exit_code_table() {
    assert_eq!(ExitCode::Success.code(), 0);
    assert_eq!(ExitCode::ErrSys.code(), 1);
    assert_eq!(ExitCode::ErrApp.code(), 2);
    assert_eq!(ExitCode::ErrYML.code(), 3);
    assert_eq!(ExitCode::ErrTask.code(), 4);
    assert_eq!(ExitCode::Any(42).code(), 42);
}

#[test]
fn builtin_resolver_knows_exactly_the_builtin_set() {
    let names = [
        ("sys_exit", Some(Builtin::Exit)),
        ("sys_shell", Some(Builtin::Shell)),
        ("sys_vars", Some(Builtin::Vars)),
        ("sys_fork", Some(Builtin::Fork)),
        ("sys_ctxdump", Some(Builtin::CtxDump)),
        ("say_hi", None),
        ("sys_exit ", None),
        ("", None),
    ];
    for (name, expected) in names.iter() {
        let step = Context::new().set("action", s(name));
        let (action, found) = builtins::resolve(&step);
        assert_eq!(action, Some(String::from(*name)));
        assert_eq!(found, *expected);
    }
    let (action, found) = builtins::resolve(&Context::new().set("action", CtxObj::Int(1)));
    assert_eq!(action, None);
    assert_eq!(found, None);
}

#[test]
fn exit_builtin_codes() {
    let t = builtins::exit(Context::new().set("exit_code", CtxObj::Int(7)));
    assert_eq!(diverging(&t), Some(ExitCode::Any(7)));
    let t = builtins::exit(Context::new());
    assert_eq!(diverging(&t), Some(ExitCode::Any(0)));
    let t = builtins::exit(Context::new().set("exit_code", s("3")));
    assert_eq!(diverging(&t), Some(ExitCode::Any(0)));
}

#[test]
fn format_cmd_quotes_spaces() {
    assert_eq!(format_cmd(&strings(&["echo", "hello world", "x"])), "echo \"hello world\" x");
    assert_eq!(format_cmd(&strings(&[])), "");
    assert_eq!(format_cmd(&strings(&["one"])), "one");
}

#[test]
fn shell_requests() {
    let docker = Context::new().set("image", s("img")).set("impersonate", s("dynamic"));
    let ctx = Context::new()
        .set("docker", CtxObj::Context(docker.duplicate()))
        .set("bash", CtxObj::Array(vec![s("echo"), s("hi there"), CtxObj::Int(3)]));
    let req = builtins::shell(&ctx).ok().unwrap();
    assert_eq!(req.argv, strings(&["bash", "-c", "echo \"hi there\" "]));
    assert_eq!(req.spec, Context::new().set("image", s("img")));
    let plain = Context::new().set("docker", CtxObj::Context(docker));
    let req = builtins::shell(&plain).ok().unwrap();
    assert_eq!(req.argv, strings(&["bash"]));
    assert_eq!(req.spec.get("interactive"), Some(&CtxObj::Bool(true)));
    assert_eq!(req.spec.get("impersonate"), None);
    assert_eq!(builtins::shell(&Context::new()).err(), Some(ExitCode::ErrYML));
    assert_eq!(diverging(&builtins::shell_outcome::<()>(&Ok(String::new()))), Some(ExitCode::Success));
    assert_eq!(diverging(&builtins::shell_outcome(&Err(()))), Some(ExitCode::ErrYML));
}

#[test]
fn vars_requests_and_outcomes() {
    let ctx = Context::new().set("states", CtxObj::Context(Context::new().set("from", s("another.yml"))));
    assert_eq!(builtins::vars(&ctx), Some(String::from("another.yml")));
    assert_eq!(builtins::vars(&Context::new()), None);
    let loaded = Context::new().set("message", s("Salut!"));
    match builtins::vars_outcome(Ok(loaded.duplicate())) {
        TransientContext::Stateful(c) => assert_eq!(c, loaded),
        _ => panic!("expected state"),
    }
    assert_eq!(diverging(&builtins::vars_outcome(Err(VarsFailure::Read))), Some(ExitCode::ErrSys));
    assert_eq!(diverging(&builtins::vars_outcome(Err(VarsFailure::Parse))), Some(ExitCode::ErrYML));
}

#[test]
fn ctxdump_names_are_uuids_of_the_text() {
    let a = builtins::ctxdump_file_name("a: 1\n");
    let b = builtins::ctxdump_file_name("a: 2\n");
    assert!(a.starts_with("ctxdump-"));
    assert!(a.ends_with(".yml"));
    assert_eq!(a.len(), "ctxdump-".len() + 36 + ".yml".len());
    assert_ne!(a, b);
    assert_eq!(a, builtins::ctxdump_file_name("a: 1\n"));
    assert_ne!(a, "ctxdump-a: 1\n.yml");
    assert_eq!(
        builtins::ctxdump_file_name("http://www.example.com/"),
        "ctxdump-fcde3c85-2270-590f-9e7c-ee003d65e0e2.yml"
    );
}

fn grid() -> Vec<Context> {
    vec![
        Context::new().set("a", CtxObj::Array((1..=5).map(CtxObj::Int).collect())),
        Context::new().set("b", CtxObj::Array(vec![CtxObj::Int(10), CtxObj::Int(20), CtxObj::Int(30)])),
    ]
}

#[test]
fn fork_cartesian() {
    let space = fork::param_space(&grid());
    assert_eq!(space.len(), 15);
    assert_eq!(space[0], Context::new().set("a", CtxObj::Int(1)).set("b", CtxObj::Int(10)));
    assert_eq!(space[1], Context::new().set("a", CtxObj::Int(1)).set("b", CtxObj::Int(20)));
    assert_eq!(space[14], Context::new().set("a", CtxObj::Int(5)).set("b", CtxObj::Int(30)));
    let mut uuids: Vec<String> = Vec::new();
    for combo in space.iter() {
        let printed = format!("a: {:?}\nb: {:?}\n", combo.get("a"), combo.get("b"));
        let child = fork::fork_child(combo, &printed);
        assert_eq!(child.get("_exit"), Some(&CtxObj::Bool(true)));
        match child.get("fork_uuid") {
            Some(CtxObj::Str(u)) => uuids.push(u.clone()),
            _ => panic!("no fork_uuid"),
        }
    }
    uuids.sort();
    uuids.dedup();
    assert_eq!(uuids.len(), 15);
}

#[test]
fn fork_cardinality_edges() {
    assert_eq!(fork::param_space(&vec![]).len(), 1);
    let with_empty = vec![
        Context::new().set("a", CtxObj::Array(vec![CtxObj::Int(1)])),
        Context::new().set("b", CtxObj::Array(vec![])),
    ];
    assert_eq!(fork::param_space(&with_empty).len(), 0);
    let with_noise = vec![
        Context::new().set("a", CtxObj::Array(vec![CtxObj::Int(1), CtxObj::Int(2)])),
        Context::new().set("x", CtxObj::Int(1)).set("y", CtxObj::Int(2)),
        Context::new().set("c", CtxObj::Int(3)),
    ];
    assert_eq!(fork::param_space(&with_noise).len(), 2);
}

#[test]
fn fork_plans() {
    let ctx = Context::new().set("grid", CtxObj::Array(grid().into_iter().map(CtxObj::Context).collect()));
    let plan = fork::fork(&ctx).ok().unwrap();
    assert_eq!(plan.combinations.len(), 15);
    assert!(plan.pool.is_none());
    let pooled = ctx.set(
        "resource",
        CtxObj::Context(Context::new().set("cuda_devices", CtxObj::Array(vec![s("0"), s("1")]))),
    );
    let plan = fork::fork(&pooled).ok().unwrap();
    let pool = plan.pool.unwrap();
    assert_eq!(pool.name, "cuda_devices");
    assert_eq!(pool.items, vec![s("0"), s("1")]);
    let bad = ctx.set("resource", CtxObj::Context(Context::new().set("cuda_devices", s("0"))));
    assert_eq!(fork::fork(&bad).err(), Some(ExitCode::ErrYML));
    assert_eq!(fork::fork(&Context::new()).err(), Some(ExitCode::ErrYML));
}

#[test]
fn fork_exit_aggregation() {
    let ok = vec![ChildOutcome::Exited(0), ChildOutcome::Exited(0)];
    assert_eq!(diverging(&fork::fork_outcome(false, &ok)), Some(ExitCode::Success));
    assert_eq!(diverging(&fork::fork_outcome(false, &vec![])), Some(ExitCode::Success));
    let failed = vec![ChildOutcome::Exited(0), ChildOutcome::Exited(2)];
    assert_eq!(diverging(&fork::fork_outcome(false, &failed)), Some(ExitCode::ErrTask));
    let signaled = vec![ChildOutcome::Signaled, ChildOutcome::Exited(0)];
    assert_eq!(diverging(&fork::fork_outcome(false, &signaled)), Some(ExitCode::ErrTask));
    let lost = vec![ChildOutcome::Exited(1), ChildOutcome::Lost];
    assert_eq!(diverging(&fork::fork_outcome(false, &lost)), Some(ExitCode::ErrSys));
    assert_eq!(diverging(&fork::fork_outcome(true, &ok)), Some(ExitCode::ErrSys));
}

#[test]
fn slot_pool_recycles() {
    let mut pool = SlotPool::new(2);
    let a = pool.acquire().unwrap();
    let b = pool.acquire().unwrap();
    assert_ne!(a, b);
    assert!(a < 2 && b < 2);
    assert_eq!(pool.acquire(), None);
    pool.release(a);
    assert_eq!(pool.acquire(), Some(a));
}

fn source(lines: &[&str], path: &str) -> SourceFile {
    SourceFile { path: String::from(path), lines: Some(strings(lines)) }
}

#[test]
fn symbol_markers() {
    let lines = strings(&["#[playbook(say_hi)]", "def say_hi(ctx):", "  #[playbook(indented)]", "#[playbook(two)] # x"]);
    assert_eq!(resolver::symbols(&lines), strings(&["say_hi", "two"]));
    assert_eq!(resolver::symbol_on_line("#[playbook(a b)]"), None);
}

#[test]
fn user_action_resolution() {
    let step = Context::new().set("action", s("say_hi"));
    let whitelist = vec![
        Context::new().set("src", s("a.py")),
        Context::new().set("other", s("b.py")),
        Context::new().set("src", s("c.py")),
        Context::new().set("src", s("d.py")),
    ];
    let files = vec![
        source(&["#[playbook(other)]"], "dir/a.py"),
        source(&["#[playbook(say_hi)]"], "dir/b.py"),
        SourceFile { path: String::from("dir/c.py"), lines: None },
        source(&["x", "#[playbook(say_hi)]"], "dir/d.py"),
    ];
    let (action, found) = resolver::resolve(&step, &whitelist, &files);
    assert_eq!(action, Some(String::from("say_hi")));
    assert_eq!(found, Some(Context::new().set("src", s("dir/d.py"))));
    let (action, found) = resolver::resolve(&step.set("action", s("nobody")), &whitelist, &files);
    assert_eq!(action, Some(String::from("nobody")));
    assert_eq!(found, None);
    let (action, found) = resolver::resolve(&Context::new(), &whitelist, &files);
    assert_eq!((action, found), (None, None));
    assert_eq!(
        resolver::whitelist_sources(&whitelist),
        vec![Some(String::from("a.py")), None, Some(String::from("c.py")), Some(String::from("d.py"))]
    );
}

fn facts(info: bool) -> HostFacts {
    HostFacts {
        id_line: String::from("uid=1000(alice) gid=1000(alice) groups=1000(alice)"),
        user: String::from("alice"),
        info: if info { docker::copy_user_info("alice:x:1000:1001:Alice:/home/alice:/bin/bash") } else { None },
        cwd: String::from("/work"),
        volumes: vec![],
    }
}

#[test]
fn missing_image_is_internal() {
    let e = docker::docker_run_args(&Context::new(), &strings(&["true"]), &facts(true)).err().unwrap();
    assert_eq!(e.src, TaskErrorSource::Internal);
}

#[test]
fn simple_container_run() {
    let spec = Context::new().set("image", s("test-image"));
    let args = docker::docker_run_args(&spec, &strings(&["true"]), &facts(true)).ok().unwrap();
    assert_eq!(
        args,
        strings(&[
            "docker", "run", "--init", "--rm", "-it", "--cap-drop=ALL", "-v", "/work:/home/alice/current-ro:ro", "-w",
            "/home/alice/current-ro", "-u", "1000:1001", "test-image", "true",
        ])
    );
    let e = docker::docker_run_args(&spec, &strings(&["true"]), &facts(false)).err().unwrap();
    assert_eq!(e.src, TaskErrorSource::Internal);
}

#[test]
fn bind_mount_write() {
    let spec = Context::new()
        .set("image", s("test-image"))
        .set("volumes", CtxObj::Array(vec![s("/tmp/x:/scratch:rw"), s("rel:/data"), s("nocolon"), s("gone:/g")]))
        .set("interactive", CtxObj::Bool(false))
        .set("impersonate", s("dynamic"))
        .set("ports", CtxObj::Array(vec![s("80:80")]))
        .set("environment", CtxObj::Array(vec![s("HOME")]))
        .set("name", s("box"))
        .set("runtime", s("nvidia"));
    let hosts = docker::volume_hosts(&spec);
    assert_eq!(hosts, vec![Some(String::from("/tmp/x")), Some(String::from("rel")), None, Some(String::from("gone"))]);
    let mut host = facts(false);
    host.volumes = vec![Some(String::from("/tmp/x")), Some(String::from("/abs/rel")), None, None];
    let cmd = strings(&["bash", "-c", "echo Hello World > /scratch/output.txt"]);
    let args = docker::docker_run_args(&spec, &cmd, &host).ok().unwrap();
    assert_eq!(
        args,
        strings(&[
            "docker", "run", "--init", "--rm", "--cap-drop=ALL", "--runtime=nvidia", "-v",
            "/work:/home/alice/current-ro:ro", "-w", "/home/alice/current-ro", "-v", "/tmp/x:/scratch:rw", "-v",
            "/abs/rel:/data:ro", "-p", "80:80", "-e", "HOME", "--cap-add=SETUID", "--cap-add=SETGID",
            "--cap-add=CHOWN", "-u", "root", "-e", "IMPERSONATE=uid=1000(alice) gid=1000(alice) groups=1000(alice)",
            "--entrypoint", "/usr/bin/playbook", "--name=box", "test-image", "bash", "-c",
            "echo Hello World > /scratch/output.txt",
        ])
    );
}

#[test]
fn user_facts() {
    assert_eq!(docker::identify("uid=1000(alice) gid=1000(alice)").ok(), Some(String::from("alice")));
    assert!(docker::identify("uid=1000 gid=1000").is_err());
    let info = docker::copy_user_info("bob:x:1:2:Bob B:/home/bob:/bin/sh").unwrap();
    assert_eq!((info.uid.as_str(), info.gid.as_str()), ("1", "2"));
    assert_eq!((info.full_name.as_str(), info.home_dir.as_str()), ("Bob B", "/home/bob"));
    assert!(docker::copy_user_info("short:x:1").is_none());
    assert_eq!(docker::split_fields("a::b"), strings(&["a", "", "b"]));
}

#[test]
fn gui_mounts_the_display() {
    let spec = Context::new().set("image", s("i")).set("gui", CtxObj::Bool(true)).set("impersonate", s("carol"));
    let args = docker::docker_run_args(&spec, &strings(&[]), &facts(true)).ok().unwrap();
    let tail: Vec<String> = args[10..].to_vec();
    assert_eq!(
        tail,
        strings(&[
            "--network", "host", "-e", "DISPLAY", "-v", "/tmp/.X11-unix:/tmp/.X11-unix:rw", "-v",
            "/home/alice/.Xauthority:/home/alice/.Xauthority:ro", "-u", "carol", "i",
        ])
    );
}

#[test]
fn context_composition() {
    let global = Context::new().set("g", CtxObj::Int(1)).set("k", CtxObj::Int(1));
    let step = Context::new().set("k", CtxObj::Int(2)).set(
        "docker",
        CtxObj::Context(Context::new().set("image", s("i")).set("vars", CtxObj::Context(Context::new().set("k", CtxObj::Int(9))))),
    );
    let args = Context::new().set("playbook", s("p.yml"));
    let states = Closure::new(0, 0, Context::new().set("st", CtxObj::Bool(true)));
    let c = runner::deduce_context(&step, &global, &args, &states);
    assert_eq!(c.get("k"), Some(&CtxObj::Int(2)));
    assert_eq!(c.get("g"), Some(&CtxObj::Int(1)));
    assert!(c.get("docker").is_some());
    let resumed = runner::deduce_context(&step, &global, &args.set("arg-resume", s("{}")), &states);
    assert_eq!(resumed.get("k"), Some(&CtxObj::Int(9)));
    assert_eq!(resumed.get("docker"), None);
    assert_eq!(resumed.get("st"), Some(&CtxObj::Bool(true)));
}

#[test]
fn steps_and_global() {
    let raw = Context::new()
        .set("steps", CtxObj::Array(vec![CtxObj::Context(Context::new().set("action", s("sys_exit")))]))
        .set("name", s("play"));
    let (steps, global) = runner::get_steps(&raw).ok().unwrap();
    assert_eq!(steps.len(), 1);
    assert_eq!(global, Context::new().set("name", s("play")));
    assert_eq!(runner::get_steps(&Context::new()).err(), Some(ExitCode::ErrYML));
}

#[test]
fn main_loop_folding() {
    let states = Context::new().set("a", CtxObj::Int(1));
    match runner::fold_step(&states, TransientContext::Stateful(Context::new().set("b", CtxObj::Int(2)))) {
        LoopStep::Continue(c) => assert_eq!(c, states.set("b", CtxObj::Int(2))),
        _ => panic!("expected to continue"),
    }
    match runner::fold_step(&states, TransientContext::Stateless(Context::new().set("b", CtxObj::Int(2)))) {
        LoopStep::Continue(c) => assert_eq!(c, states),
        _ => panic!("expected to continue"),
    }
    match runner::fold_step(&states, TransientContext::Diverging(ExitCode::ErrTask)) {
        LoopStep::Stop(r) => assert_eq!(r, Err(ExitCode::ErrTask)),
        _ => panic!("expected to stop"),
    }
    match runner::fold_step(&states, TransientContext::Diverging(ExitCode::Success)) {
        LoopStep::Stop(r) => assert_eq!(r, Ok(())),
        _ => panic!("expected to stop"),
    }
    let child = states.set("_exit", CtxObj::Bool(true));
    assert!(matches!(runner::fold_step(&child, TransientContext::Diverging(ExitCode::ErrTask)), LoopStep::ExitNow));
    assert!(runner::must_exit_now(&child));
    assert!(!runner::must_exit_now(&states));
    assert_eq!(runner::resume_outcome(&TransientContext::Diverging(ExitCode::ErrYML)), Err(ExitCode::ErrYML));
    assert_eq!(runner::resume_outcome(&TransientContext::Stateless(Context::new())), Ok(()));
}

#[test]
fn resume_arguments() {
    assert_eq!(runner::resume_argv("{}", "p.yml", 0), strings(&["--arg-resume", "{}", "p.yml"]));
    assert_eq!(runner::resume_argv("{}", "p.yml", 2), strings(&["--arg-resume", "{}", "p.yml", "-vv"]));
}

fn user_step(with_docker: bool) -> Context {
    let mut step = Context::new()
        .set("action", s("say_hi"))
        .set("playbook", s("tests/p.yml"))
        .set("whitelist", CtxObj::Array(vec![CtxObj::Context(Context::new().set("src", s("a.py")))]));
    if with_docker {
        step = step.set(
            "docker",
            CtxObj::Context(
                Context::new()
                    .set("image", s("img"))
                    .set("vars", CtxObj::Context(Context::new().set("playbook", s("/in/p.yml")))),
            ),
        );
    }
    step
}

#[test]
fn step_runner_paths() {
    let files = vec![source(&["#[playbook(say_hi)]"], "tests/a.py")];
    let host = Closure::new(0, 3, Context::new());
    match runner::run_step(&user_step(true), &host, &files) {
        StepAction::Launch { infrastructure, spec, resume, playbook, verbose } => {
            assert_eq!(infrastructure, SupportedInfrastructure::Docker);
            assert_eq!(spec.get("playbook-from"), Some(&s("tests/p.yml")));
            assert_eq!(resume.container, 1);
            assert_eq!(resume.step_ptr, 3);
            assert_eq!(resume.ctx_states, Context::new().set("playbook", s("/in/p.yml")));
            assert_eq!(playbook, "tests/p.yml");
            assert_eq!(verbose, 0);
        },
        other => panic!("unexpected {:?}", other),
    }
    match runner::run_step(&user_step(false), &host, &files) {
        StepAction::Guest { source, ctx } => {
            assert_eq!(source.get("src"), Some(&s("tests/a.py")));
            assert_eq!(ctx.get("whitelist"), None);
        },
        other => panic!("unexpected {:?}", other),
    }
    let inside = Closure::new(1, 3, Context::new());
    assert!(matches!(runner::run_step(&user_step(true), &inside, &files), StepAction::Guest { .. }));
    let bad_backend = user_step(true).set("as-switch", s("nowhere"));
    match runner::run_step(&bad_backend, &host, &files) {
        StepAction::Finish(t) => assert_eq!(diverging(&t), Some(ExitCode::ErrApp)),
        other => panic!("unexpected {:?}", other),
    }
    match runner::run_step(&Context::new().set("action", s("sys_exit")), &host, &vec![]) {
        StepAction::Builtin { which, .. } => assert_eq!(which, Builtin::Exit),
        other => panic!("unexpected {:?}", other),
    }
    match runner::run_step(&Context::new().set("action", s("unknown")), &host, &vec![]) {
        StepAction::Finish(t) => assert_eq!(diverging(&t), Some(ExitCode::ErrYML)),
        other => panic!("unexpected {:?}", other),
    }
}

#[test]
fn outcomes_of_launches_and_guests() {
    assert_eq!(diverging(&systems::launch_outcome(&Err(systems::TaskError::internal("x")))), Some(ExitCode::ErrTask));
    assert!(matches!(systems::launch_outcome(&Ok(String::new())), TransientContext::Stateless(_)));
    assert_eq!(diverging(&systems::guest_outcome(&Err(systems::TaskError::internal("x")))), Some(ExitCode::ErrTask));
    assert_eq!(systems::abstract_infrastructures("hotwings"), Some(SupportedInfrastructure::Hotwings));
    assert_eq!(systems::abstract_infrastructures("k8s"), None);
}

#[test]
fn guest_languages() {
    assert_eq!(guest::guest_language("dir/hello.py"), Some(GuestLanguage::Python));
    assert_eq!(guest::guest_language("dir.py/hello"), None);
    assert_eq!(guest::guest_language("run.sh"), None);
    assert_eq!(guest::guest_language(".py"), None);
    let src = Context::new().set("sys_path", CtxObj::Array(vec![s("/a"), CtxObj::Int(1), s("/b")]));
    assert_eq!(guest::sys_paths(&src), strings(&["/a", "/b"]));
}

#[test]
fn cluster_job_context() {
    assert_eq!(systems::command_str(&strings(&["main.yml", "-v"])), "['main.yml','-v']");
    assert_eq!(systems::command_str(&strings(&[])), "[]");
    let spec = Context::new().set("runtime", s("nvidia")).set("gpus", CtxObj::Int(2));
    let c = systems::hotwings_context(&spec, "hotwings", "task", "nfs", "1Gi");
    assert_eq!(c.get("hotwings_gpus"), Some(&CtxObj::Int(2)));
    assert_eq!(c.get("hotwings_nvidia"), Some(&CtxObj::Bool(true)));
    let plain = systems::hotwings_context(&Context::new(), "hotwings", "task", "nfs", "1Gi");
    assert_eq!(plain.get("hotwings_gpus"), Some(&CtxObj::Int(0)));
    assert_eq!(plain.get("hotwings_task_id"), Some(&s("task")));
}
