use vstd::prelude::*;
use vstd::string::*;
use crate::builtins::{self, Builtin, ExitCode, TransientContext, action_of, builtin_of};
use crate::command::views;
use crate::context::{Context, CtxObj, Value};
use crate::resolver::{self, SourceFile, user_resolution};
use crate::systems::{SupportedInfrastructure, abstract_infrastructures, infrastructure_named};

verus! {

/// The resume token that crosses a container boundary.
#[derive(Debug)]
pub struct Closure {
    /// 0 on the host, 1 inside the container.
    pub container: u8,
    /// The index of the step to run.
    pub step_ptr: usize,
    /// The state folded so far.
    pub ctx_states: Context,
}

impl Closure {
    /// A resume token.
    pub fn new(container: u8, step_ptr: usize, ctx_states: Context) -> (r: Closure)
        ensures
            r.container == container,
            r.step_ptr == step_ptr,
            r.ctx_states@ == ctx_states@,
    {
        Closure { container, step_ptr, ctx_states }
    }
}

/// The bindings of `ctx.docker.vars`, when both are contexts.
pub open spec fn docker_vars_of(ctx: Map<Seq<char>, Value>) -> Option<Map<Seq<char>, Value>> {
    if ctx.contains_key("docker"@) && ctx["docker"@] is Context {
        let d = ctx["docker"@]->Context_0;
        if d.contains_key("vars"@) && d["vars"@] is Context {
            Some(d["vars"@]->Context_0)
        } else {
            None
        }
    } else {
        None
    }
}

/// The effective context of a step: the global context, the step, the
/// arguments and the folded state, later ones winning. While resuming inside a
/// container, `docker.vars` is lifted one level up and `docker` is removed.
pub open spec fn composed(
    global: Map<Seq<char>, Value>,
    step: Map<Seq<char>, Value>,
    args: Map<Seq<char>, Value>,
    states: Map<Seq<char>, Value>,
) -> Map<Seq<char>, Value> {
    let partial = global.union_prefer_right(step).union_prefer_right(args).union_prefer_right(states);
    if args.contains_key("arg-resume"@) {
        match docker_vars_of(partial) {
            Some(vars) => partial.union_prefer_right(vars).remove("docker"@),
            None => partial.remove("docker"@),
        }
    } else {
        partial
    }
}

/// Composes the effective context of a step.
pub fn deduce_context(ctx_step_raw: &Context, ctx_global: &Context, ctx_args: &Context, closure: &Closure) -> (r:
    Context)
    ensures
        r@ == composed(ctx_global@, ctx_step_raw@, ctx_args@, closure.ctx_states@),
{
    let partial = ctx_global.overlay(ctx_step_raw).overlay(ctx_args).overlay(&closure.ctx_states);
    if ctx_args.contains_key("arg-resume") {
        let vars = match partial.subcontext("docker") {
            Some(docker) => docker.subcontext("vars"),
            None => None,
        };
        match vars {
            Some(v) => partial.overlay(&v).without("docker"),
            None => partial.without("docker"),
        }
    } else {
        partial
    }
}

/// Splits a loaded document into its steps and its global context: the
/// document without `steps`. Fails with `ErrYML` unless `steps` is an array of
/// contexts.
pub fn get_steps(raw: &Context) -> (r: Result<(Vec<Context>, Context), ExitCode>)
    ensures
        r matches Ok(p) ==> p.1@ == raw@.remove("steps"@) && raw@.contains_key("steps"@) && raw@["steps"@] is Array && {
            let s = raw@["steps"@]->Array_0;
            &&& p.0@.len() == s.len()
            &&& forall|i: int| 0 <= i < s.len() ==> s[i] == Value::Context((#[trigger] p.0@[i])@)
        },
        r is Err ==> r == Err::<(Vec<Context>, Context), ExitCode>(ExitCode::ErrYML),
        r is Err <==> !(raw@.contains_key("steps"@) && raw@["steps"@] is Array && crate::context::all_contexts(
            raw@["steps"@]->Array_0,
        )),
{
    match raw.list_contexts("steps") {
        Some(steps) => {
            proof {
                let s = raw@["steps"@]->Array_0;
                assert forall|i: int| 0 <= i < s.len() implies (#[trigger] s[i]) is Context by {
                    assert(s[i] == Value::Context(steps@[i]@));
                }
            }
            Ok((steps, raw.without("steps")))
        },
        None => Err(ExitCode::ErrYML),
    }
}

/// Whether the folded state carries the `_exit` marker of a forked child.
pub open spec fn exit_marked(states: Map<Seq<char>, Value>) -> bool {
    states.contains_key("_exit"@) && states["_exit"@] == Value::Bool(true)
}

/// Whether the folded state carries the `_exit` marker of a forked child.
pub fn must_exit_now(ctx_states: &Context) -> (r: bool)
    ensures
        r == exit_marked(ctx_states@),
{
    match ctx_states.get("_exit") {
        Some(CtxObj::Bool(b)) => *b,
        _ => false,
    }
}

/// What the main loop does after a step.
#[derive(Debug)]
pub enum LoopStep {
    /// Go on to the next step with this folded state.
    Continue(Context),
    /// End the run with this result.
    Stop(Result<(), ExitCode>),
    /// End this forked child at once with status 0, running no more cleanup.
    ExitNow,
}

/// Folds the result of a step into the running state. State to keep is
/// overlaid; a diverging step ends the run, with success only for `Success`,
/// except in a forked child, which ends at once.
pub fn fold_step(ctx_states: &Context, result: TransientContext) -> (r: LoopStep)
    ensures
        result matches TransientContext::Stateless(_) ==> r matches LoopStep::Continue(s) && s@ == ctx_states@,
        result matches TransientContext::Stateful(pipe) ==> r matches LoopStep::Continue(s) && s@
            == ctx_states@.union_prefer_right(pipe@),
        result matches TransientContext::Diverging(code) ==> (if exit_marked(ctx_states@) {
            r == LoopStep::ExitNow
        } else if code == ExitCode::Success {
            r == LoopStep::Stop(Ok(()))
        } else {
            r == LoopStep::Stop(Err(code))
        }),
{
    match result {
        TransientContext::Stateless(_) => LoopStep::Continue(ctx_states.duplicate()),
        TransientContext::Stateful(pipe) => LoopStep::Continue(ctx_states.overlay(&pipe)),
        TransientContext::Diverging(code) => {
            if must_exit_now(ctx_states) {
                LoopStep::ExitNow
            } else {
                match code {
                    ExitCode::Success => LoopStep::Stop(Ok(())),
                    _ => LoopStep::Stop(Err(code)),
                }
            }
        },
    }
}

/// The result of the single step run after a resume inside a container.
pub fn resume_outcome(result: &TransientContext) -> (r: Result<(), ExitCode>)
    ensures
        result matches TransientContext::Diverging(code) ==> (if code == ExitCode::Success {
            r is Ok
        } else {
            r == Err::<(), ExitCode>(*code)
        }),
        !(result is Diverging) ==> r is Ok,
{
    match result {
        TransientContext::Diverging(code) => match code {
            ExitCode::Success => Ok(()),
            _ => Err(*code),
        },
        _ => Ok(()),
    }
}

/// The letter `v` repeated `n` times after a dash, as a verbosity flag.
pub open spec fn verbosity_flag(n: nat) -> Seq<char>
    decreases n,
{
    if n == 0 {
        seq!['-']
    } else {
        verbosity_flag((n - 1) as nat).push('v')
    }
}

/// The arguments with which the engine re-enters itself inside a container:
/// the encoded closure, the playbook path, and the verbosity when it is positive.
pub fn resume_argv(encoded: &str, playbook: &str, verbose: i64) -> (r: Vec<String>)
    ensures
        verbose <= 0 ==> views(r@) == seq!["--arg-resume"@, encoded@, playbook@],
        verbose > 0 ==> views(r@) == seq!["--arg-resume"@, encoded@, playbook@, verbosity_flag(verbose as nat)],
{
    let mut argv: Vec<String> = Vec::new();
    argv.push(String::from_str("--arg-resume"));
    argv.push(String::from_str(encoded));
    argv.push(String::from_str(playbook));
    if verbose > 0 {
        let dash = "-";
        let v = "v";
        proof {
            reveal_strlit("-");
            reveal_strlit("v");
        }
        let mut flag = String::from_str(dash);
        let mut k: i64 = 0;
        while k < verbose
            invariant
                0 <= k <= verbose,
                v@ == seq!['v'],
                flag@ == verbosity_flag(k as nat),
            decreases verbose - k,
        {
            flag.append(v);
            k = k + 1;
        }
        argv.push(flag);
        proof {
            assert(views(argv@) =~= seq!["--arg-resume"@, encoded@, playbook@, verbosity_flag(verbose as nat)]);
        }
    } else {
        proof {
            assert(views(argv@) =~= seq!["--arg-resume"@, encoded@, playbook@]);
        }
    }
    argv
}

/// What the engine does to run a step.
#[derive(Debug)]
pub enum StepAction {
    /// Run the user action through the guest adapter, with the resolved
    /// source entry and the step context without its whitelist.
    Guest { source: Context, ctx: Context },
    /// Re-enter the engine inside a container on this backend, with the
    /// container spec, the resume token, the playbook path and the verbosity.
    Launch {
        infrastructure: SupportedInfrastructure,
        spec: Context,
        resume: Closure,
        playbook: String,
        verbose: i64,
    },
    /// Run a built-in on this context.
    Builtin { which: Builtin, ctx: Context },
    /// Nothing to run: the step ends with this result.
    Finish(TransientContext),
}

/// The built-in path of a step: the built-in its action names, run on the step
/// context overlaid with the folded state and without its whitelist; a step
/// whose action names none fails with `ErrYML`.
pub open spec fn builtin_step_ok(step: Map<Seq<char>, Value>, states: Map<Seq<char>, Value>, r: StepAction) -> bool {
    match action_of(step) {
        Some(a) => match builtin_of(a) {
            Some(b) => r matches StepAction::Builtin { which, ctx } && which == b && ctx@ == step.union_prefer_right(
                states,
            ).remove("whitelist"@),
            None => r == StepAction::Finish(TransientContext::Diverging(ExitCode::ErrYML)),
        },
        None => r == StepAction::Finish(TransientContext::Diverging(ExitCode::ErrYML)),
    }
}

/// Runs a step as a built-in.
pub fn try_as_builtin(ctx_step: &Context, closure: &Closure) -> (r: StepAction)
    ensures
        builtin_step_ok(ctx_step@, closure.ctx_states@, r),
{
    match builtins::resolve(ctx_step) {
        (Some(_), Some(which)) => {
            let ctx = ctx_step.overlay(&closure.ctx_states).without("whitelist");
            StepAction::Builtin { which, ctx }
        },
        _ => StepAction::Finish(TransientContext::Diverging(ExitCode::ErrYML)),
    }
}

/// The backend name of a step: its `as-switch` string, else `docker`.
pub open spec fn backend_name(step: Map<Seq<char>, Value>) -> Seq<char> {
    if step.contains_key("as-switch"@) && step["as-switch"@] is Str {
        step["as-switch"@]->Str_0
    } else {
        "docker"@
    }
}

/// The verbosity echoed into a container: the step's `verbose-fern` integer, else 0.
pub open spec fn verbosity_of(step: Map<Seq<char>, Value>) -> i64 {
    if step.contains_key("verbose-fern"@) && step["verbose-fern"@] is Int {
        step["verbose-fern"@]->Int_0
    } else {
        0
    }
}

/// The state carried into a container: the folded state, with `playbook`
/// rebound when the container's `vars` rebinds it.
pub open spec fn carried_states(docker: Map<Seq<char>, Value>, states: Map<Seq<char>, Value>) -> Map<
    Seq<char>,
    Value,
> {
    if docker.contains_key("vars"@) && docker["vars"@] is Context && docker["vars"@]->Context_0.contains_key(
        "playbook"@,
    ) {
        states.insert("playbook"@, docker["vars"@]->Context_0["playbook"@])
    } else {
        states
    }
}

/// The container path of a step on the host: the image must be a string and
/// the playbook path known; the backend must be one of those supported.
pub open spec fn container_step_ok(
    step: Map<Seq<char>, Value>,
    docker: Map<Seq<char>, Value>,
    closure_ptr: usize,
    states: Map<Seq<char>, Value>,
    r: StepAction,
) -> bool {
    if !(docker.contains_key("image"@) && docker["image"@] is Str) {
        r == StepAction::Finish(TransientContext::Diverging(ExitCode::ErrYML))
    } else if !(step.contains_key("playbook"@) && step["playbook"@] is Str) {
        r == StepAction::Finish(TransientContext::Diverging(ExitCode::ErrApp))
    } else {
        match infrastructure_named(backend_name(step)) {
            None => r == StepAction::Finish(TransientContext::Diverging(ExitCode::ErrApp)),
            Some(infra) => r matches StepAction::Launch { infrastructure, spec, resume, playbook, verbose } && {
                &&& infrastructure == infra
                &&& spec@ == docker.insert("playbook-from"@, step["playbook"@])
                &&& resume.container == 1
                &&& resume.step_ptr == closure_ptr
                &&& resume.ctx_states@ == carried_states(docker, states)
                &&& Value::Str(playbook@) == step["playbook"@]
                &&& verbose == verbosity_of(step)
            },
        }
    }
}

/// The path of a step whose action a whitelisted source provides: inside the
/// container, or on the host without a container spec, the guest adapter runs
/// it; on the host with a container spec, the engine re-enters a container.
pub open spec fn user_step_ok(
    step: Map<Seq<char>, Value>,
    source: Map<Seq<char>, Value>,
    container: u8,
    closure_ptr: usize,
    states: Map<Seq<char>, Value>,
    r: StepAction,
) -> bool {
    if container != 1 && step.contains_key("docker"@) && step["docker"@] is Context {
        container_step_ok(step, step["docker"@]->Context_0, closure_ptr, states, r)
    } else {
        r matches StepAction::Guest { source: s, ctx } && s@ == source && ctx@ == step.remove("whitelist"@)
    }
}

/// Plans the container path of a step on the host.
fn plan_container(ctx_step: &Context, docker: &Context, closure: &Closure) -> (r: StepAction)
    ensures
        container_step_ok(ctx_step@, docker@, closure.step_ptr, closure.ctx_states@, r),
{
    match docker.get("image") {
        Some(CtxObj::Str(_)) => {},
        _ => {
            return StepAction::Finish(TransientContext::Diverging(ExitCode::ErrYML));
        },
    }
    let playbook = match ctx_step.get("playbook") {
        Some(CtxObj::Str(p)) => p.clone(),
        _ => {
            return StepAction::Finish(TransientContext::Diverging(ExitCode::ErrApp));
        },
    };
    let name = match ctx_step.get("as-switch") {
        Some(CtxObj::Str(s)) => s.clone(),
        _ => String::from_str("docker"),
    };
    let infrastructure = match abstract_infrastructures(name.as_str()) {
        Some(i) => i,
        None => {
            return StepAction::Finish(TransientContext::Diverging(ExitCode::ErrApp));
        },
    };
    let states = match docker.subcontext("vars") {
        Some(vars) => closure.ctx_states.set_opt("playbook", vars.get_clone("playbook")),
        None => closure.ctx_states.duplicate(),
    };
    let verbose = match ctx_step.unpack_int("verbose-fern") {
        Ok(n) => n,
        Err(e) => {
            proof {
                if e == crate::context::UnpackError::Missing {
                    assert(!ctx_step@.contains_key("verbose-fern"@));
                } else {
                    assert(!(ctx_step@["verbose-fern"@] is Int));
                }
            }
            0
        },
    };
    let spec = docker.set("playbook-from", CtxObj::Str(playbook.clone()));
    let resume = Closure { container: 1, step_ptr: closure.step_ptr, ctx_states: states };
    proof {
        assert(verbose == verbosity_of(ctx_step@));
        assert(resume.ctx_states@ == carried_states(docker@, closure.ctx_states@));
        assert(spec@ == docker@.insert("playbook-from"@, ctx_step@["playbook"@]));
        assert(infrastructure_named(backend_name(ctx_step@)) == Some(infrastructure));
    }
    StepAction::Launch { infrastructure, spec, resume, playbook, verbose }
}

/// What the step runner does with a step: the user path when a whitelisted
/// source provides the action, else the built-in path.
pub open spec fn step_plan_ok(
    step: Map<Seq<char>, Value>,
    container: u8,
    closure_ptr: usize,
    states: Map<Seq<char>, Value>,
    files: Seq<SourceFile>,
    r: StepAction,
) -> bool {
    if step.contains_key("whitelist"@) && step["whitelist"@] is Array && crate::context::all_contexts(
        step["whitelist"@]->Array_0,
    ) {
        let entries = step["whitelist"@]->Array_0;
        match action_of(step) {
            None => r == StepAction::Finish(TransientContext::Diverging(ExitCode::ErrYML)),
            Some(a) => exists|whitelist: Seq<Context>, found: Option<Context>|
                {
                    &&& whitelist.len() == entries.len()
                    &&& (forall|i: int| 0 <= i < entries.len() ==> entries[i] == Value::Context((#[trigger] whitelist[i])@))
                    &&& #[trigger] user_resolution(step, whitelist, files, found)
                    &&& match found {
                        Some(source) => user_step_ok(step, source@, container, closure_ptr, states, r),
                        None => builtin_step_ok(step, states, r),
                    }
                },
        }
    } else {
        builtin_step_ok(step, states, r)
    }
}

/// The step runner: decides how a step runs. `files` holds, for each entry of
/// the step's whitelist, the path its source resolved to and the file's lines.
pub fn run_step(ctx_step: &Context, closure: &Closure, files: &Vec<SourceFile>) -> (r: StepAction)
    ensures
        step_plan_ok(ctx_step@, closure.container, closure.step_ptr, closure.ctx_states@, files@, r),
{
    match ctx_step.list_contexts("whitelist") {
        Some(whitelist) => {
            let (action, found) = resolver::resolve(ctx_step, &whitelist, files);
            proof {
                let entries = ctx_step@["whitelist"@]->Array_0;
                assert forall|i: int| 0 <= i < entries.len() implies (#[trigger] entries[i]) is Context by {
                    assert(entries[i] == Value::Context(whitelist@[i]@));
                }
            }
            match found {
                Some(source) => {
                    let r = if closure.container != 1 {
                        match ctx_step.subcontext("docker") {
                            Some(docker) => plan_container(ctx_step, &docker, closure),
                            None => StepAction::Guest { source: source.duplicate(), ctx: ctx_step.without("whitelist") },
                        }
                    } else {
                        StepAction::Guest { source: source.duplicate(), ctx: ctx_step.without("whitelist") }
                    };
                    proof {
                        assert(user_resolution(ctx_step@, whitelist@, files@, Some(source)));
                    }
                    r
                },
                None => {
                    match action {
                        Some(_) => {
                            let r = try_as_builtin(ctx_step, closure);
                            proof {
                                assert(user_resolution(ctx_step@, whitelist@, files@, None::<Context>));
                            }
                            r
                        },
                        None => StepAction::Finish(TransientContext::Diverging(ExitCode::ErrYML)),
                    }
                },
            }
        },
        None => try_as_builtin(ctx_step, closure),
    }
}

} // verus!
