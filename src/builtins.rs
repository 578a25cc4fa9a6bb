use vstd::prelude::*;
use vstd::string::*;
use crate::command::{format_cmd, views, command_line};
use crate::context::{Context, CtxObj, Value};
use crate::text::{str_eq, uuid_v5_url, uuid_v5_url_of, join2};

verus! {

/// How a run ends.
#[derive(Debug, Clone, Copy, PartialEq, Eq, Structural)]
pub enum ExitCode {
    Success,
    ErrSys,
    ErrApp,
    ErrYML,
    ErrTask,
    Any(i32),
}

impl ExitCode {
    /// The process exit status of this code.
    pub open spec fn spec_code(self) -> i32 {
        match self {
            ExitCode::Success => 0,
            ExitCode::ErrSys => 1,
            ExitCode::ErrApp => 2,
            ExitCode::ErrYML => 3,
            ExitCode::ErrTask => 4,
            ExitCode::Any(x) => x,
        }
    }

    /// The process exit status of this code.
    pub fn code(&self) -> (r: i32)
        ensures
            r == self.spec_code(),
    {
        match self {
            ExitCode::Success => 0,
            ExitCode::ErrSys => 1,
            ExitCode::ErrApp => 2,
            ExitCode::ErrYML => 3,
            ExitCode::ErrTask => 4,
            ExitCode::Any(x) => *x,
        }
    }
}

/// The result of a step: state to keep, state to drop after the step, or the
/// end of the run with an exit code.
#[derive(Debug)]
pub enum TransientContext {
    Stateful(Context),
    Stateless(Context),
    Diverging(ExitCode),
}

impl TransientContext {
    /// A successful value is kept for this step only; an error ends the run.
    pub fn from_result(x: Result<Context, ExitCode>) -> (r: TransientContext)
        ensures
            x matches Ok(c) ==> r matches TransientContext::Stateless(d) && d@ == c@,
            x matches Err(e) ==> r == TransientContext::Diverging(e),
    {
        match x {
            Ok(v) => TransientContext::Stateless(v),
            Err(e) => TransientContext::Diverging(e),
        }
    }
}

/// The built-in actions.
#[derive(Debug, Clone, Copy, PartialEq, Eq, Structural)]
pub enum Builtin {
    Exit,
    Shell,
    Vars,
    Fork,
    CtxDump,
}

/// The built-in named by an action, if any.
pub open spec fn builtin_of(action: Seq<char>) -> Option<Builtin> {
    if action == "sys_exit"@ {
        Some(Builtin::Exit)
    } else if action == "sys_shell"@ {
        Some(Builtin::Shell)
    } else if action == "sys_vars"@ {
        Some(Builtin::Vars)
    } else if action == "sys_fork"@ {
        Some(Builtin::Fork)
    } else if action == "sys_ctxdump"@ {
        Some(Builtin::CtxDump)
    } else {
        None
    }
}

/// The action string of a step, if it has one.
pub open spec fn action_of(step: Map<Seq<char>, Value>) -> Option<Seq<char>> {
    if step.contains_key("action"@) && step["action"@] is Str {
        Some(step["action"@]->Str_0)
    } else {
        None
    }
}

/// The built-in that an action names, if any.
pub fn builtin_named(action: &str) -> (r: Option<Builtin>)
    ensures
        r == builtin_of(action@),
{
    if str_eq(action, "sys_exit") {
        Some(Builtin::Exit)
    } else if str_eq(action, "sys_shell") {
        Some(Builtin::Shell)
    } else if str_eq(action, "sys_vars") {
        Some(Builtin::Vars)
    } else if str_eq(action, "sys_fork") {
        Some(Builtin::Fork)
    } else if str_eq(action, "sys_ctxdump") {
        Some(Builtin::CtxDump)
    } else {
        None
    }
}

/// The built-in resolver: the step's action string, and the built-in it names.
pub fn resolve(ctx_step: &Context) -> (r: (Option<String>, Option<Builtin>))
    ensures
        r.0 matches Some(a) ==> action_of(ctx_step@) == Some(a@),
        r.0 is None ==> action_of(ctx_step@) is None,
        r.0 is None ==> r.1 is None,
        r.0 matches Some(a) ==> r.1 == builtin_of(a@),
{
    match ctx_step.get("action") {
        Some(CtxObj::Str(action)) => {
            let b = builtin_named(action.as_str());
            (Some(action.clone()), b)
        },
        _ => (None, None),
    }
}

/// The exit status asked for by a `sys_exit` step: its `exit_code` when that
/// is an integer that fits, else zero.
pub open spec fn requested_exit(ctx: Map<Seq<char>, Value>) -> i32 {
    if ctx.contains_key("exit_code"@) && ctx["exit_code"@] is Int && i32::MIN <= ctx["exit_code"@]->Int_0
        <= i32::MAX {
        ctx["exit_code"@]->Int_0 as i32
    } else {
        0
    }
}

/// The `sys_exit` built-in: ends the run with the requested code.
pub fn exit(ctx: Context) -> (r: TransientContext)
    ensures
        r == TransientContext::Diverging(ExitCode::Any(requested_exit(ctx@))),
{
    let code: i32 = match ctx.unpack_int("exit_code") {
        Ok(n) => {
            if i32::MIN as i64 <= n && n <= i32::MAX as i64 {
                n as i32
            } else {
                0
            }
        },
        Err(e) => {
            proof {
                if e == crate::context::UnpackError::Missing {
                    assert(!ctx@.contains_key("exit_code"@));
                } else {
                    assert(!(ctx@["exit_code"@] is Int));
                }
            }
            0
        },
    };
    assert(code == requested_exit(ctx@));
    TransientContext::Diverging(ExitCode::Any(code))
}

/// A request to run a command in a container.
pub struct LaunchRequest {
    pub spec: Context,
    pub argv: Vec<String>,
}

/// The words of a `bash` array: strings as they are, anything else as "".
pub open spec fn shell_words(items: Seq<Value>) -> Seq<Seq<char>> {
    items.map_values(|v: Value| if v is Str { v->Str_0 } else { Seq::<char>::empty() })
}

/// What a `sys_shell` step launches: with a `bash` array, `bash -c` and the
/// joined words, else an interactive `bash`. The impersonation key is always
/// dropped from the container spec.
pub open spec fn shell_request_ok(ctx: Map<Seq<char>, Value>, r: LaunchRequest) -> bool {
    let docker = ctx["docker"@]->Context_0;
    if ctx.contains_key("bash"@) && ctx["bash"@] is Array {
        &&& r.spec@ == docker.remove("impersonate"@)
        &&& views(r.argv@) == seq!["bash"@, "-c"@, command_line(shell_words(ctx["bash"@]->Array_0))]
    } else {
        &&& r.spec@ == docker.insert("interactive"@, Value::Bool(true)).remove("impersonate"@)
        &&& views(r.argv@) == seq!["bash"@]
    }
}

/// The `sys_shell` built-in, as the launch it asks for. Without a `docker`
/// context there is nothing to launch and the step fails with `ErrYML`.
pub fn shell(ctx: &Context) -> (r: Result<LaunchRequest, ExitCode>)
    ensures
        r is Err <==> !(ctx@.contains_key("docker"@) && ctx@["docker"@] is Context),
        r matches Err(e) ==> e == ExitCode::ErrYML,
        r matches Ok(req) ==> shell_request_ok(ctx@, req),
{
    let docker = match ctx.subcontext("docker") {
        Some(d) => d,
        None => {
            return Err(ExitCode::ErrYML);
        },
    };
    match ctx.get("bash") {
        Some(CtxObj::Array(items)) => {
            let mut words: Vec<String> = Vec::new();
            let mut i: usize = 0;
            let ghost arr = ctx@["bash"@]->Array_0;
            proof {
                crate::context::lemma_views_of(items, items@.len() as int);
            }
            while i < items.len()
                invariant
                    0 <= i <= items@.len(),
                    arr.len() == items@.len(),
                    forall|j: int| 0 <= j < items@.len() ==> arr[j] == (#[trigger] items@[j])@,
                    words@.len() == i,
                    views(words@) == shell_words(arr).subrange(0, i as int),
                decreases items@.len() - i,
            {
                let w = match &items[i] {
                    CtxObj::Str(s) => s.clone(),
                    _ => String::new(),
                };
                let ghost old_words = words@;
                let ghost wv = w@;
                proof {
                    assert(wv == shell_words(arr)[i as int]);
                }
                words.push(w);
                proof {
                    assert forall|j: int| 0 <= j < i + 1 implies #[trigger] views(words@)[j] == shell_words(arr).subrange(0, i + 1)[j] by {
                        if j < i {
                            assert(words@[j] == old_words[j]);
                            assert(views(old_words)[j] == shell_words(arr).subrange(0, i as int)[j]);
                        }
                    }
                    assert(views(words@) =~= shell_words(arr).subrange(0, i + 1));
                }
                i = i + 1;
            }
            proof {
                assert(shell_words(arr).subrange(0, items@.len() as int) =~= shell_words(arr));
            }
            let cmd = format_cmd(&words);
            let mut argv: Vec<String> = Vec::new();
            argv.push(String::from_str("bash"));
            argv.push(String::from_str("-c"));
            argv.push(cmd);
            proof {
                assert(views(argv@) =~= seq!["bash"@, "-c"@, command_line(shell_words(arr))]);
            }
            Ok(LaunchRequest { spec: docker.without("impersonate"), argv })
        },
        _ => {
            let mut argv: Vec<String> = Vec::new();
            argv.push(String::from_str("bash"));
            proof {
                assert(views(argv@) =~= seq!["bash"@]);
            }
            let spec = docker.set("interactive", CtxObj::Bool(true)).without("impersonate");
            Ok(LaunchRequest { spec, argv })
        },
    }
}

/// A shell session that ran ends the run with success; one that failed, with
/// `ErrYML`.
pub fn shell_outcome<E>(launched: &Result<String, E>) -> (r: TransientContext)
    ensures
        launched is Ok ==> r == TransientContext::Diverging(ExitCode::Success),
        launched is Err ==> r == TransientContext::Diverging(ExitCode::ErrYML),
{
    match launched {
        Ok(_) => TransientContext::Diverging(ExitCode::Success),
        Err(_) => TransientContext::Diverging(ExitCode::ErrYML),
    }
}

/// The file that a `sys_vars` step reads, as given in `states.from`.
pub open spec fn vars_source_of(ctx: Map<Seq<char>, Value>) -> Option<Seq<char>> {
    if ctx.contains_key("states"@) && ctx["states"@] is Context {
        let states = ctx["states"@]->Context_0;
        if states.contains_key("from"@) && states["from"@] is Str {
            Some(states["from"@]->Str_0)
        } else {
            None
        }
    } else {
        None
    }
}

/// The `sys_vars` built-in, as the file it asks to read: `states.from`, relative
/// to the directory of the playbook. With nothing to read the step has no state.
pub fn vars(ctx: &Context) -> (r: Option<String>)
    ensures
        r matches Some(s) ==> vars_source_of(ctx@) == Some(s@),
        r is None ==> vars_source_of(ctx@) is None,
{
    match ctx.subcontext("states") {
        Some(states) => match states.get("from") {
            Some(CtxObj::Str(url)) => Some(url.clone()),
            _ => None,
        },
        None => None,
    }
}

/// Why the state file of a `sys_vars` step could not be had.
#[derive(Debug, Clone, Copy, PartialEq, Eq, Structural)]
pub enum VarsFailure {
    Read,
    Parse,
}

/// The result of a `sys_vars` step from what was read: the mapping as state to
/// keep, `ErrSys` when the file could not be read, `ErrYML` when it did not parse.
pub fn vars_outcome(loaded: Result<Context, VarsFailure>) -> (r: TransientContext)
    ensures
        loaded matches Ok(c) ==> r matches TransientContext::Stateful(d) && d@ == c@,
        loaded == Err::<Context, VarsFailure>(VarsFailure::Read) ==> r == TransientContext::Diverging(ExitCode::ErrSys),
        loaded == Err::<Context, VarsFailure>(VarsFailure::Parse) ==> r == TransientContext::Diverging(ExitCode::ErrYML),
{
    match loaded {
        Ok(c) => TransientContext::Stateful(c),
        Err(VarsFailure::Read) => TransientContext::Diverging(ExitCode::ErrSys),
        Err(VarsFailure::Parse) => TransientContext::Diverging(ExitCode::ErrYML),
    }
}

/// The directory under `ctx.ctxdump` where a `sys_ctxdump` step writes, if set.
pub fn ctxdump_dir(ctx: &Context) -> (r: Option<String>)
    ensures
        r matches Some(s) ==> ctx@.contains_key("ctxdump"@) && ctx@["ctxdump"@] == Value::Str(s@),
        r is None ==> !(ctx@.contains_key("ctxdump"@) && ctx@["ctxdump"@] is Str),
{
    match ctx.get("ctxdump") {
        Some(CtxObj::Str(s)) => Some(s.clone()),
        _ => None,
    }
}

/// The name of the dump file of a context, from its printed form:
/// `ctxdump-<uuid>.yml` with the version-5 UUID of that text.
pub fn ctxdump_file_name(printed: &str) -> (r: String)
    ensures
        r@ == "ctxdump-"@ + uuid_v5_url_of(printed@) + ".yml"@,
{
    let id = uuid_v5_url(printed);
    let head = join2("ctxdump-", id.as_str());
    join2(head.as_str(), ".yml")
}

} // verus!
