use vstd::prelude::*;
use crate::builtins::{ExitCode, TransientContext};
use vstd::string::*;
use crate::command::views;
use crate::context::{Context, CtxObj, Value};
use crate::docker::str_at;
use crate::text::join2;
use crate::text::str_eq;

verus! {

/// The backends a containerised step can run on.
#[derive(Debug, Clone, Copy, PartialEq, Eq, Structural)]
pub enum SupportedInfrastructure {
    /// The local container runtime.
    Docker,
    /// The cluster batch backend.
    Hotwings,
}

/// The backend selected by a name, if it is one.
pub open spec fn infrastructure_named(name: Seq<char>) -> Option<SupportedInfrastructure> {
    if name == "docker"@ {
        Some(SupportedInfrastructure::Docker)
    } else if name == "hotwings"@ {
        Some(SupportedInfrastructure::Hotwings)
    } else {
        None
    }
}

/// The backend selected by a name: `docker` or `hotwings`.
pub fn abstract_infrastructures(name: &str) -> (r: Option<SupportedInfrastructure>)
    ensures
        r == infrastructure_named(name@),
{
    if str_eq(name, "docker") {
        Some(SupportedInfrastructure::Docker)
    } else if str_eq(name, "hotwings") {
        Some(SupportedInfrastructure::Hotwings)
    } else {
        None
    }
}

/// Where a failed launch came from.
#[derive(Debug, Clone, Copy, PartialEq, Eq, Structural)]
pub enum TaskErrorSource {
    /// A system call failed with this error number.
    NixError(i32),
    /// The launched process exited with this non-zero status.
    ExitCode(i32),
    /// The launched process was killed by this signal number.
    Signal(i32),
    /// The request itself was malformed.
    Internal,
    /// The cluster API failed.
    ExternalAPIError,
}

/// A failed launch: a message for the log, and where it came from.
#[derive(Debug)]
pub struct TaskError {
    pub msg: String,
    pub src: TaskErrorSource,
}

impl TaskError {
    /// A failure caused by a malformed request.
    pub fn internal(msg: &str) -> (r: TaskError)
        ensures
            r.msg@ == msg@,
            r.src == TaskErrorSource::Internal,
    {
        TaskError { msg: msg.to_owned(), src: TaskErrorSource::Internal }
    }

    /// The log message of this failure.
    pub fn message(&self) -> (r: String)
        ensures
            r@ == self.msg@,
    {
        self.msg.clone()
    }
}

/// The result of a step that ran in a container: no state on success, and the
/// end of the run with `ErrTask` on any failure.
pub fn launch_outcome(launched: &Result<String, TaskError>) -> (r: TransientContext)
    ensures
        launched is Ok ==> (r matches TransientContext::Stateless(c) && c@ == Map::<Seq<char>, crate::context::Value>::empty()),
        launched is Err ==> r == TransientContext::Diverging(ExitCode::ErrTask),
{
    match launched {
        Ok(_) => TransientContext::Stateless(Context::new()),
        Err(_) => TransientContext::Diverging(ExitCode::ErrTask),
    }
}

/// The result of a user action run by the guest adapter: no state on success,
/// and the end of the run with `ErrTask` on any failure.
pub fn guest_outcome(invoked: &Result<(), TaskError>) -> (r: TransientContext)
    ensures
        invoked is Ok ==> (r matches TransientContext::Stateless(c) && c@ == Map::<Seq<char>, crate::context::Value>::empty()),
        invoked is Err ==> r == TransientContext::Diverging(ExitCode::ErrTask),
{
    match invoked {
        Ok(_) => TransientContext::Stateless(Context::new()),
        Err(_) => TransientContext::Diverging(ExitCode::ErrTask),
    }
}

/// A command as the cluster templates print it: each argument in single
/// quotes, separated by commas, in brackets.
pub open spec fn quoted_list(args: Seq<Seq<char>>) -> Seq<char>
    decreases args.len(),
{
    if args.len() == 0 {
        Seq::empty()
    } else if args.len() == 1 {
        "'"@ + args[0] + "'"@
    } else {
        quoted_list(args.drop_last()) + ","@ + "'"@ + args.last() + "'"@
    }
}

/// The command of a cluster job as its templates print it.
pub fn command_str(cmd: &Vec<String>) -> (r: String)
    ensures
        r@ == "["@ + quoted_list(views(cmd@)) + "]"@,
{
    let mut body = String::new();
    let mut i: usize = 0;
    while i < cmd.len()
        invariant
            0 <= i <= cmd@.len(),
            body@ == quoted_list(views(cmd@.subrange(0, i as int))),
        decreases cmd@.len() - i,
    {
        let item = join2(join2("'", cmd[i].as_str()).as_str(), "'");
        proof {
            let next = views(cmd@.subrange(0, i + 1));
            assert(next.drop_last() =~= views(cmd@.subrange(0, i as int)));
            assert(next.last() == cmd@[i as int]@);
        }
        if i == 0 {
            body = item;
        } else {
            body = join2(join2(body.as_str(), ",").as_str(), item.as_str());
        }
        i = i + 1;
    }
    proof {
        assert(cmd@.subrange(0, cmd@.len() as int) =~= cmd@);
    }
    join2(join2("[", body.as_str()).as_str(), "]")
}

/// The GPUs a cluster job asks for: the spec's `gpus`, or one, on the `nvidia`
/// runtime; none on any other.
pub open spec fn gpu_request(m: Map<Seq<char>, Value>) -> i64 {
    if str_at(m, "runtime"@) == Some("nvidia"@) {
        if m.contains_key("gpus"@) && m["gpus"@] is Int {
            m["gpus"@]->Int_0
        } else {
            1
        }
    } else {
        0
    }
}

/// The container spec of a cluster job with the fields its templates read: the
/// user, the task id, the file server, the quota, and the GPU request.
pub fn hotwings_context(ctx_docker: &Context, user: &str, task_id: &str, nfs_server: &str, quota: &str) -> (r:
    Context)
    ensures
        r@ == ctx_docker@.insert("hotwings_user"@, Value::Str(user@)).insert(
            "hotwings_task_id"@,
            Value::Str(task_id@),
        ).insert("hotwings_nfs_server"@, Value::Str(nfs_server@)).insert(
            "hotwings_currentro_quota"@,
            Value::Str(quota@),
        ).insert("hotwings_nvidia"@, Value::Bool(str_at(ctx_docker@, "runtime"@) == Some("nvidia"@))).insert(
            "hotwings_gpus"@,
            Value::Int(gpu_request(ctx_docker@)),
        ),
{
    let nvidia = match ctx_docker.get("runtime") {
        Some(CtxObj::Str(rt)) => str_eq(rt.as_str(), "nvidia"),
        _ => false,
    };
    let gpus: i64 = if nvidia {
        match ctx_docker.unpack_int("gpus") {
            Ok(n) => n,
            Err(e) => {
                proof {
                    if e == crate::context::UnpackError::Missing {
                        assert(!ctx_docker@.contains_key("gpus"@));
                    } else {
                        assert(!(ctx_docker@["gpus"@] is Int));
                    }
                }
                1
            },
        }
    } else {
        0
    };
    ctx_docker.set("hotwings_user", CtxObj::Str(String::from_str(user))).set(
        "hotwings_task_id",
        CtxObj::Str(String::from_str(task_id)),
    ).set("hotwings_nfs_server", CtxObj::Str(String::from_str(nfs_server))).set(
        "hotwings_currentro_quota",
        CtxObj::Str(String::from_str(quota)),
    ).set("hotwings_nvidia", CtxObj::Bool(nvidia)).set("hotwings_gpus", CtxObj::Int(gpus))
}

/// The context the cluster templates render: the job's spec with its command.
pub fn k8s_template_context(ctx_docker: &Context, cmd: &Vec<String>) -> (r: Context)
    ensures
        r@ == ctx_docker@.insert("command_str"@, Value::Str("["@ + quoted_list(views(cmd@)) + "]"@)),
{
    ctx_docker.set("command_str", CtxObj::Str(command_str(cmd)))
}

} // verus!
