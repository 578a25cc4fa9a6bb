use vstd::prelude::*;
use vstd::string::*;
use crate::command::{views, push_str, push_string};
use crate::context::{Context, CtxObj, Value, lemma_views_of};
use crate::systems::{TaskError, TaskErrorSource};
use crate::text::{ends_with, find_char, join2, regex_capture, regex_capture_of, str_eq, first_index_of};

verus! {

/// The string bound to `key`, if the value there is a string.
pub open spec fn str_at(m: Map<Seq<char>, Value>, key: Seq<char>) -> Option<Seq<char>> {
    if m.contains_key(key) && m[key] is Str {
        Some(m[key]->Str_0)
    } else {
        None
    }
}

/// The boolean bound to `key`, if the value there is a boolean.
pub open spec fn bool_at(m: Map<Seq<char>, Value>, key: Seq<char>) -> Option<bool> {
    if m.contains_key(key) && m[key] is Bool {
        Some(m[key]->Bool_0)
    } else {
        None
    }
}

/// The elements of the array bound to `key`, or none.
pub open spec fn items_at(m: Map<Seq<char>, Value>, key: Seq<char>) -> Seq<Value> {
    if m.contains_key(key) && m[key] is Array {
        m[key]->Array_0
    } else {
        Seq::empty()
    }
}

/// The user name in the output of `id`: the name after the user id.
pub open spec fn user_name_in(id_line: Seq<char>) -> Option<Seq<char>> {
    regex_capture_of(
        r"^uid=(?P<uid>[0-9]+)(\((?P<user>\w+)\))? gid=(?P<gid>[0-9]+)(\((?P<group>\w+)\))?"@,
        id_line,
        "user"@,
    )
}

/// The user name in the output of `id`; a line that names no user is an
/// internal error.
pub fn identify(id_line: &str) -> (r: Result<String, TaskError>)
    ensures
        r matches Ok(u) ==> user_name_in(id_line@) == Some(u@),
        r is Err ==> user_name_in(id_line@) is None,
        r matches Err(e) ==> e.src == TaskErrorSource::Internal,
{
    match regex_capture(
        r"^uid=(?P<uid>[0-9]+)(\((?P<user>\w+)\))? gid=(?P<gid>[0-9]+)(\((?P<group>\w+)\))?",
        id_line,
        "user",
    ) {
        Some(u) => Ok(u),
        None => Err(TaskError::internal("Failed to identify the user.")),
    }
}

/// The `:`-separated fields of a line.
pub open spec fn fields_of(s: Seq<char>) -> Seq<Seq<char>>
    decreases s.len(),
{
    match first_index_of(s, ':') {
        Some(i) => if 0 <= i < s.len() {
            seq![s.subrange(0, i)] + fields_of(s.subrange(i + 1, s.len() as int))
        } else {
            seq![s]
        },
        None => seq![s],
    }
}

proof fn lemma_first_index(s: Seq<char>, c: char, i: int)
    requires
        0 <= i < s.len(),
        s[i] == c,
        forall|j: int| 0 <= j < i ==> s[j] != c,
    ensures
        first_index_of(s, c) == Some(i),
{
    assert(s.contains(c));
    let k = choose|k: int| 0 <= k < s.len() && s[k] == c && forall|j: int| 0 <= j < k ==> s[j] != c;
    if k < i {
        assert(s[k] != c);
    }
    if k > i {
        assert(s[i] != c);
    }
}

/// The `:`-separated fields of a line.
pub fn split_fields(line: &str) -> (r: Vec<String>)
    ensures
        views(r@) == fields_of(line@),
{
    let mut out: Vec<String> = Vec::new();
    let mut rest: &str = line;
    loop
        invariant
            views(out@) + fields_of(rest@) == fields_of(line@),
        decreases rest@.len(),
    {
        match find_char(rest, ':') {
            Some(i) => {
                proof {
                    lemma_first_index(rest@, ':', i as int);
                }
                let n = rest.unicode_len();
                let head = rest.substring_char(0, i);
                let tail = rest.substring_char(i + 1, n);
                let ghost old_out = views(out@);
                let ghost old_rest = rest@;
                push_str(&mut out, head);
                proof {
                    assert(fields_of(old_rest) == seq![head@] + fields_of(tail@));
                    assert(views(out@) + fields_of(tail@) =~= old_out + fields_of(old_rest));
                }
                rest = tail;
            },
            None => {
                let ghost old_out = views(out@);
                proof {
                    assert(fields_of(rest@) == seq![rest@]);
                }
                push_str(&mut out, rest);
                proof {
                    assert(views(out@) =~= old_out + fields_of(rest@));
                }
                return out;
            },
        }
    }
}

/// What the system's user database says of a user.
#[derive(Debug)]
pub struct UserInfo {
    pub uid: String,
    pub gid: String,
    pub full_name: String,
    pub home_dir: String,
}

/// A user database line, `name:password:uid:gid:full name:home:shell`, as
/// user facts; a line with fewer than six fields gives none.
pub fn copy_user_info(line: &str) -> (r: Option<UserInfo>)
    ensures
        r is None <==> fields_of(line@).len() < 6,
        r matches Some(u) ==> {
            let f = fields_of(line@);
            &&& u.uid@ == f[2]
            &&& u.gid@ == f[3]
            &&& u.full_name@ == f[4]
            &&& u.home_dir@ == f[5]
        },
{
    let fields = split_fields(line);
    if fields.len() < 6 {
        return None;
    }
    Some(
        UserInfo {
            uid: fields[2].clone(),
            gid: fields[3].clone(),
            full_name: fields[4].clone(),
            home_dir: fields[5].clone(),
        },
    )
}

/// `-it` unless `interactive` is the boolean false.
pub open spec fn interactive_flags(m: Map<Seq<char>, Value>) -> Seq<Seq<char>> {
    if bool_at(m, "interactive"@) == Some(false) {
        Seq::empty()
    } else {
        seq!["-it"@]
    }
}

/// `prefix` joined to the string at `key`, when there is one.
pub open spec fn joined_flag(m: Map<Seq<char>, Value>, key: Seq<char>, prefix: Seq<char>) -> Seq<Seq<char>> {
    match str_at(m, key) {
        Some(s) => seq![prefix + s],
        None => Seq::empty(),
    }
}

/// `flag` followed by the string at `key`, when there is one.
pub open spec fn paired_flag(m: Map<Seq<char>, Value>, key: Seq<char>, flag: Seq<char>) -> Seq<Seq<char>> {
    match str_at(m, key) {
        Some(s) => seq![flag, s],
        None => Seq::empty(),
    }
}

/// `flag` before each string of a list; other values take no part.
pub open spec fn flag_items(items: Seq<Value>, flag: Seq<char>) -> Seq<Seq<char>>
    decreases items.len(),
{
    if items.len() == 0 {
        Seq::empty()
    } else {
        let rest = flag_items(items.drop_last(), flag);
        match items.last() {
            Value::Str(s) => rest + seq![flag, s],
            _ => rest,
        }
    }
}

/// The host and container halves of a volume `HOST:CONT[:mode]`, split at the
/// first colon; the container half keeps the colon.
pub open spec fn volume_parts(v: Value) -> Option<(Seq<char>, Seq<char>)> {
    match v {
        Value::Str(s) => match first_index_of(s, ':') {
            Some(i) => Some((s.subrange(0, i), s.subrange(i, s.len() as int))),
            None => None,
        },
        _ => None,
    }
}

/// Whether `s` ends with `suffix`.
pub open spec fn ends_in(s: Seq<char>, suffix: Seq<char>) -> bool {
    suffix.len() <= s.len() && s.subrange(s.len() - suffix.len(), s.len() as int) == suffix
}

/// The mode added to a volume that names none: read-only.
pub open spec fn mode_suffix(dst: Seq<char>) -> Seq<char> {
    if ends_in(dst, ":ro"@) || ends_in(dst, ":rw"@) || ends_in(dst, ":z"@) || ends_in(dst, ":Z"@) {
        Seq::empty()
    } else {
        ":ro"@
    }
}

/// The mounts of the volumes: each one whose host path could be resolved,
/// mounted from that canonical path.
pub open spec fn volume_flags(items: Seq<Value>, canon: Seq<Option<String>>) -> Seq<Seq<char>>
    decreases items.len(),
{
    if items.len() == 0 {
        Seq::empty()
    } else {
        let n = items.len() - 1;
        let rest = volume_flags(items.drop_last(), canon);
        match volume_parts(items.last()) {
            Some(p) => if n < canon.len() && canon[n] is Some {
                rest + seq!["-v"@, canon[n]->Some_0@ + p.1 + mode_suffix(p.1)]
            } else {
                rest
            },
            None => rest,
        }
    }
}

/// The host path of each volume, where the volume has one.
pub open spec fn volume_host(v: Value) -> Option<Seq<char>> {
    match volume_parts(v) {
        Some(p) => Some(p.0),
        None => None,
    }
}

/// The bind mount of the working directory, read-only, and the working
/// directory inside the container.
pub open spec fn workdir_flags(cwd: Seq<char>, home: Seq<char>) -> Seq<Seq<char>> {
    seq!["-v"@, cwd + ":"@ + home + "/current-ro:ro"@, "-w"@, home + "/current-ro"@]
}

/// The display of the host, when `gui` is true.
pub open spec fn gui_flags(m: Map<Seq<char>, Value>, user_home: Seq<char>, home: Seq<char>) -> Seq<Seq<char>> {
    if bool_at(m, "gui"@) == Some(true) {
        seq![
            "--network"@,
            "host"@,
            "-e"@,
            "DISPLAY"@,
            "-v"@,
            "/tmp/.X11-unix:/tmp/.X11-unix:rw"@,
            "-v"@,
            user_home + "/.Xauthority:"@ + home + "/.Xauthority:ro"@,
        ]
    } else {
        Seq::empty()
    }
}

/// The identity of the container: with `impersonate` set to `dynamic`, root
/// with the capabilities to change identity, the invoker's `id` line in
/// `IMPERSONATE` and the engine as entry point; with another string, that user;
/// without one, the invoker's uid and gid.
pub open spec fn user_flags(m: Map<Seq<char>, Value>, id_line: Seq<char>, uid: Seq<char>, gid: Seq<char>) -> Seq<
    Seq<char>,
> {
    match str_at(m, "impersonate"@) {
        Some(s) => if s == "dynamic"@ {
            seq![
                "--cap-add=SETUID"@,
                "--cap-add=SETGID"@,
                "--cap-add=CHOWN"@,
                "-u"@,
                "root"@,
                "-e"@,
                "IMPERSONATE="@ + id_line,
                "--entrypoint"@,
                "/usr/bin/playbook"@,
            ]
        } else {
            seq!["-u"@, s]
        },
        None => seq!["-u"@, uid + ":"@ + gid],
    }
}

/// Whether the invocation needs the invoker's user facts.
pub open spec fn needs_user_info(m: Map<Seq<char>, Value>) -> bool {
    bool_at(m, "gui"@) == Some(true) || str_at(m, "impersonate"@) is None
}

/// The argument vector of a local container run.
pub open spec fn docker_args(
    m: Map<Seq<char>, Value>,
    cmd: Seq<Seq<char>>,
    id_line: Seq<char>,
    user: Seq<char>,
    uid: Seq<char>,
    gid: Seq<char>,
    user_home: Seq<char>,
    cwd: Seq<char>,
    canon: Seq<Option<String>>,
) -> Seq<Seq<char>> {
    let home = "/home/"@ + user;
    seq!["docker"@, "run"@, "--init"@, "--rm"@] + interactive_flags(m) + seq!["--cap-drop=ALL"@] + joined_flag(
        m,
        "runtime"@,
        "--runtime="@,
    ) + paired_flag(m, "ipc"@, "--ipc"@) + paired_flag(m, "network"@, "--network"@) + workdir_flags(cwd, home)
        + volume_flags(items_at(m, "volumes"@), canon) + flag_items(items_at(m, "ports"@), "-p"@) + gui_flags(
        m,
        user_home,
        home,
    ) + flag_items(items_at(m, "environment"@), "-e"@) + user_flags(m, id_line, uid, gid) + joined_flag(
        m,
        "name"@,
        "--name="@,
    ) + seq![str_at(m, "image"@)->Some_0] + cmd
}

/// Appends a list of arguments.
fn extend(out: &mut Vec<String>, seg: Vec<String>)
    ensures
        views(final(out)@) == views(old(out)@) + views(seg@),
{
    let mut seg = seg;
    let ghost s = seg@;
    let ghost o = out@;
    out.append(&mut seg);
    proof {
        assert(views(out@) =~= views(o) + views(s));
    }
}

fn interactive_seg(m: &Context) -> (r: Vec<String>)
    ensures
        views(r@) == interactive_flags(m@),
{
    let mut r: Vec<String> = Vec::new();
    match m.get("interactive") {
        Some(CtxObj::Bool(false)) => {},
        _ => {
            push_str(&mut r, "-it");
        },
    }
    proof {
        assert(views(r@) =~= interactive_flags(m@));
    }
    r
}

fn joined_seg(m: &Context, key: &str, prefix: &str) -> (r: Vec<String>)
    ensures
        views(r@) == joined_flag(m@, key@, prefix@),
{
    let mut r: Vec<String> = Vec::new();
    match m.get(key) {
        Some(CtxObj::Str(s)) => {
            push_string(&mut r, join2(prefix, s.as_str()));
        },
        _ => {},
    }
    proof {
        assert(views(r@) =~= joined_flag(m@, key@, prefix@));
    }
    r
}

fn paired_seg(m: &Context, key: &str, flag: &str) -> (r: Vec<String>)
    ensures
        views(r@) == paired_flag(m@, key@, flag@),
{
    let mut r: Vec<String> = Vec::new();
    match m.get(key) {
        Some(CtxObj::Str(s)) => {
            push_str(&mut r, flag);
            push_str(&mut r, s.as_str());
        },
        _ => {},
    }
    proof {
        assert(views(r@) =~= paired_flag(m@, key@, flag@));
    }
    r
}

fn items_seg(m: &Context, key: &str, flag: &str) -> (r: Vec<String>)
    ensures
        views(r@) == flag_items(items_at(m@, key@), flag@),
{
    let mut r: Vec<String> = Vec::new();
    match m.get(key) {
        Some(CtxObj::Array(items)) => {
            let ghost arr = items_at(m@, key@);
            proof {
                lemma_views_of(items, items@.len() as int);
            }
            let mut i: usize = 0;
            while i < items.len()
                invariant
                    0 <= i <= items@.len(),
                    arr.len() == items@.len(),
                    forall|j: int| 0 <= j < items@.len() ==> arr[j] == (#[trigger] items@[j])@,
                    views(r@) == flag_items(arr.subrange(0, i as int), flag@),
                decreases items@.len() - i,
            {
                let ghost pre = arr.subrange(0, i as int);
                let ghost post = arr.subrange(0, i + 1);
                proof {
                    assert(post.drop_last() =~= pre);
                    assert(post.last() == items@[i as int]@);
                }
                match &items[i] {
                    CtxObj::Str(s) => {
                        let ghost o = views(r@);
                        push_str(&mut r, flag);
                        push_str(&mut r, s.as_str());
                        proof {
                            assert(views(r@) =~= o + seq![flag@, s@]);
                        }
                    },
                    _ => {},
                }
                i = i + 1;
            }
            proof {
                assert(arr.subrange(0, items@.len() as int) =~= arr);
            }
        },
        _ => {},
    }
    r
}

/// The host path of each volume of a container spec, in the order of the
/// `volumes` array; entries without one hold nothing.
pub fn volume_hosts(m: &Context) -> (r: Vec<Option<String>>)
    ensures
        r@.len() == items_at(m@, "volumes"@).len(),
        forall|i: int| 0 <= i < r@.len() ==> crate::resolver::opt_view(#[trigger] r@[i]) == volume_host(
            items_at(m@, "volumes"@)[i],
        ),
{
    let mut r: Vec<Option<String>> = Vec::new();
    match m.get("volumes") {
        Some(CtxObj::Array(items)) => {
            let ghost arr = items_at(m@, "volumes"@);
            proof {
                lemma_views_of(items, items@.len() as int);
            }
            let mut i: usize = 0;
            while i < items.len()
                invariant
                    0 <= i <= items@.len(),
                    arr.len() == items@.len(),
                    forall|j: int| 0 <= j < items@.len() ==> arr[j] == (#[trigger] items@[j])@,
                    r@.len() == i,
                    forall|j: int| 0 <= j < i ==> crate::resolver::opt_view(#[trigger] r@[j]) == volume_host(arr[j]),
                decreases items@.len() - i,
            {
                let host = match &items[i] {
                    CtxObj::Str(s) => match find_char(s.as_str(), ':') {
                        Some(k) => {
                            proof {
                                lemma_first_index(s@, ':', k as int);
                            }
                            Some(String::from_str(s.as_str().substring_char(0, k)))
                        },
                        None => None,
                    },
                    _ => None,
                };
                proof {
                    assert(crate::resolver::opt_view(host) == volume_host(arr[i as int]));
                }
                r.push(host);
                i = i + 1;
            }
        },
        _ => {},
    }
    r
}

fn volumes_seg(m: &Context, canon: &Vec<Option<String>>) -> (r: Vec<String>)
    ensures
        views(r@) == volume_flags(items_at(m@, "volumes"@), canon@),
{
    let mut r: Vec<String> = Vec::new();
    match m.get("volumes") {
        Some(CtxObj::Array(items)) => {
            let ghost arr = items_at(m@, "volumes"@);
            proof {
                lemma_views_of(items, items@.len() as int);
            }
            let mut i: usize = 0;
            while i < items.len()
                invariant
                    0 <= i <= items@.len(),
                    arr.len() == items@.len(),
                    forall|j: int| 0 <= j < items@.len() ==> arr[j] == (#[trigger] items@[j])@,
                    views(r@) == volume_flags(arr.subrange(0, i as int), canon@),
                decreases items@.len() - i,
            {
                let ghost pre = arr.subrange(0, i as int);
                let ghost post = arr.subrange(0, i + 1);
                proof {
                    assert(post.drop_last() =~= pre);
                    assert(post.last() == items@[i as int]@);
                }
                match &items[i] {
                    CtxObj::Str(s) => match find_char(s.as_str(), ':') {
                        Some(k) => {
                            proof {
                                lemma_first_index(s@, ':', k as int);
                            }
                            if i < canon.len() {
                                match &canon[i] {
                                    Some(c) => {
                                        let n = s.as_str().unicode_len();
                                        let dst = s.as_str().substring_char(k, n);
                                        let plain = ends_with(dst, ":ro") || ends_with(dst, ":rw") || ends_with(dst, ":z")
                                            || ends_with(dst, ":Z");
                                        let suffix = if plain {
                                            ""
                                        } else {
                                            ":ro"
                                        };
                                        proof {
                                            reveal_strlit("");
                                        }
                                        let mount = join2(join2(c.as_str(), dst).as_str(), suffix);
                                        let ghost o = views(r@);
                                        push_str(&mut r, "-v");
                                        push_string(&mut r, mount);
                                        proof {
                                            assert(suffix@ == mode_suffix(dst@));
                                            assert(views(r@) =~= o + seq!["-v"@, c@ + dst@ + mode_suffix(dst@)]);
                                        }
                                    },
                                    None => {},
                                }
                            }
                        },
                        None => {},
                    },
                    _ => {},
                }
                i = i + 1;
            }
            proof {
                assert(arr.subrange(0, items@.len() as int) =~= arr);
            }
        },
        _ => {},
    }
    r
}

fn workdir_seg(cwd: &str, home: &str) -> (r: Vec<String>)
    ensures
        views(r@) == workdir_flags(cwd@, home@),
{
    let mut r: Vec<String> = Vec::new();
    push_str(&mut r, "-v");
    let a = join2(join2(join2(cwd, ":").as_str(), home).as_str(), "/current-ro:ro");
    push_string(&mut r, a);
    push_str(&mut r, "-w");
    push_string(&mut r, join2(home, "/current-ro"));
    proof {
        assert(views(r@) =~= workdir_flags(cwd@, home@));
    }
    r
}

fn gui_seg(m: &Context, user_home: &str, home: &str) -> (r: Vec<String>)
    ensures
        views(r@) == gui_flags(m@, user_home@, home@),
{
    let mut r: Vec<String> = Vec::new();
    match m.get("gui") {
        Some(CtxObj::Bool(true)) => {
            push_str(&mut r, "--network");
            push_str(&mut r, "host");
            push_str(&mut r, "-e");
            push_str(&mut r, "DISPLAY");
            push_str(&mut r, "-v");
            push_str(&mut r, "/tmp/.X11-unix:/tmp/.X11-unix:rw");
            push_str(&mut r, "-v");
            push_string(&mut r, join2(join2(join2(user_home, "/.Xauthority:").as_str(), home).as_str(), "/.Xauthority:ro"));
        },
        _ => {},
    }
    proof {
        assert(views(r@) =~= gui_flags(m@, user_home@, home@));
    }
    r
}

fn user_seg(m: &Context, id_line: &str, uid: &str, gid: &str) -> (r: Vec<String>)
    ensures
        views(r@) == user_flags(m@, id_line@, uid@, gid@),
{
    let mut r: Vec<String> = Vec::new();
    match m.get("impersonate") {
        Some(CtxObj::Str(s)) => {
            if str_eq(s.as_str(), "dynamic") {
                push_str(&mut r, "--cap-add=SETUID");
                push_str(&mut r, "--cap-add=SETGID");
                push_str(&mut r, "--cap-add=CHOWN");
                push_str(&mut r, "-u");
                push_str(&mut r, "root");
                push_str(&mut r, "-e");
                push_string(&mut r, join2("IMPERSONATE=", id_line));
                push_str(&mut r, "--entrypoint");
                push_str(&mut r, "/usr/bin/playbook");
            } else {
                push_str(&mut r, "-u");
                push_str(&mut r, s.as_str());
            }
        },
        _ => {
            push_str(&mut r, "-u");
            push_string(&mut r, join2(join2(uid, ":").as_str(), gid));
        },
    }
    proof {
        assert(views(r@) =~= user_flags(m@, id_line@, uid@, gid@));
    }
    r
}

/// The facts about the host that a local container run needs.
pub struct HostFacts {
    /// The output of `id`, without its line end.
    pub id_line: String,
    /// The invoking user's name.
    pub user: String,
    /// The invoking user's entry in the user database, if found.
    pub info: Option<UserInfo>,
    /// The current working directory.
    pub cwd: String,
    /// The canonical host path of each volume, in the order of `volume_hosts`.
    pub volumes: Vec<Option<String>>,
}

/// The argument vector of the local container backend for a container spec
/// and a command. A spec without an `image` string, or one that needs the
/// user's facts when they could not be found, is an internal error.
#[verifier::rlimit(50)]
pub fn docker_run_args(m: &Context, cmd: &Vec<String>, host: &HostFacts) -> (r: Result<Vec<String>, TaskError>)
    ensures
        r is Err <==> (needs_user_info(m@) && host.info is None) || str_at(m@, "image"@) is None,
        r matches Err(e) ==> e.src == TaskErrorSource::Internal,
        r matches Ok(args) ==> host.info matches Some(info) ==> views(args@) == docker_args(
            m@,
            views(cmd@),
            host.id_line@,
            host.user@,
            info.uid@,
            info.gid@,
            info.home_dir@,
            host.cwd@,
            host.volumes@,
        ),
        r matches Ok(args) ==> host.info is None ==> views(args@) == docker_args(
            m@,
            views(cmd@),
            host.id_line@,
            host.user@,
            Seq::empty(),
            Seq::empty(),
            Seq::empty(),
            host.cwd@,
            host.volumes@,
        ),
{
    let needs = match m.get("gui") {
        Some(CtxObj::Bool(true)) => true,
        _ => match m.get("impersonate") {
            Some(CtxObj::Str(_)) => false,
            _ => true,
        },
    };
    if needs && host.info.is_none() {
        return Err(TaskError::internal("Failed to look up the user."));
    }
    let image = match m.get("image") {
        Some(CtxObj::Str(s)) => s,
        _ => {
            return Err(TaskError::internal("The Docker image specification was invalid."));
        },
    };
    let empty = String::new();
    let (uid, gid, user_home) = match &host.info {
        Some(info) => (&info.uid, &info.gid, &info.home_dir),
        None => (&empty, &empty, &empty),
    };
    let home = join2("/home/", host.user.as_str());
    let ghost m_ = m@;
    let ghost hv = home@;
    let mut out: Vec<String> = Vec::new();
    push_str(&mut out, "docker");
    push_str(&mut out, "run");
    push_str(&mut out, "--init");
    push_str(&mut out, "--rm");
    let ghost mut exp: Seq<Seq<char>> = seq!["docker"@, "run"@, "--init"@, "--rm"@];
    proof {
        assert(views(out@) =~= exp);
    }
    extend(&mut out, interactive_seg(m));
    proof { exp = exp + interactive_flags(m_); }
    push_str(&mut out, "--cap-drop=ALL");
    proof { exp = exp + seq!["--cap-drop=ALL"@]; assert(views(out@) =~= exp); }
    extend(&mut out, joined_seg(m, "runtime", "--runtime="));
    proof { exp = exp + joined_flag(m_, "runtime"@, "--runtime="@); }
    extend(&mut out, paired_seg(m, "ipc", "--ipc"));
    proof { exp = exp + paired_flag(m_, "ipc"@, "--ipc"@); }
    extend(&mut out, paired_seg(m, "network", "--network"));
    proof { exp = exp + paired_flag(m_, "network"@, "--network"@); }
    extend(&mut out, workdir_seg(host.cwd.as_str(), home.as_str()));
    proof { exp = exp + workdir_flags(host.cwd@, hv); }
    extend(&mut out, volumes_seg(m, &host.volumes));
    proof { exp = exp + volume_flags(items_at(m_, "volumes"@), host.volumes@); }
    extend(&mut out, items_seg(m, "ports", "-p"));
    proof { exp = exp + flag_items(items_at(m_, "ports"@), "-p"@); }
    extend(&mut out, gui_seg(m, user_home.as_str(), home.as_str()));
    proof { exp = exp + gui_flags(m_, user_home@, hv); }
    extend(&mut out, items_seg(m, "environment", "-e"));
    proof { exp = exp + flag_items(items_at(m_, "environment"@), "-e"@); }
    extend(&mut out, user_seg(m, host.id_line.as_str(), uid.as_str(), gid.as_str()));
    proof { exp = exp + user_flags(m_, host.id_line@, uid@, gid@); }
    extend(&mut out, joined_seg(m, "name", "--name="));
    proof { exp = exp + joined_flag(m_, "name"@, "--name="@); }
    push_str(&mut out, image.as_str());
    proof { exp = exp + seq![image@]; assert(views(out@) =~= exp); }
    let mut i: usize = 0;
    while i < cmd.len()
        invariant
            0 <= i <= cmd@.len(),
            views(out@) == exp + views(cmd@.subrange(0, i as int)),
        decreases cmd@.len() - i,
    {
        push_str(&mut out, cmd[i].as_str());
        proof {
            assert(views(cmd@.subrange(0, i + 1)) =~= views(cmd@.subrange(0, i as int)).push(cmd@[i as int]@));
            assert(views(out@) =~= exp + views(cmd@.subrange(0, i + 1)));
        }
        i = i + 1;
    }
    proof {
        assert(cmd@.subrange(0, cmd@.len() as int) =~= cmd@);
        assert(image@ == str_at(m_, "image"@)->Some_0);
    }
    Ok(out)
}

} // verus!
