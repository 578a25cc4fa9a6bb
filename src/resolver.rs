use vstd::prelude::*;
use crate::builtins::action_of;
use crate::context::{Context, CtxObj, Value};
use crate::text::{regex_capture, regex_capture_of};

verus! {

/// The symbol that a line declares: `NAME` in a `#[playbook(NAME)]` marker at
/// the start of the line.
pub open spec fn declared_symbol(line: Seq<char>) -> Option<Seq<char>> {
    regex_capture_of(r"^#\[playbook\((?P<name>\w+)\)\]"@, line, "name"@)
}

/// Whether some line of a source file declares `symbol`.
pub open spec fn declares(lines: Seq<String>, symbol: Seq<char>) -> bool {
    exists|j: int| 0 <= j < lines.len() && declared_symbol(lines[j]@) == Some(symbol)
}

/// The symbol declared on one line of a source file, if any.
pub fn symbol_on_line(line: &str) -> (r: Option<String>)
    ensures
        r matches Some(s) ==> declared_symbol(line@) == Some(s@),
        r is None ==> declared_symbol(line@) is None,
{
    regex_capture(r"^#\[playbook\((?P<name>\w+)\)\]", line, "name")
}

/// Whether one of the first `n` lines declares `symbol`.
pub open spec fn declared_before(lines: Seq<String>, n: int, symbol: Seq<char>) -> bool {
    exists|q: int| 0 <= q < n && q < lines.len() && declared_symbol(lines[q]@) == Some(symbol)
}

/// Whether a list of strings holds `s`.
pub open spec fn listed(v: Seq<String>, s: Seq<char>) -> bool {
    exists|i: int| 0 <= i < v.len() && v[i]@ == s
}

/// The symbols that the lines of a source file declare, in order of lines.
pub fn symbols(lines: &Vec<String>) -> (r: Vec<String>)
    ensures
        forall|s: Seq<char>| declares(lines@, s) <==> #[trigger] listed(r@, s),
{
    let mut out: Vec<String> = Vec::new();
    let mut j: usize = 0;
    while j < lines.len()
        invariant
            0 <= j <= lines@.len(),
            forall|s: Seq<char>| declared_before(lines@, j as int, s) <==> #[trigger] listed(out@, s),
        decreases lines@.len() - j,
    {
        let found = symbol_on_line(lines[j].as_str());
        let ghost before = out@;
        match found {
            Some(name) => {
                out.push(name);
            },
            None => {},
        }
        proof {
            assert forall|s: Seq<char>| declared_before(lines@, j + 1, s) <==> #[trigger] listed(out@, s) by {
                if declared_before(lines@, j + 1, s) {
                    let q = choose|q: int| 0 <= q < j + 1 && q < lines@.len() && declared_symbol(lines@[q]@) == Some(s);
                    if q < j {
                        assert(declared_before(lines@, j as int, s));
                        assert(listed(before, s));
                        let i = choose|i: int| 0 <= i < before.len() && before[i]@ == s;
                        assert(out@[i] == before[i]);
                    } else {
                        assert(out@[before.len() as int]@ == s);
                    }
                }
                if listed(out@, s) {
                    let i = choose|i: int| 0 <= i < out@.len() && out@[i]@ == s;
                    if i < before.len() {
                        assert(before[i] == out@[i]);
                        assert(listed(before, s));
                        assert(declared_before(lines@, j as int, s));
                    } else {
                        assert(declared_symbol(lines@[j as int]@) == Some(s));
                    }
                }
            }
        }
        j = j + 1;
    }
    proof {
        assert forall|s: Seq<char>| declares(lines@, s) <==> #[trigger] listed(out@, s) by {
            assert(declares(lines@, s) <==> declared_before(lines@, lines@.len() as int, s));
        }
    }
    out
}

/// Whether a list of symbols holds `name`.
pub fn holds_symbol(symbols: &Vec<String>, name: &str) -> (r: bool)
    ensures
        r == exists|i: int| 0 <= i < symbols@.len() && symbols@[i]@ == name@,
{
    let mut i: usize = 0;
    while i < symbols.len()
        invariant
            0 <= i <= symbols@.len(),
            forall|j: int| 0 <= j < i ==> symbols@[j]@ != name@,
        decreases symbols@.len() - i,
    {
        if crate::text::str_eq(symbols[i].as_str(), name) {
            return true;
        }
        i = i + 1;
    }
    false
}

/// A whitelisted source file as found on disk: the path it resolved to, and
/// its lines, or nothing when it could not be read.
pub struct SourceFile {
    pub path: String,
    pub lines: Option<Vec<String>>,
}

/// The `src` path of a whitelist entry, if it has one.
pub open spec fn entry_src(entry: Map<Seq<char>, Value>) -> Option<Seq<char>> {
    if entry.contains_key("src"@) && entry["src"@] is Str {
        Some(entry["src"@]->Str_0)
    } else {
        None
    }
}

/// Whether the `i`-th whitelist entry provides `action`: it names a source
/// file, that file was read, and it declares the action.
pub open spec fn provides(whitelist: Seq<Context>, files: Seq<SourceFile>, i: int, action: Seq<char>) -> bool {
    &&& 0 <= i < whitelist.len()
    &&& i < files.len()
    &&& entry_src(whitelist[i]@) is Some
    &&& files[i].lines matches Some(ls) && declares(ls@, action)
}

/// The characters of an optional string.
pub open spec fn opt_view(o: Option<String>) -> Option<Seq<char>> {
    match o {
        Some(s) => Some(s@),
        None => None,
    }
}

/// The `src` paths of the whitelist entries, where each names one.
pub fn whitelist_sources(whitelist: &Vec<Context>) -> (r: Vec<Option<String>>)
    ensures
        r@.len() == whitelist@.len(),
        forall|i: int| 0 <= i < r@.len() ==> opt_view(#[trigger] r@[i]) == entry_src(whitelist@[i]@),
{
    let mut out: Vec<Option<String>> = Vec::new();
    let mut i: usize = 0;
    while i < whitelist.len()
        invariant
            0 <= i <= whitelist@.len(),
            out@.len() == i,
            forall|j: int| 0 <= j < i ==> opt_view(#[trigger] out@[j]) == entry_src(whitelist@[j]@),
        decreases whitelist@.len() - i,
    {
        let s = match whitelist[i].get("src") {
            Some(CtxObj::Str(s)) => Some(s.clone()),
            _ => None,
        };
        out.push(s);
        i = i + 1;
    }
    out
}

/// Whether the `i`-th whitelist entry is the first that provides `action`.
pub open spec fn first_provider(whitelist: Seq<Context>, files: Seq<SourceFile>, i: int, action: Seq<char>) -> bool {
    &&& provides(whitelist, files, i, action)
    &&& forall|j: int| 0 <= j < i ==> !provides(whitelist, files, j, action)
}

/// What the user-action resolver finds for a step: nothing without an action
/// string; else the first entry that provides the action, with `src` rewritten
/// to the path its file was found at, and nothing when no entry provides it.
pub open spec fn user_resolution(
    step: Map<Seq<char>, Value>,
    whitelist: Seq<Context>,
    files: Seq<SourceFile>,
    found: Option<Context>,
) -> bool {
    match action_of(step) {
        None => found is None,
        Some(a) => match found {
            None => forall|i: int| !provides(whitelist, files, i, a),
            Some(src) => exists|i: int|
                #[trigger] first_provider(whitelist, files, i, a) && src@ == whitelist[i]@.insert(
                    "src"@,
                    Value::Str(files[i].path@),
                ),
        },
    }
}

/// The user-action resolver: the step's action string, and the first whitelist
/// entry whose source file declares it, with `src` rewritten to the path that
/// file was found at.
pub fn resolve(ctx_step: &Context, whitelist: &Vec<Context>, files: &Vec<SourceFile>) -> (r: (
    Option<String>,
    Option<Context>,
))
    ensures
        opt_view(r.0) == action_of(ctx_step@),
        user_resolution(ctx_step@, whitelist@, files@, r.1),
{
    let action = match ctx_step.get("action") {
        Some(CtxObj::Str(a)) => a,
        _ => {
            return (None, None);
        },
    };
    let ghost a = action@;
    let mut i: usize = 0;
    while i < whitelist.len()
        invariant
            0 <= i <= whitelist@.len(),
            action_of(ctx_step@) == Some(a),
            action@ == a,
            forall|j: int| 0 <= j < i ==> !provides(whitelist@, files@, j, a),
        decreases whitelist@.len() - i,
    {
        if i < files.len() {
            match whitelist[i].get("src") {
                Some(CtxObj::Str(_)) => {
                    match &files[i].lines {
                        Some(lines) => {
                            let declared = symbols(lines);
                            if holds_symbol(&declared, action.as_str()) {
                                let path = files[i].path.clone();
                                let src = whitelist[i].set("src", CtxObj::Str(path));
                                proof {
                                    assert(listed(declared@, a));
                                    assert(declares(lines@, a));
                                    assert(first_provider(whitelist@, files@, i as int, a));
                                    assert(action_of(ctx_step@)->Some_0 == a);
                                }
                                return (Some(action.clone()), Some(src));
                            }
                            proof {
                                assert(!listed(declared@, a));
                                assert(!declares(lines@, a));
                            }
                        },
                        None => {},
                    }
                },
                _ => {},
            }
        }
        proof {
            assert(!provides(whitelist@, files@, i as int, a));
        }
        i = i + 1;
    }
    (Some(action.clone()), None)
}

} // verus!
