use vstd::prelude::*;
use vstd::string::*;
use crate::text::contains_char;

verus! {

/// An argument as it stands on a printed command line: in double quotes when
/// it holds a space.
pub open spec fn quote_arg(s: Seq<char>) -> Seq<char> {
    if s.contains(' ') {
        seq!['"'] + s + seq!['"']
    } else {
        s
    }
}

/// The printed command line: the quoted arguments joined by single spaces.
pub open spec fn command_line(args: Seq<Seq<char>>) -> Seq<char>
    decreases args.len(),
{
    if args.len() == 0 {
        Seq::empty()
    } else if args.len() == 1 {
        quote_arg(args[0])
    } else {
        command_line(args.drop_last()) + seq![' '] + quote_arg(args.last())
    }
}

/// The character sequences of a list of strings.
pub open spec fn views(v: Seq<String>) -> Seq<Seq<char>> {
    v.map_values(|s: String| s@)
}

/// `s` quoted for a printed command line.
pub fn quote(s: &str) -> (r: String)
    ensures
        r@ == quote_arg(s@),
{
    if contains_char(s, ' ') {
        let q = "\"";
        proof {
            reveal_strlit("\"");
        }
        let mut r = String::from_str(q);
        r.append(s);
        r.append(q);
        r
    } else {
        String::from_str(s)
    }
}

/// Joins the arguments into one printable command line, quoting each one
/// that holds a space.
pub fn format_cmd(cmd: &Vec<String>) -> (r: String)
    ensures
        r@ == command_line(views(cmd@)),
{
    let mut out = String::new();
    let mut i: usize = 0;
    while i < cmd.len()
        invariant
            0 <= i <= cmd@.len(),
            out@ == command_line(views(cmd@.subrange(0, i as int))),
        decreases cmd@.len() - i,
    {
        let q = quote(cmd[i].as_str());
        proof {
            let pre = views(cmd@.subrange(0, i as int));
            let next = views(cmd@.subrange(0, i + 1));
            assert(next.drop_last() =~= pre);
            assert(next.last() == cmd@[i as int]@);
        }
        if i == 0 {
            out = q;
        } else {
            let sp = " ";
            proof {
                reveal_strlit(" ");
            }
            out.append(sp);
            out.append(q.as_str());
        }
        i = i + 1;
    }
    proof {
        assert(cmd@.subrange(0, cmd@.len() as int) =~= cmd@);
    }
    out
}

/// A list of strings with one more at its end.
pub fn push_str(v: &mut Vec<String>, s: &str)
    ensures
        final(v)@.len() == old(v)@.len() + 1,
        views(final(v)@) == views(old(v)@).push(s@),
{
    v.push(String::from_str(s));
    proof {
        assert(views(final(v)@) =~= views(old(v)@).push(s@));
    }
}

/// A list of strings with one more at its end.
pub fn push_string(v: &mut Vec<String>, s: String)
    ensures
        final(v)@.len() == old(v)@.len() + 1,
        views(final(v)@) == views(old(v)@).push(s@),
{
    let ghost sv = s@;
    v.push(s);
    proof {
        assert(views(final(v)@) =~= views(old(v)@).push(sv));
    }
}

} // verus!
