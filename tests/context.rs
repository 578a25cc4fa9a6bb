use playbook::context::UnpackError;
use playbook::{Context, CtxObj};

fn ints(pairs: &[(&str, i64)]) -> Context {
    let mut c = Context::new();
    for (k, v) in pairs {
        c = c.set(k, CtxObj::Int(*v));
    }
    c
}

#[test]
fn multiple_overwrites() {
    let a = ints(&[("a", 1), ("b", 0)]);
    let b = ints(&[("a", 0), ("b", 1)]);
    let c = a.overlay(&b);
    assert_eq!(c, b);
}

#[test]
fn single_overwrite() {
    let a = ints(&[("a", 1), ("b", 0)]);
    let b = ints(&[("b", 1)]);
    let c = a.overlay(&b);
    assert_eq!(c, ints(&[("a", 1), ("b", 1)]));
}

#[test]
fn insertion() {
    let a = ints(&[("a", 1), ("b", 0)]);
    let b = ints(&[("c", 1)]);
    let c = a.overlay(&b);
    assert_eq!(c, ints(&[("a", 1), ("b", 0), ("c", 1)]));
}

#[test]
fn overlay_is_associative_on_keys() {
    let a = ints(&[("x", 1), ("y", 1), ("z", 1)]);
    let b = ints(&[("y", 2), ("w", 2)]);
    let c = ints(&[("z", 3), ("w", 3), ("v", 3)]);
    let left = a.overlay(&b).overlay(&c);
    let right = a.overlay(&b.overlay(&c));
    assert_eq!(left, right);
    assert_eq!(left.get("x"), Some(&CtxObj::Int(1)));
    assert_eq!(left.get("y"), Some(&CtxObj::Int(2)));
    assert_eq!(left.get("z"), Some(&CtxObj::Int(3)));
    assert_eq!(left.get("w"), Some(&CtxObj::Int(3)));
    assert_eq!(left.get("v"), Some(&CtxObj::Int(3)));
}

#[test]
fn overlay_prefers_the_right_side() {
    let a = ints(&[("k", 1), ("only_a", 7)]);
    let b = Context::new().set("k", CtxObj::Str(String::from("from b")));
    let c = a.overlay(&b);
    assert_eq!(c.get("k"), b.get("k"));
    assert_eq!(c.get("only_a"), Some(&CtxObj::Int(7)));
}

#[test]
fn overlay_leaves_its_operands_unchanged() {
    let a = ints(&[("a", 1), ("b", 0)]);
    let b = ints(&[("b", 5), ("c", 6)]);
    let _c = a.overlay(&b);
    assert_eq!(a, ints(&[("a", 1), ("b", 0)]));
    assert_eq!(b, ints(&[("b", 5), ("c", 6)]));
    assert_eq!(a.get("c"), None);
}

#[test]
fn overlay_with_empty_contexts() {
    let a = ints(&[("a", 1)]);
    assert_eq!(a.overlay(&Context::new()), a);
    assert_eq!(Context::new().overlay(&a), a);
}

#[test]
fn set_without_and_set_opt() {
    let a = ints(&[("a", 1)]);
    let b = a.set("a", CtxObj::Bool(true));
    assert_eq!(b.get("a"), Some(&CtxObj::Bool(true)));
    assert_eq!(a.get("a"), Some(&CtxObj::Int(1)));
    let c = b.without("a");
    assert_eq!(c.get("a"), None);
    assert_eq!(c.keys().len(), 0);
    assert_eq!(a.set_opt("z", None), a);
    assert_eq!(a.set_opt("z", Some(CtxObj::Null)).get("z"), Some(&CtxObj::Null));
    assert_eq!(a.assign("q", CtxObj::Int(4)).get("q"), Some(&CtxObj::Int(4)));
}

#[test]
fn typed_fetches() {
    let c = Context::new()
        .set("s", CtxObj::Str(String::from("text")))
        .set("n", CtxObj::Int(-3))
        .set("b", CtxObj::Bool(false));
    assert_eq!(c.unpack_str("s"), Ok(String::from("text")));
    assert_eq!(c.unpack_int("n"), Ok(-3));
    assert_eq!(c.unpack_bool("b"), Ok(false));
    assert_eq!(c.unpack_str("n"), Err(UnpackError::WrongType));
    assert_eq!(c.unpack_int("missing"), Err(UnpackError::Missing));
}

#[test]
fn subcontexts_and_lists() {
    let inner = ints(&[("x", 1)]);
    let c = Context::new()
        .set("inner", CtxObj::Context(inner.duplicate()))
        .set("list", CtxObj::Array(vec![CtxObj::Context(ints(&[("a", 1)])), CtxObj::Context(ints(&[("b", 2)]))]))
        .set("mixed", CtxObj::Array(vec![CtxObj::Context(ints(&[("a", 1)])), CtxObj::Int(3)]))
        .set("n", CtxObj::Int(0));
    assert_eq!(c.subcontext("inner"), Some(inner));
    assert_eq!(c.subcontext("n"), None);
    let list = c.list_contexts("list").unwrap();
    assert_eq!(list, vec![ints(&[("a", 1)]), ints(&[("b", 2)])]);
    assert_eq!(c.list_contexts("mixed"), None);
    assert_eq!(c.list_contexts("n"), None);
}

#[test]
fn copies_are_equal() {
    let v = CtxObj::Array(vec![
        CtxObj::Str(String::from("a")),
        CtxObj::Real(String::from("0.5")),
        CtxObj::Context(ints(&[("k", 2)])),
        CtxObj::Null,
    ]);
    assert_eq!(v.duplicate(), v);
    let c = Context::new().set("v", v.duplicate());
    assert_eq!(c.get_clone("v"), Some(v));
    assert_eq!(c.get_clone("w"), None);
}
