use vstd::prelude::*;

verus! {

/// The mathematical value of a `CtxObj`: strings are character sequences,
/// arrays are sequences of values, and a nested context is its map of bindings.
pub enum Value {
    Str(Seq<char>),
    Int(i64),
    Real(Seq<char>),
    Bool(bool),
    Array(Seq<Value>),
    Context(Map<Seq<char>, Value>),
    Null,
}

/// A tagged value held by a context.
///
/// A real number is kept as the decimal text it was written with.
#[derive(Debug, PartialEq)]
pub enum CtxObj {
    Str(String),
    Int(i64),
    Real(String),
    Bool(bool),
    Array(Vec<CtxObj>),
    Context(Context),
    Null,
}

/// An immutable mapping from string keys to tagged values.
///
/// Every operation returns a new context and leaves the receiver untouched;
/// the bindings live in a persistent hash trie, so copies share structure.
#[verifier::external_body]
#[derive(Debug, PartialEq)]
pub struct Context {
    data: rpds::HashTrieMap<String, CtxObj>,
}

/// What a context holds: its bindings, with each value in its mathematical form.
pub uninterp spec fn context_bindings(c: Context) -> Map<Seq<char>, Value>;

impl View for Context {
    type V = Map<Seq<char>, Value>;

    open spec fn view(&self) -> Map<Seq<char>, Value> {
        context_bindings(*self)
    }
}

impl View for CtxObj {
    type V = Value;

    open spec fn view(&self) -> Value
        decreases self,
    {
        match self {
            CtxObj::Str(s) => Value::Str(s@),
            CtxObj::Int(i) => Value::Int(*i),
            CtxObj::Real(t) => Value::Real(t@),
            CtxObj::Bool(b) => Value::Bool(*b),
            CtxObj::Array(v) => Value::Array(views_of(v, v@.len() as int)),
            CtxObj::Context(c) => Value::Context(context_bindings(*c)),
            CtxObj::Null => Value::Null,
        }
    }
}

/// The values of the first `n` elements of `v`.
pub open spec fn views_of(v: &Vec<CtxObj>, n: int) -> Seq<Value>
    decreases v, n,
{
    if n <= 0 || n > v@.len() {
        Seq::empty()
    } else {
        views_of(v, n - 1).push(v@[n - 1].view())
    }
}

/// `views_of` holds one value per element, in order.
pub proof fn lemma_views_of(v: &Vec<CtxObj>, n: int)
    requires
        0 <= n <= v@.len(),
    ensures
        views_of(v, n).len() == n,
        forall|j: int| 0 <= j < n ==> #[trigger] views_of(v, n)[j] == v@[j]@,
    decreases n,
{
    if n > 0 {
        lemma_views_of(v, n - 1);
        assert(views_of(v, n) == views_of(v, n - 1).push(v@[n - 1]@));
    }
}

/// The contexts held by an array value, when every element is a context.
pub open spec fn all_contexts(s: Seq<Value>) -> bool {
    forall|i: int| 0 <= i < s.len() ==> (#[trigger] s[i]) is Context
}

/// Why a typed fetch failed.
#[derive(Debug, PartialEq, Eq, Structural)]
pub enum UnpackError {
    Missing,
    WrongType,
}

impl CtxObj {
    /// A copy of this value.
    pub fn duplicate(&self) -> (r: CtxObj)
        ensures
            r@ == self@,
        decreases self,
    {
        match self {
            CtxObj::Str(s) => CtxObj::Str(s.clone()),
            CtxObj::Int(i) => CtxObj::Int(*i),
            CtxObj::Real(t) => CtxObj::Real(t.clone()),
            CtxObj::Bool(b) => CtxObj::Bool(*b),
            CtxObj::Null => CtxObj::Null,
            CtxObj::Context(c) => CtxObj::Context(c.share()),
            CtxObj::Array(v) => {
                let mut out: Vec<CtxObj> = Vec::new();
                let mut i: usize = 0;
                while i < v.len()
                    invariant
                        *self == CtxObj::Array(*v),
                        0 <= i <= v@.len(),
                        out@.len() == i,
                        forall|j: int| 0 <= j < i ==> (#[trigger] out@[j])@ == v@[j]@,
                    decreases v@.len() - i,
                {
                    proof {
                        vstd::std_specs::vec::axiom_vec_index_decreases(*v, i as int);
                        assert(decreases_to!(*self => self->Array_0));
                    }
                    let item = v[i].duplicate();
                    out.push(item);
                    i = i + 1;
                }
                proof {
                    lemma_views_of(&out, out@.len() as int);
                    lemma_views_of(v, v@.len() as int);
                    assert(views_of(&out, out@.len() as int) =~= views_of(v, v@.len() as int));
                }
                CtxObj::Array(out)
            },
        }
    }
}

impl Context {
    /// Relies on rpds::HashTrieMap::new: a new map holds no entry.
    #[verifier::external_body]
    fn empty() -> (r: Context)
        ensures
            context_bindings(r).dom() == Set::<Seq<char>>::empty(),
    {
        Context { data: rpds::HashTrieMap::new() }
    }

    /// Relies on rpds::HashTrieMap::clone: the copy shares the same trie.
    #[verifier::external_body]
    fn share(&self) -> (r: Context)
        ensures
            context_bindings(r) == context_bindings(*self),
    {
        Context { data: self.data.clone() }
    }

    /// Relies on rpds::HashTrieMap::get: the value bound to the key, if any.
    #[verifier::external_body]
    fn lookup(&self, key: &str) -> (r: Option<&CtxObj>)
        ensures
            r matches Some(v) ==> context_bindings(*self).contains_key(key@) && v@ == context_bindings(*self)[key@],
            r is None ==> !context_bindings(*self).contains_key(key@),
    {
        self.data.get(key)
    }

    /// Relies on rpds::HashTrieMap::insert: a new map with the key bound to the value.
    #[verifier::external_body]
    fn inserted(&self, key: &str, val: CtxObj) -> (r: Context)
        ensures
            context_bindings(r) == context_bindings(*self).insert(key@, val@),
    {
        Context { data: self.data.insert(key.to_owned(), val) }
    }

    /// Relies on rpds::HashTrieMap::remove: a new map without the key.
    #[verifier::external_body]
    fn removed(&self, key: &str) -> (r: Context)
        ensures
            context_bindings(r) == context_bindings(*self).remove(key@),
    {
        Context { data: self.data.remove(key) }
    }

    /// Relies on rpds::HashTrieMap::keys: each key once, in an unspecified order.
    #[verifier::external_body]
    fn key_list(&self) -> (r: Vec<String>)
        ensures
            forall|i: int, j: int| 0 <= i < j < r@.len() ==> r@[i]@ != r@[j]@,
            forall|i: int| 0 <= i < r@.len() ==> context_bindings(*self).contains_key(#[trigger] r@[i]@),
            forall|k: Seq<char>| #[trigger] context_bindings(*self).contains_key(k) ==> exists|i: int| 0 <= i < r@.len() && r@[i]@ == k,
    {
        self.data.keys().map(|k| k.clone()).collect()
    }

    /// The context with no binding.
    pub fn new() -> (r: Context)
        ensures
            r@ == Map::<Seq<char>, Value>::empty(),
    {
        let r = Context::empty();
        proof {
            assert(r@ =~= Map::<Seq<char>, Value>::empty());
        }
        r
    }

    /// A copy of this context; the two share their bindings.
    pub fn duplicate(&self) -> (r: Context)
        ensures
            r@ == self@,
    {
        self.share()
    }

    /// The value bound to `key`, if any.
    pub fn get(&self, key: &str) -> (r: Option<&CtxObj>)
        ensures
            r matches Some(v) ==> self@.contains_key(key@) && v@ == self@[key@],
            r is None ==> !self@.contains_key(key@),
    {
        self.lookup(key)
    }

    /// A copy of the value bound to `key`, if any.
    pub fn get_clone(&self, key: &str) -> (r: Option<CtxObj>)
        ensures
            r matches Some(v) ==> self@.contains_key(key@) && v@ == self@[key@],
            r is None ==> !self@.contains_key(key@),
    {
        match self.lookup(key) {
            Some(v) => Some(v.duplicate()),
            None => None,
        }
    }

    /// Whether `key` is bound.
    pub fn contains_key(&self, key: &str) -> (r: bool)
        ensures
            r == self@.contains_key(key@),
    {
        self.lookup(key).is_some()
    }

    /// A new context with `key` bound to `val`; an earlier binding is overwritten.
    pub fn set(&self, key: &str, val: CtxObj) -> (r: Context)
        ensures
            r@ == self@.insert(key@, val@),
    {
        self.inserted(key, val)
    }

    /// The same as `set`.
    pub fn assign(&self, key: &str, val: CtxObj) -> (r: Context)
        ensures
            r@ == self@.insert(key@, val@),
    {
        self.inserted(key, val)
    }

    /// `set` when a value is given, else an unchanged copy.
    pub fn set_opt(&self, key: &str, val: Option<CtxObj>) -> (r: Context)
        ensures
            val matches Some(v) ==> r@ == self@.insert(key@, v@),
            val is None ==> r@ == self@,
    {
        match val {
            Some(v) => self.inserted(key, v),
            None => self.share(),
        }
    }

    /// A new context without `key`.
    pub fn without(&self, key: &str) -> (r: Context)
        ensures
            r@ == self@.remove(key@),
    {
        self.removed(key)
    }

    /// The keys of this context, each once, in an unspecified order.
    pub fn keys(&self) -> (r: Vec<String>)
        ensures
            forall|i: int, j: int| 0 <= i < j < r@.len() ==> r@[i]@ != r@[j]@,
            forall|k: Seq<char>| self@.contains_key(k) <==> exists|i: int| 0 <= i < r@.len() && r@[i]@ == k,
    {
        let r = self.key_list();
        proof {
            assert forall|k: Seq<char>| self@.contains_key(k) <==> exists|i: int| 0 <= i < r@.len() && r@[i]@ == k by {
                if exists|i: int| 0 <= i < r@.len() && r@[i]@ == k {
                    let i = choose|i: int| 0 <= i < r@.len() && r@[i]@ == k;
                    assert(self@.contains_key(r@[i]@));
                }
            }
        }
        r
    }

    /// The right-biased merge: every key of either context, with the value of
    /// `another` wherever it binds the key.
    pub fn overlay(&self, another: &Context) -> (r: Context)
        ensures
            r@ == self@.union_prefer_right(another@),
    {
        let keys = another.key_list();
        let mut acc = self.share();
        let ghost mut seen: Set<Seq<char>> = Set::empty();
        let mut i: usize = 0;
        while i < keys.len()
            invariant
                0 <= i <= keys@.len(),
                forall|k: Seq<char>| seen.contains(k) <==> exists|j: int| 0 <= j < i && keys@[j]@ == k,
                forall|j: int| 0 <= j < keys@.len() ==> another@.contains_key(#[trigger] keys@[j]@),
                forall|a: int, b: int| 0 <= a < b < keys@.len() ==> keys@[a]@ != keys@[b]@,
                acc@ == self@.union_prefer_right(another@.restrict(seen)),
            decreases keys@.len() - i,
        {
            let key = &keys[i];
            let ghost k = key@;
            let v = match another.lookup(key.as_str()) {
                Some(v) => v.duplicate(),
                None => CtxObj::Null,
            };
            acc = acc.inserted(key.as_str(), v);
            proof {
                assert(another@.contains_key(k));
                let ghost old_seen = seen;
                seen = seen.insert(k);
                assert forall|kk: Seq<char>| seen.contains(kk) <==> exists|j: int| 0 <= j < i + 1 && keys@[j]@ == kk by {
                    if kk == k {
                        assert(keys@[i as int]@ == kk);
                    } else if old_seen.contains(kk) {
                        let j = choose|j: int| 0 <= j < i && keys@[j]@ == kk;
                        assert(0 <= j < i + 1 && keys@[j]@ == kk);
                    }
                }
                assert(acc@ =~= self@.union_prefer_right(another@.restrict(seen)));
            }
            i = i + 1;
        }
        proof {
            assert(seen =~= another@.dom());
            assert(another@.restrict(seen) =~= another@);
        }
        acc
    }

    /// The nested context bound to `key`, if the value there is a context.
    pub fn subcontext(&self, key: &str) -> (r: Option<Context>)
        ensures
            r matches Some(c) ==> self@.contains_key(key@) && self@[key@] == Value::Context(c@),
            r is None ==> !(self@.contains_key(key@) && self@[key@] is Context),
    {
        match self.lookup(key) {
            Some(CtxObj::Context(c)) => Some(c.share()),
            _ => None,
        }
    }

    /// The contexts held by the array bound to `key`, if that value is an
    /// array whose every element is a context.
    pub fn list_contexts(&self, key: &str) -> (r: Option<Vec<Context>>)
        ensures
            r matches Some(v) ==> self@.contains_key(key@) && self@[key@] is Array && {
                let s = self@[key@]->Array_0;
                &&& v@.len() == s.len()
                &&& forall|i: int| 0 <= i < s.len() ==> s[i] == Value::Context((#[trigger] v@[i])@)
            },
            r is None ==> !(self@.contains_key(key@) && self@[key@] is Array && all_contexts(
                self@[key@]->Array_0,
            )),
    {
        match self.lookup(key) {
            Some(CtxObj::Array(items)) => {
                let ghost s = self@[key@]->Array_0;
                proof {
                    lemma_views_of(items, items@.len() as int);
                }
                let mut out: Vec<Context> = Vec::new();
                let mut i: usize = 0;
                while i < items.len()
                    invariant
                        self@.contains_key(key@),
                        self@[key@] is Array,
                        s == self@[key@]->Array_0,
                        0 <= i <= items@.len(),
                        s.len() == items@.len(),
                        forall|j: int| 0 <= j < items@.len() ==> s[j] == (#[trigger] items@[j])@,
                        out@.len() == i,
                        forall|j: int| 0 <= j < i ==> s[j] == Value::Context((#[trigger] out@[j])@),
                    decreases items@.len() - i,
                {
                    match &items[i] {
                        CtxObj::Context(c) => {
                            out.push(c.share());
                        },
                        _ => {
                            proof {
                                assert(!(s[i as int] is Context));
                            }
                            return None;
                        },
                    }
                    i = i + 1;
                }
                Some(out)
            },
            _ => None,
        }
    }

    /// The string bound to `key`.
    pub fn unpack_str(&self, key: &str) -> (r: Result<String, UnpackError>)
        ensures
            r matches Ok(s) ==> self@.contains_key(key@) && self@[key@] == Value::Str(s@),
            r == Err::<String, UnpackError>(UnpackError::Missing) <==> !self@.contains_key(key@),
            r == Err::<String, UnpackError>(UnpackError::WrongType) <==> self@.contains_key(key@)
                && !(self@[key@] is Str),
    {
        match self.lookup(key) {
            Some(CtxObj::Str(s)) => Ok(s.clone()),
            Some(_) => Err(UnpackError::WrongType),
            None => Err(UnpackError::Missing),
        }
    }

    /// The integer bound to `key`.
    pub fn unpack_int(&self, key: &str) -> (r: Result<i64, UnpackError>)
        ensures
            r matches Ok(n) ==> self@.contains_key(key@) && self@[key@] == Value::Int(n),
            r == Err::<i64, UnpackError>(UnpackError::Missing) <==> !self@.contains_key(key@),
            r == Err::<i64, UnpackError>(UnpackError::WrongType) <==> self@.contains_key(key@)
                && !(self@[key@] is Int),
    {
        match self.lookup(key) {
            Some(CtxObj::Int(n)) => Ok(*n),
            Some(_) => Err(UnpackError::WrongType),
            None => Err(UnpackError::Missing),
        }
    }

    /// The boolean bound to `key`.
    pub fn unpack_bool(&self, key: &str) -> (r: Result<bool, UnpackError>)
        ensures
            r matches Ok(b) ==> self@.contains_key(key@) && self@[key@] == Value::Bool(b),
            r == Err::<bool, UnpackError>(UnpackError::Missing) <==> !self@.contains_key(key@),
            r == Err::<bool, UnpackError>(UnpackError::WrongType) <==> self@.contains_key(key@)
                && !(self@[key@] is Bool),
    {
        match self.lookup(key) {
            Some(CtxObj::Bool(b)) => Ok(*b),
            Some(_) => Err(UnpackError::WrongType),
            None => Err(UnpackError::Missing),
        }
    }
}

/// Overlay is associative: `(a ⨁ b) ⨁ c` and `a ⨁ (b ⨁ c)` bind every key to
/// the same value.
pub proof fn lemma_overlay_associative(a: Context, b: Context, c: Context)
    ensures
        a@.union_prefer_right(b@).union_prefer_right(c@) == a@.union_prefer_right(b@.union_prefer_right(c@)),
{
    assert(a@.union_prefer_right(b@).union_prefer_right(c@) =~= a@.union_prefer_right(b@.union_prefer_right(c@)));
}

/// Overlay is right-biased: every key of `b` has its value from `b` in `a ⨁ b`.
pub proof fn lemma_overlay_right_bias(a: Context, b: Context, k: Seq<char>)
    requires
        b@.contains_key(k),
    ensures
        a@.union_prefer_right(b@).contains_key(k),
        a@.union_prefer_right(b@)[k] == b@[k],
{
}

/// Overlay keeps the keys of `a` that `b` does not bind, with their values.
pub proof fn lemma_overlay_keeps_left(a: Context, b: Context, k: Seq<char>)
    requires
        a@.contains_key(k),
        !b@.contains_key(k),
    ensures
        a@.union_prefer_right(b@).contains_key(k),
        a@.union_prefer_right(b@)[k] == a@[k],
{
}

} // verus!
