//! Lexical environments: an arena of scope frames addressed by stable
//! indices. A frame maps names to objects and may enclose a parent frame;
//! `get` searches outward along the parent chain, `set` writes locally.
//! Function values capture the index of the frame active at their literal.

use vstd::prelude::*;
use vstd::string::*;

use crate::builtins::spec_builtin_arity;
use crate::object::{view_obj, ObjV, Object};

verus! {

/// One scope frame: its bindings, newest last, and its parent frame.
pub struct Frame {
    pub bindings: Vec<(String, Object)>,
    pub parent: Option<usize>,
}

/// Mathematical image of a frame.
#[verifier::ext_equal]
pub struct FrameV {
    pub bindings: Seq<(Seq<char>, ObjV)>,
    pub parent: Option<int>,
}

/// The view of a frame.
pub open spec fn view_frame(f: Frame) -> FrameV {
    FrameV {
        bindings: f.bindings@.map_values(|b: (String, Object)| (b.0@, view_obj(b.1))),
        parent: match f.parent {
            Some(p) => Some(p as int),
            None => None,
        },
    }
}

impl View for Frame {
    type V = FrameV;

    open spec fn view(&self) -> FrameV {
        view_frame(*self)
    }
}

/// The arena holding every frame created during an evaluation.
pub struct EnvArena {
    pub frames: Vec<Frame>,
}

impl View for EnvArena {
    type V = Seq<FrameV>;

    open spec fn view(&self) -> Seq<FrameV> {
        self.frames@.map_values(|f: Frame| view_frame(f))
    }
}

/// An object is well formed against an arena of `n` frames: every captured
/// environment index points into the arena, and every built-in function
/// object carries a registered name with its registered arity.
pub open spec fn obj_wf(v: ObjV, n: int) -> bool
    decreases v,
{
    match v {
        ObjV::Func { env, .. } => 0 <= env < n,
        ObjV::Arr(es) => forall|i: int| 0 <= i < es.len() ==> obj_wf(#[trigger] es[i], n),
        ObjV::Ret(inner) => obj_wf(*inner, n),
        ObjV::Core { name, arity } => spec_builtin_arity(name) == Some(arity),
        _ => true,
    }
}

/// A frame at index `idx` is well formed in an arena of `n` frames: its
/// parent stands strictly before it and every bound object is well formed.
pub open spec fn frame_wf(f: FrameV, idx: int, n: int) -> bool {
    &&& match f.parent {
        Some(p) => 0 <= p < idx,
        None => true,
    }
    &&& forall|i: int| 0 <= i < f.bindings.len() ==> obj_wf((#[trigger] f.bindings[i]).1, n)
}

/// Every frame of the arena is well formed.
pub open spec fn arena_wf(a: Seq<FrameV>) -> bool {
    forall|i: int| 0 <= i < a.len() ==> frame_wf(#[trigger] a[i], i, a.len() as int)
}

/// The object bound to a name in a single frame: the newest binding wins.
pub open spec fn frame_lookup(bs: Seq<(Seq<char>, ObjV)>, name: Seq<char>) -> Option<ObjV>
    decreases bs,
{
    if bs.len() == 0 {
        None
    } else if bs.last().0 == name {
        Some(bs.last().1)
    } else {
        frame_lookup(bs.drop_last(), name)
    }
}

/// The object a name denotes in an environment: the local frame first,
/// then outward along the parent chain.
pub open spec fn env_lookup(a: Seq<FrameV>, env: int, name: Seq<char>) -> Option<ObjV>
    decreases env,
{
    if 0 <= env < a.len() {
        match frame_lookup(a[env].bindings, name) {
            Some(v) => Some(v),
            None => match a[env].parent {
                Some(p) => if 0 <= p < env {
                    env_lookup(a, p, name)
                } else {
                    None
                },
                None => None,
            },
        }
    } else {
        None
    }
}

/// Well-formedness of an object is kept when the arena grows.
pub proof fn lemma_obj_wf_mono(v: ObjV, n: int, m: int)
    requires
        obj_wf(v, n),
        n <= m,
    ensures
        obj_wf(v, m),
    decreases v,
{
    match v {
        ObjV::Arr(es) => {
            assert forall|i: int| 0 <= i < es.len() implies obj_wf(#[trigger] es[i], m) by {
                lemma_obj_wf_mono(es[i], n, m);
            }
        },
        ObjV::Ret(inner) => {
            lemma_obj_wf_mono(*inner, n, m);
        },
        _ => {},
    }
}

/// A well-formed arena stays well formed when a frame with a valid parent
/// is appended.
pub proof fn lemma_arena_push_wf(a: Seq<FrameV>, f: FrameV)
    requires
        arena_wf(a),
        match f.parent {
            Some(p) => 0 <= p < a.len(),
            None => true,
        },
        forall|i: int| 0 <= i < f.bindings.len() ==> obj_wf((#[trigger] f.bindings[i]).1, a.len() + 1 as int),
    ensures
        arena_wf(a.push(f)),
{
    let b = a.push(f);
    assert forall|i: int| 0 <= i < b.len() implies frame_wf(#[trigger] b[i], i, b.len() as int) by {
        if i < a.len() {
            assert(frame_wf(a[i], i, a.len() as int));
            assert forall|j: int| 0 <= j < b[i].bindings.len() implies obj_wf(
                (#[trigger] b[i].bindings[j]).1,
                b.len() as int,
            ) by {
                lemma_obj_wf_mono(a[i].bindings[j].1, a.len() as int, b.len() as int);
            }
        }
    }
}

/// What a well-formed frame hands out is well formed.
pub proof fn lemma_frame_lookup_wf(bs: Seq<(Seq<char>, ObjV)>, name: Seq<char>, n: int)
    requires
        forall|i: int| 0 <= i < bs.len() ==> obj_wf((#[trigger] bs[i]).1, n),
    ensures
        match frame_lookup(bs, name) {
            Some(v) => obj_wf(v, n),
            None => true,
        },
    decreases bs,
{
    if bs.len() > 0 && bs.last().0 != name {
        lemma_frame_lookup_wf(bs.drop_last(), name, n);
    }
}

/// What a well-formed arena hands out is well formed.
pub proof fn lemma_env_lookup_wf(a: Seq<FrameV>, env: int, name: Seq<char>)
    requires
        arena_wf(a),
    ensures
        match env_lookup(a, env, name) {
            Some(v) => obj_wf(v, a.len() as int),
            None => true,
        },
    decreases env,
{
    if 0 <= env < a.len() {
        assert(frame_wf(a[env], env, a.len() as int));
        lemma_frame_lookup_wf(a[env].bindings, name, a.len() as int);
        match a[env].parent {
            Some(p) => {
                if 0 <= p < env {
                    lemma_env_lookup_wf(a, p, name);
                }
            },
            None => {},
        }
    }
}

impl EnvArena {
    /// An arena holding no frames yet.
    pub fn new() -> (r: EnvArena)
        ensures
            r@ =~= Seq::<FrameV>::empty(),
            arena_wf(r@),
    {
        EnvArena { frames: Vec::new() }
    }

    /// The number of frames.
    pub fn len(&self) -> (r: usize)
        ensures
            r == self@.len(),
    {
        self.frames.len()
    }

    /// Creates a fresh, empty top-level environment and hands back its
    /// index.
    pub fn new_environment(&mut self) -> (id: usize)
        requires
            arena_wf(old(self)@),
        ensures
            id == old(self)@.len(),
            final(self)@ == old(self)@.push(
                FrameV { bindings: Seq::empty(), parent: None },
            ),
            arena_wf(final(self)@),
    {
        let ghost olda = self@;
        let id = self.frames.len();
        let f = Frame { bindings: Vec::new(), parent: None };
        proof {
            lemma_arena_push_wf(olda, FrameV { bindings: Seq::empty(), parent: None });
            assert(f@ =~~= FrameV { bindings: Seq::empty(), parent: None });
        }
        self.frames.push(f);
        proof {
            assert(self@ =~~= olda.push(FrameV { bindings: Seq::empty(), parent: None }));
        }
        id
    }

    /// Creates a fresh, empty environment enclosed by `outer` and hands
    /// back its index.
    pub fn new_enclosed_environment(&mut self, outer: usize) -> (id: usize)
        requires
            arena_wf(old(self)@),
            outer < old(self)@.len(),
        ensures
            id == old(self)@.len(),
            final(self)@ == old(self)@.push(
                FrameV { bindings: Seq::empty(), parent: Some(outer as int) },
            ),
            arena_wf(final(self)@),
    {
        let ghost olda = self@;
        let id = self.frames.len();
        let f = Frame { bindings: Vec::new(), parent: Some(outer) };
        proof {
            lemma_arena_push_wf(olda, FrameV { bindings: Seq::empty(), parent: Some(outer as int) });
            assert(f@ =~~= FrameV { bindings: Seq::empty(), parent: Some(outer as int) });
        }
        self.frames.push(f);
        proof {
            assert(self@ =~~= olda.push(FrameV { bindings: Seq::empty(), parent: Some(outer as int) }));
        }
        id
    }

    /// Looks a name up, searching the named environment and then its
    /// ancestors; hands back a copy of the bound object, or nothing.
    #[verifier::loop_isolation(false)]
    pub fn get(&self, env: usize, name: &String) -> (r: Option<Object>)
        requires
            arena_wf(self@),
            env < self@.len(),
        ensures
            match env_lookup(self@, env as int, name@) {
                Some(v) => r is Some && r->0@ == v,
                None => r is None,
            },
    {
        let mut cur: usize = env;
        loop
            invariant
                arena_wf(self@),
                cur < self@.len(),
                env_lookup(self@, cur as int, name@) == env_lookup(self@, env as int, name@),
            decreases cur,
        {
            let frame = &self.frames[cur];
            let ghost bs = self@[cur as int].bindings;
            let mut j: usize = frame.bindings.len();
            proof {
                assert(bs =~= frame.bindings@.map_values(
                    |b: (String, Object)| (b.0@, view_obj(b.1))));
                assert(frame_lookup(bs.take(j as int), name@) == frame_lookup(bs, name@))
                by {
                    assert(bs.take(j as int) =~= bs);
                }
            }
            while j > 0
                invariant
                    j <= frame.bindings.len(),
                    frame_lookup(bs.take(j as int), name@) == frame_lookup(bs, name@),
                decreases j,
            {
                proof {
                    assert(bs.take(j as int).last() == bs[j - 1]);
                    assert(bs.take(j as int).drop_last() =~= bs.take(j - 1));
                }
                if frame.bindings[j - 1].0.eq(name) {
                    let found = frame.bindings[j - 1].1.duplicate();
                    return Some(found);
                }
                j = j - 1;
            }
            proof {
                assert(bs.take(0) =~= Seq::<(Seq<char>, ObjV)>::empty());
            }
            match frame.parent {
                Some(p) => {
                    cur = p;
                },
                None => {
                    return None;
                },
            }
        }
    }

    /// Binds a name in the named environment, shadowing any older binding
    /// there; ancestors are never written.
    pub fn set(&mut self, env: usize, name: String, value: Object)
        requires
            arena_wf(old(self)@),
            env < old(self)@.len(),
            obj_wf(value@, old(self)@.len() as int),
        ensures
            final(self)@ == old(self)@.update(
                env as int,
                FrameV {
                    bindings: old(self)@[env as int].bindings.push((name@, value@)),
                    parent: old(self)@[env as int].parent,
                },
            ),
            arena_wf(final(self)@),
    {
        let ghost olda = self@;
        let mut f = self.frames.remove(env);
        f.bindings.push((name, value));
        self.frames.insert(env, f);
        proof {
            assert(self@ =~~= olda.update(
                env as int,
                FrameV {
                    bindings: olda[env as int].bindings.push((name@, value@)),
                    parent: olda[env as int].parent,
                },
            ));
            let newa = self@;
            assert forall|i: int| 0 <= i < newa.len() implies frame_wf(
                #[trigger] newa[i],
                i,
                newa.len() as int,
            ) by {
                assert(frame_wf(olda[i], i, olda.len() as int));
                if i == env {
                    assert(forall|j: int|
                        0 <= j < newa[i].bindings.len() - 1 ==> newa[i].bindings[j]
                            == olda[i].bindings[j]);
                }
            }
        }
    }
}

} // verus!
