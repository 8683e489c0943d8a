use vstd::prelude::*;
use crate::class::{ClassType, ClassTypeV};
use crate::module::ModuleUID;
use crate::module_scope::{GlobalKind, GlobalV, ParserModuleScope, ScopeGetResult, ScopeGetV, global_get, globals_map};
use crate::scope_storage::{ScopeNames, ScopeTypes, names_at, names_len, names_new, names_push, scope_names, scope_types, types_at, types_len, types_new, types_push, SCOPE_LIMIT};
use crate::tokens::{Token, TokenKind, Tokens};
use crate::types::{TypeKind, TypeV};

verus! {

/// The declarations of one block of code, and the type that its `return` statements give.
pub struct ScopeFrame {
    pub names: ScopeNames,
    pub types: ScopeTypes,
    pub eval_type: TypeKind,
}

pub struct FrameV {
    pub names: Seq<Seq<char>>,
    pub types: Seq<TypeV>,
    pub eval_type: TypeV,
}

impl View for ScopeFrame {
    type V = FrameV;

    open spec fn view(&self) -> FrameV {
        FrameV { names: scope_names(self.names), types: scope_types(self.types), eval_type: self.eval_type@ }
    }
}

pub open spec fn frames_view(s: Seq<ScopeFrame>) -> Seq<FrameV> {
    s.map_values(|f: ScopeFrame| f@)
}

/// The type of the latest declaration of `name` in one block.
pub open spec fn frame_lookup(names: Seq<Seq<char>>, types: Seq<TypeV>, name: Seq<char>) -> Option<TypeV>
    decreases names.len(),
{
    if names.len() == 0 {
        None
    } else if names.last() == name {
        Some(types[names.len() - 1])
    } else {
        frame_lookup(names.drop_last(), types, name)
    }
}

/// The type of `name` in the innermost block that declares it.
pub open spec fn frames_lookup(frames: Seq<FrameV>, name: Seq<char>) -> Option<TypeV>
    decreases frames.len(),
{
    if frames.len() == 0 {
        None
    } else {
        match frame_lookup(frames.last().names, frames.last().types, name) {
            Some(t) => Some(t),
            None => frames_lookup(frames.drop_last(), name),
        }
    }
}

/// The scope used while parsing code inside definitions: the blocks that enclose the current
/// point, innermost last, over the global scope of the module.
pub struct ParserScope<'a> {
    pub module: &'a ParserModuleScope,
    pub module_uid: ModuleUID,
    pub frames: Vec<ScopeFrame>,
}

impl<'a> ParserScope<'a> {
    pub open spec fn frames_v(&self) -> Seq<FrameV> {
        frames_view(self.frames@)
    }

    /// Every block holds as many types as names.
    pub open spec fn wf(&self) -> bool {
        &&& self.frames@.len() > 0
        &&& forall|i: int| 0 <= i < self.frames@.len() ==>
                (#[trigger] scope_names(self.frames@[i].names)).len() == scope_types(self.frames@[i].types).len()
    }

    /// What `name` gives in this scope: the innermost local declaration, else the globals.
    pub open spec fn lookup(&self, name: Seq<char>) -> ScopeGetV {
        match frames_lookup(self.frames_v(), name) {
            Some(t) => ScopeGetV::Ref(self.module_uid.0, t),
            None => global_get(self.module.map(), name),
        }
    }

    /// The scope of a definition of `module`, with one empty block.
    pub fn new_module_child(module: &'a ParserModuleScope) -> (r: ParserScope<'a>)
        ensures
            r.module == module,
            r.module_uid == module.uid,
            r.wf(),
            r.frames@.len() == 1,
            r.frames_v()[0].names.len() == 0,
            r.frames_v()[0].eval_type == TypeV::Nothing,
            r.frames_v() == seq![FrameV { names: Seq::empty(), types: Seq::empty(), eval_type: TypeV::Nothing }],
    {
        let mut frames: Vec<ScopeFrame> = Vec::new();
        frames.push(ScopeFrame { names: names_new(), types: types_new(), eval_type: TypeKind::Nothing });
        let r = ParserScope { module, module_uid: module.uid, frames };
        proof {
            assert(r.frames_v() =~= seq![FrameV { names: Seq::empty(), types: Seq::empty(), eval_type: TypeV::Nothing }]);
        }
        r
    }

    /// Opens a new, empty block inside the current one.
    pub fn new_child(&mut self)
        requires
            old(self).wf(),
        ensures
            final(self).wf(),
            final(self).module == old(self).module,
            final(self).module_uid == old(self).module_uid,
            final(self).frames_v() == old(self).frames_v().push(FrameV { names: Seq::empty(), types: Seq::empty(), eval_type: TypeV::Nothing }),
    {
        let f = ScopeFrame { names: names_new(), types: types_new(), eval_type: TypeKind::Nothing };
        self.frames.push(f);
        proof {
            assert(self.frames_v() =~= old(self).frames_v().push(FrameV { names: Seq::empty(), types: Seq::empty(), eval_type: TypeV::Nothing }));
        }
    }

    /// Closes the current block and gives it back.
    pub fn close_child(&mut self) -> (r: ScopeFrame)
        requires
            old(self).wf(),
            old(self).frames@.len() > 1,
        ensures
            final(self).wf(),
            final(self).module == old(self).module,
            final(self).module_uid == old(self).module_uid,
            final(self).frames_v() == old(self).frames_v().drop_last(),
            r@ == old(self).frames_v().last(),
    {
        let f = self.frames.pop().unwrap();
        proof {
            assert(self.frames_v() =~= old(self).frames_v().drop_last());
        }
        f
    }

    /// Declares `name` with type `type_kind` in the current block.
    pub fn declare(&mut self, name: String, type_kind: TypeKind)
        requires
            old(self).wf(),
            old(self).frames_v().last().names.len() < SCOPE_LIMIT,
        ensures
            final(self).wf(),
            final(self).module == old(self).module,
            final(self).module_uid == old(self).module_uid,
            final(self).frames_v() == old(self).frames_v().update(
                old(self).frames_v().len() - 1,
                FrameV {
                    names: old(self).frames_v().last().names.push(name@),
                    types: old(self).frames_v().last().types.push(type_kind@),
                    eval_type: old(self).frames_v().last().eval_type,
                },
            ),
            final(self).frames_v().len() == old(self).frames_v().len(),
            final(self).frames_v().drop_last() == old(self).frames_v().drop_last(),
            final(self).top().names == old(self).top().names.push(name@),
            final(self).top().eval_type == old(self).top().eval_type,
    {
        let ghost old_frames = self.frames@;
        let mut f = self.frames.pop().unwrap();
        names_push(&mut f.names, name);
        types_push(&mut f.types, type_kind);
        self.frames.push(f);
        proof {
            assert(self.frames@ == old_frames.update(old_frames.len() - 1, f));
            assert(self.frames_v() =~= old(self).frames_v().update(
                old(self).frames_v().len() - 1,
                FrameV {
                    names: old(self).frames_v().last().names.push(name@),
                    types: old(self).frames_v().last().types.push(type_kind@),
                    eval_type: old(self).frames_v().last().eval_type,
                },
            ));
            assert(self.frames_v().drop_last() =~= old(self).frames_v().drop_last());
        }
    }

    /// Looks `name` up: the latest declaration in the innermost block that has one, else the
    /// globals of the module.
    pub fn get(&self, name: &String) -> (r: ScopeGetResult)
        requires
            self.wf(),
        ensures
            r@ == self.lookup(name@),
    {
        let mut fi = self.frames.len();
        proof {
            assert(self.frames_v().take(fi as int) =~= self.frames_v());
        }
        while fi > 0
            invariant
                fi <= self.frames@.len(),
                self.wf(),
                frames_lookup(self.frames_v(), name@) == frames_lookup(self.frames_v().take(fi as int), name@),
            decreases fi,
        {
            let k = fi - 1;
            let frame = &self.frames[k];
            proof {
                assert(scope_names(self.frames@[k as int].names).len() == scope_types(self.frames@[k as int].types).len());
            }
            let found = find_in_frame(frame, name);
            proof {
                let fr = self.frames_v().take(fi as int);
                assert(fr.last() == frame@);
                assert(fr.drop_last() == self.frames_v().take(k as int));
            }
            match found {
                Some(t) => {
                    return ScopeGetResult::Ref(self.module_uid, t);
                },
                None => {},
            }
            fi = k;
        }
        proof {
            assert(self.frames_v().take(0) =~= Seq::<FrameV>::empty());
        }
        self.module.get(name)
    }
}

/// The type of the latest declaration of `name` in one block.
fn find_in_frame(frame: &ScopeFrame, name: &String) -> (r: Option<TypeKind>)
    requires
        scope_names(frame.names).len() == scope_types(frame.types).len(),
    ensures
        r matches Some(t) ==> frame_lookup(frame@.names, frame@.types, name@) == Some(t@),
        r is None ==> frame_lookup(frame@.names, frame@.types, name@) is None,
{
    let n = names_len(&frame.names);
    let mut i = n;
    proof {
        assert(frame@.names.take(i as int) =~= frame@.names);
    }
    while i > 0
        invariant
            i <= n,
            n == scope_names(frame.names).len(),
            n == scope_types(frame.types).len(),
            frame_lookup(frame@.names, frame@.types, name@) == frame_lookup(frame@.names.take(i as int), frame@.types, name@),
        decreases i,
    {
        let k = i - 1;
        let nm = names_at(&frame.names, k);
        proof {
            let ns = frame@.names.take(i as int);
            assert(ns.last() == frame@.names[k as int]);
            assert(ns.drop_last() == frame@.names.take(k as int));
        }
        if *nm == *name {
            let t = types_at(&frame.types, k);
            return Some(t.clone_type());
        }
        i = k;
    }
    proof {
        assert(frame@.names.take(0) =~= Seq::<Seq<char>>::empty());
    }
    None
}

impl<'a> ParserScope<'a> {
    /// The innermost block.
    pub open spec fn top(&self) -> FrameV {
        self.frames_v().last()
    }

    /// What the scope gives for token `t` where it is a name.
    pub open spec fn token_lookup(&self, t: Token) -> ScopeGetV {
        match t.kind {
            TokenKind::Symbol(name) => self.lookup(name@),
            _ => ScopeGetV::NotFound,
        }
    }

    /// The innermost block can take one declaration per token still to read.
    pub open spec fn room(&self, tokens: Tokens) -> bool {
        self.top().names.len() + tokens.remaining() < SCOPE_LIMIT
    }

    /// What parsing keeps: the blocks outside the innermost one, the module, the tokens (only
    /// read further), and one token read for every declaration made.
    pub open spec fn parsed_from(&self, old: &ParserScope<'a>, t_old: Tokens, t_new: Tokens) -> bool {
        &&& self.wf()
        &&& self.module == old.module
        &&& self.module_uid == old.module_uid
        &&& self.frames_v().len() == old.frames_v().len()
        &&& self.frames_v().drop_last() == old.frames_v().drop_last()
        &&& t_new.tokens == t_old.tokens
        &&& t_new.remaining() <= t_old.remaining()
        &&& self.top().names.len() + t_new.remaining() <= old.top().names.len() + t_old.remaining()
        &&& old.top().names.is_prefix_of(self.top().names)
        &&& old.top().types.is_prefix_of(self.top().types)
        &&& t_new.pos >= t_old.pos
        &&& (t_new.pos == t_old.pos || t_new.pos <= t_new.tokens@.len())
    }

    /// Sets the type that the innermost block returns.
    pub fn set_eval_type(&mut self, t: TypeKind)
        requires
            old(self).wf(),
        ensures
            final(self).wf(),
            final(self).module == old(self).module,
            final(self).module_uid == old(self).module_uid,
            final(self).frames_v() == old(self).frames_v().update(
                old(self).frames_v().len() - 1,
                FrameV { names: old(self).top().names, types: old(self).top().types, eval_type: t@ },
            ),
            final(self).frames_v().len() == old(self).frames_v().len(),
            final(self).frames_v().drop_last() == old(self).frames_v().drop_last(),
            final(self).top().names == old(self).top().names,
            final(self).top().eval_type == t@,
    {
        let ghost old_frames = self.frames@;
        let mut f = self.frames.pop().unwrap();
        f.eval_type = t;
        self.frames.push(f);
        proof {
            assert(self.frames@ == old_frames.update(old_frames.len() - 1, f));
            assert(self.frames_v() =~= old(self).frames_v().update(
                old(self).frames_v().len() - 1,
                FrameV { names: old(self).top().names, types: old(self).top().types, eval_type: t@ },
            ));
            assert(self.frames_v().drop_last() =~= old(self).frames_v().drop_last());
        }
    }
}

/// The blocks after declaring `name` with type `t` in the innermost one.
pub open spec fn frames_declare(frames: Seq<FrameV>, name: Seq<char>, t: TypeV) -> Seq<FrameV> {
    frames.update(
        frames.len() - 1,
        FrameV { names: frames.last().names.push(name), types: frames.last().types.push(t), eval_type: frames.last().eval_type },
    )
}

/// A declaration in the innermost block is what the blocks give its name; every other name
/// gives what it gave before.
pub proof fn law_scope_get_after_declare(frames: Seq<FrameV>, name: Seq<char>, t: TypeV, other: Seq<char>)
    requires
        frames.len() > 0,
        frames.last().names.len() == frames.last().types.len(),
    ensures
        frames_lookup(frames_declare(frames, name, t), name) == Some(t),
        other != name ==> frames_lookup(frames_declare(frames, name, t), other) == frames_lookup(frames, other),
{
    let d = frames_declare(frames, name, t);
    assert(d.drop_last() =~= frames.drop_last());
    assert(d.last().names.drop_last() =~= frames.last().names);
    if other != name {
        lemma_frame_lookup_push(frames.last().names, frames.last().types, name, t, other);
    }
}

pub(crate) proof fn lemma_frame_lookup_push(names: Seq<Seq<char>>, types: Seq<TypeV>, name: Seq<char>, t: TypeV, other: Seq<char>)
    requires
        names.len() == types.len(),
        other != name,
    ensures
        frame_lookup(names.push(name), types.push(t), other) == frame_lookup(names, types, other),
    decreases names.len(),
{
    assert(names.push(name).drop_last() =~= names);
    lemma_frame_lookup_types(names, types, types.push(t), other);
}

/// Looking up in a block reads only the types of its names.
proof fn lemma_frame_lookup_types(names: Seq<Seq<char>>, a: Seq<TypeV>, b: Seq<TypeV>, name: Seq<char>)
    requires
        names.len() <= a.len(),
        names.len() <= b.len(),
        forall|i: int| 0 <= i < names.len() ==> #[trigger] a[i] == b[i],
    ensures
        frame_lookup(names, a, name) == frame_lookup(names, b, name),
    decreases names.len(),
{
    if names.len() > 0 {
        lemma_frame_lookup_types(names.drop_last(), a, b, name);
    }
}

/// Opening an empty block changes what no name gives.
pub proof fn law_new_child_keeps_lookups(frames: Seq<FrameV>, name: Seq<char>)
    ensures
        frames_lookup(frames.push(FrameV { names: Seq::empty(), types: Seq::empty(), eval_type: TypeV::Nothing }), name)
            == frames_lookup(frames, name),
{
    let c = frames.push(FrameV { names: Seq::empty(), types: Seq::empty(), eval_type: TypeV::Nothing });
    assert(c.drop_last() =~= frames);
}

} // verus!
