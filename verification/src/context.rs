//! Export resolution against the host call context.
//!
//! The embedding runtime exposes the callee's exports as named entries of
//! the active call context; this layer only consumes that interface. An
//! export is resolved by name to a typed function handle or a memory
//! object — both opaque tokens understood by the embedding — and "no such
//! export" is distinguished from "export of the wrong kind" as two
//! separate, named errors.

use vstd::prelude::*;

use crate::error::GuestError;

verus! {

/// One export of the callee instance: a typed function handle, a memory
/// object, or an export of some other kind. The token inside is opaque to
/// this layer and meaningful only to the embedding.
#[derive(Debug, Copy, Clone, PartialEq, Eq, Structural)]
pub enum Extern {
    Func(u32),
    Memory(u32),
    Other,
}

/// The first export named `name`, scanning front to back.
pub open spec fn lookup(s: Seq<(Seq<char>, Extern)>, name: Seq<char>) -> Option<Extern>
    decreases s.len(),
{
    if s.len() == 0 {
        None
    } else if s[0].0 == name {
        Some(s[0].1)
    } else {
        lookup(s.drop_first(), name)
    }
}

proof fn lemma_lookup_skip(s: Seq<(Seq<char>, Extern)>, name: Seq<char>, i: int)
    requires
        0 <= i < s.len(),
        forall|j: int| 0 <= j < i ==> (#[trigger] s[j]).0 != name,
    ensures
        lookup(s, name) == lookup(s.skip(i), name),
    decreases i,
{
    if i > 0 {
        lemma_lookup_skip(s, name, i - 1);
        assert(s.skip(i - 1).drop_first() =~= s.skip(i));
        assert(s.skip(i - 1)[0] == s[i - 1]);
    } else {
        assert(s.skip(0) =~= s);
    }
}

/// The active call context: the callee's exports, resolvable by name.
pub struct CallContext {
    exports: Vec<(String, Extern)>,
}

impl View for CallContext {
    type V = Seq<(Seq<char>, Extern)>;

    closed spec fn view(&self) -> Seq<(Seq<char>, Extern)> {
        self.exports@.map_values(|p: (String, Extern)| (p.0@, p.1))
    }
}

impl CallContext {
    /// A context with no exports.
    pub fn new() -> (s: Self)
        ensures
            s@ == Seq::<(Seq<char>, Extern)>::empty(),
    {
        let s = CallContext { exports: Vec::new() };
        proof {
            assert(s@ =~= Seq::<(Seq<char>, Extern)>::empty());
        }
        s
    }

    /// Registers one more export under `name`.
    pub fn add_export(&mut self, name: String, export: Extern)
        ensures
            final(self)@ == old(self)@.push((name@, export)),
    {
        let ghost n = name@;
        self.exports.push((name, export));
        proof {
            assert(self@ =~= old(self)@.push((n, export)));
        }
    }

    /// Resolves the first export of the given name, if any.
    pub fn get_export(&self, name: &str) -> (r: Option<Extern>)
        ensures
            r == lookup(self@, name@),
    {
        let key = name.to_owned();
        let n = self.exports.len();
        let mut i: usize = 0;
        while i < n
            invariant
                0 <= i <= n,
                n == self.exports@.len(),
                key@ == name@,
                forall|j: int| 0 <= j < i ==> (#[trigger] self@[j]).0 != name@,
            decreases n - i,
        {
            if self.exports[i].0 == key {
                proof {
                    lemma_lookup_skip(self@, name@, i as int);
                    assert(self@.skip(i as int)[0] == self@[i as int]);
                }
                return Some(self.exports[i].1);
            }
            i += 1;
        }
        proof {
            if self@.len() > 0 {
                lemma_lookup_skip(self@, name@, self@.len() - 1);
                let t = self@.skip(self@.len() - 1);
                assert(t[0] == self@[self@.len() - 1]);
                assert(t.drop_first().len() == 0);
                assert(lookup(t.drop_first(), name@) is None);
                assert(lookup(t, name@) is None);
            }
        }
        None
    }
}

/// Resolves the named export of the call context to a typed function
/// handle. A missing export and an export that is not a function are two
/// distinct, named lookup errors.
pub fn get_func(caller: &CallContext, func: &str) -> (r: Result<u32, GuestError>)
    ensures
        lookup(caller@, func@) is None ==> (r matches Err(e)
            && e matches GuestError::ExportNotFound { name: n } && n@ == func@),
        lookup(caller@, func@) matches Some(Extern::Func(f)) ==> r == Ok::<u32, GuestError>(f),
        (lookup(caller@, func@) matches Some(e) && !(e is Func)) ==> (r matches Err(e2)
            && e2 matches GuestError::ExportNotAFunction { name: n } && n@ == func@),
{
    match caller.get_export(func) {
        None => Err(GuestError::ExportNotFound { name: func.to_owned() }),
        Some(Extern::Func(f)) => Ok(f),
        Some(_) => Err(GuestError::ExportNotAFunction { name: func.to_owned() }),
    }
}

/// Resolves the named export of the call context to a memory object. A
/// missing export and an export that is not a memory are two distinct,
/// named lookup errors.
pub fn get_memory(caller: &CallContext, mem: &str) -> (r: Result<u32, GuestError>)
    ensures
        lookup(caller@, mem@) is None ==> (r matches Err(e)
            && e matches GuestError::ExportNotFound { name: n } && n@ == mem@),
        lookup(caller@, mem@) matches Some(Extern::Memory(m)) ==> r == Ok::<u32, GuestError>(m),
        (lookup(caller@, mem@) matches Some(e) && !(e is Memory)) ==> (r matches Err(e2)
            && e2 matches GuestError::ExportNotAMemory { name: n } && n@ == mem@),
{
    match caller.get_export(mem) {
        None => Err(GuestError::ExportNotFound { name: mem.to_owned() }),
        Some(Extern::Memory(m)) => Ok(m),
        Some(_) => Err(GuestError::ExportNotAMemory { name: mem.to_owned() }),
    }
}

} // verus!
