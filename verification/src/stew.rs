//! The host's registry of the functions that plugins offer, each found by
//! its path.
use crate::table::Table;
use vstd::prelude::*;

verus! {

/// A registered function is found under its path, and registering under one
/// path leaves what is found under every other path as it was.
pub proof fn lemma_registered_is_found<C>(
    functions: Map<Seq<char>, C>,
    fn_path: Seq<char>,
    callback: C,
    other: Seq<char>,
)
    ensures
        functions.insert(fn_path, callback).contains_key(fn_path),
        functions.insert(fn_path, callback)[fn_path] == callback,
        other != fn_path ==> (functions.insert(fn_path, callback).contains_key(other)
            == functions.contains_key(other) && functions.insert(fn_path, callback)[other]
            == functions[other]),
{
}

/// The functions registered with the host, by path. `C` is what calls a
/// registered function, with the state it keeps between calls. The entries
/// are generic (C callbacks and their state among them), so they are held in
/// the library's own table, whose contents the verifier can describe.
#[verifier::reject_recursive_types(C)]
pub struct Stew<C> {
    functions: Table<String, C>,
}

impl<C> View for Stew<C> {
    type V = Map<Seq<char>, C>;

    closed spec fn view(&self) -> Map<Seq<char>, C> {
        self.functions@
    }
}

impl<C> Stew<C> {
    pub closed spec fn wf(&self) -> bool {
        self.functions.wf()
    }

    /// A registry without functions.
    pub fn new() -> (s: Stew<C>)
        ensures
            s.wf(),
            s@ == Map::<Seq<char>, C>::empty(),
    {
        Stew { functions: Table::new() }
    }

    /// Registers `callback` under `fn_path`; what was registered there
    /// before is replaced.
    pub fn register(&mut self, fn_path: String, callback: C)
        requires
            old(self).wf(),
        ensures
            final(self).wf(),
            final(self)@ == old(self)@.insert(fn_path@, callback),
    {
        self.functions.insert(fn_path, callback);
    }

    /// What is registered under `fn_path`; `None` where nothing is.
    pub fn registered(&self, fn_path: &String) -> (r: Option<&C>)
        requires
            self.wf(),
        ensures
            match r {
                Some(c) => self@.contains_key(fn_path@) && *c == self@[fn_path@],
                None => !self@.contains_key(fn_path@),
            },
    {
        self.functions.get(fn_path)
    }

    /// The slot in which what is registered under `fn_path` is stored, so
    /// that a callback can update its own state there; what the slot holds
    /// when the borrow ends stays registered under `fn_path`.
    pub fn registered_mut(&mut self, fn_path: &String) -> (r: Option<&mut C>)
        requires
            old(self).wf(),
        ensures
            final(self).wf(),
            match r {
                Some(c) => old(self)@.contains_key(fn_path@) && *c == old(self)@[fn_path@]
                    && final(self)@ == old(self)@.insert(fn_path@, *final(c)),
                None => !old(self)@.contains_key(fn_path@) && final(self)@ == old(self)@,
            },
    {
        self.functions.get_mut(fn_path)
    }
}

} // verus!
