//! Bookkeeping around the embedded Guile runtime: which mode a thread is in,
//! whether it has been initialised, and the description of the procedures
//! that are registered with it.

use vstd::prelude::*;
use crate::guile::subr::SubrDescriptor;

pub mod subr;

verus! {

/// What a thread's [`Api`] records.
pub struct ApiModel {
    pub guile_mode: bool,
    pub initialized: bool,
}

/// A thread's handle on the Guile API: whether the thread is in Guile mode,
/// and whether it has entered Guile before.
#[derive(Clone, Copy, Debug)]
pub struct Api {
    guile_mode: bool,
    initialized: bool,
}

/// What [`with_guile`] has to do on a thread.
#[derive(Clone, Copy, Debug, PartialEq, Eq)]
pub enum Entry {
    /// The thread is already in Guile mode: the operation runs directly.
    Direct,
    /// The thread enters Guile mode; the first entry of a thread happens
    /// under the initialisation lock.
    Enter { lock: bool },
}

impl View for Api {
    type V = ApiModel;

    closed spec fn view(&self) -> ApiModel {
        ApiModel { guile_mode: self.guile_mode, initialized: self.initialized }
    }
}

/// The entry that a thread in state `api` needs.
pub open spec fn entry_of(api: ApiModel) -> Entry {
    if api.guile_mode {
        Entry::Direct
    } else {
        Entry::Enter { lock: !api.initialized }
    }
}

/// Once a thread has run something in Guile mode, entering Guile mode never
/// takes the initialisation lock again.
pub proof fn law_lock_only_on_first_entry(before: ApiModel)
    ensures
        entry_of(ApiModel { guile_mode: before.guile_mode, initialized: true }) != (Entry::Enter { lock: true }),
{
}

impl Api {
    #[verifier::type_invariant]
    closed spec fn inv(self) -> bool {
        self.guile_mode ==> self.initialized
    }

    /// The handle of a thread that has never entered Guile.
    pub fn new() -> (r: Self)
        ensures
            r@ == (ApiModel { guile_mode: false, initialized: false }),
    {
        Api { guile_mode: false, initialized: false }
    }

    /// Whether the thread is in Guile mode.
    pub fn guile_mode(&self) -> (r: bool)
        ensures
            r == self@.guile_mode,
    {
        self.guile_mode
    }

    /// Whether the thread has entered Guile before.
    pub fn initialized(&self) -> (r: bool)
        ensures
            r == self@.initialized,
    {
        self.initialized
    }

    /// What entering Guile mode takes on this thread.
    pub fn entry(&self) -> (r: Entry)
        ensures
            r == entry_of(self@),
    {
        if self.guile_mode {
            Entry::Direct
        } else {
            Entry::Enter { lock: !self.initialized }
        }
    }

    /// Runs `operation` outside Guile mode and returns what it returns; the
    /// thread is back in Guile mode afterwards.
    pub fn without_guile<F, O>(&mut self, operation: F) -> (r: O)
        where
            F: FnOnce(&mut Api) -> O,
        requires
            old(self)@.guile_mode,
            forall|a: &mut Api|
                #![trigger operation.requires((a,))]
                !(*a)@.guile_mode && (*a)@.initialized ==> operation.requires((a,)),
        ensures
            final(self)@ == old(self)@,
            exists|a: &mut Api|
                #![trigger operation.ensures((a,), r)]
                !(*a)@.guile_mode && (*a)@.initialized && operation.ensures((a,), r),
    {
        proof {
            use_type_invariant(&*self);
        }
        *self = Api { guile_mode: false, initialized: true };
        assert(!self@.guile_mode && self@.initialized);
        let r = operation(self);
        *self = Api { guile_mode: true, initialized: true };
        r
    }
}

/// Runs `operation` in Guile mode and returns what it returns.
///
/// A thread already in Guile mode runs it directly; otherwise the thread
/// enters Guile mode for the call, is marked initialised, and leaves Guile
/// mode afterwards.
pub fn with_guile<F, O>(api: &mut Api, operation: F) -> (r: O)
    where
        F: FnOnce(&mut Api) -> O,
    requires
        forall|a: &mut Api|
            #![trigger operation.requires((a,))]
            (*a)@.guile_mode && (*a)@.initialized ==> operation.requires((a,)),
    ensures
        final(api)@ == (ApiModel { guile_mode: old(api)@.guile_mode, initialized: true }),
        exists|a: &mut Api|
            #![trigger operation.ensures((a,), r)]
            (*a)@.guile_mode && (*a)@.initialized && operation.ensures((a,), r),
{
    proof {
        use_type_invariant(&*api);
    }
    let was_guile_mode = api.guile_mode;
    match api.entry() {
        Entry::Direct => {},
        Entry::Enter { .. } => {
            *api = Api { guile_mode: true, initialized: true };
        },
    }
    proof {
        use_type_invariant(&*api);
    }
    assert(api@.guile_mode && api@.initialized);
    let r = operation(api);
    *api = Api { guile_mode: was_guile_mode, initialized: true };
    r
}

/// A Scheme value, as the machine word that Guile passes around.
#[derive(Clone, Copy, Debug, PartialEq, Eq)]
pub struct Scm(pub usize);

impl Scm {
    pub fn new(scm: usize) -> (r: Self)
        ensures
            r.0 == scm,
    {
        Scm(scm)
    }
}

/// The arguments with which a procedure is handed to Guile's
/// `scm_c_define_gsubr`.
pub struct GsubrArgs {
    pub name: String,
    pub required: i32,
    pub optional: i32,
    pub rest: i32,
}

impl Api {
    /// What registering the procedure `subr` hands to Guile: its Scheme
    /// name, its counts of arguments as C `int`s (cut to 32 bits), and `1`
    /// for a rest list, else `0`.
    pub fn define_fn(&self, subr: &SubrDescriptor) -> (r: GsubrArgs)
        requires
            self@.guile_mode,
        ensures
            r.name@ == subr.guile_ident@,
            r.required == subr.inputs.required as i32,
            r.optional == subr.inputs.optional as i32,
            r.rest == (if subr.inputs.rest { 1i32 } else { 0i32 }),
    {
        GsubrArgs {
            name: crate::text::to_string(subr.guile_ident.as_str()),
            required: subr.inputs.required as i32,
            optional: subr.inputs.optional as i32,
            rest: if subr.inputs.rest {
                1
            } else {
                0
            },
        }
    }
}

} // verus!
