//! Symbol loaders: resolving a command name to a callable address.

use vstd::prelude::*;

verus! {

/// A message from the mechanism that loads symbols.
#[derive(Clone, Debug)]
pub struct StringLoaderError(pub String);

/// Why a symbol could not be resolved.
#[derive(Clone, Debug)]
pub enum LoaderError {
    /// The symbol with this name is absent (or resolved to null).
    NotFound(Vec<u8>),
    /// The loading mechanism itself failed.
    BackendFailure(StringLoaderError),
}

/// Something that resolves names to addresses, such as a dynamic library or
/// a resolver callback handed over by the layer below.
pub trait Loader {
    /// Whether `r` is an answer this loader can give for `name`.
    ///
    /// A loader verified here states its answers; one written outside
    /// verified code keeps this default, of which callers learn nothing.
    closed spec fn answers(&self, name: Seq<u8>, r: Result<usize, LoaderError>) -> bool {
        true
    }

    /// Resolves `name`; a resolved address is never null.
    fn load(&self, name: &[u8]) -> (r: Result<usize, LoaderError>)
        ensures
            self.answers(name@, r),
            r matches Ok(a) ==> a != 0,
    ;
}


/// Turns a raw address from a resolver into a load result.
pub fn resolved_or_missing(name: &[u8], addr: usize) -> (r: Result<usize, LoaderError>)
    ensures
        addr != 0 ==> r == Ok::<usize, LoaderError>(addr),
        addr == 0 ==> (r matches Err(LoaderError::NotFound(n)) && n@ == name@),
{
    if addr != 0 {
        Ok(addr)
    } else {
        Err(LoaderError::NotFound(vstd::slice::slice_to_vec(name)))
    }
}

/// A loader backed by a resolver callback, such as the proc-address
/// function that the layer below hands over; a null answer is not found.
pub struct CallbackLoader<F: Fn(&[u8]) -> usize> {
    resolve: F,
}

impl<F: Fn(&[u8]) -> usize> CallbackLoader<F> {
    #[verifier::type_invariant]
    spec fn inv(&self) -> bool {
        forall|n: &[u8]| self.resolve.requires((n,))
    }

    pub closed spec fn resolver(&self) -> F {
        self.resolve
    }

    /// Wraps a resolver that answers any name.
    pub fn new(resolve: F) -> (r: Self)
        requires
            forall|n: &[u8]| resolve.requires((n,)),
        ensures
            r.resolver() == resolve,
    {
        CallbackLoader { resolve }
    }

    /// Resolves `name` through the callback.
    pub fn resolve(&self, name: &[u8]) -> (r: Result<usize, LoaderError>)
        ensures
            exists|a: usize| self.resolver().ensures((name,), a) && resolution(name@, a, r),
    {
        proof {
            use_type_invariant(self);
        }
        let a = (self.resolve)(name);
        let r = resolved_or_missing(name, a);
        proof {
            assert(self.resolver().ensures((name,), a));
            assert(resolution(name@, a, r));
        }
        r
    }
}

/// What a resolver's answer `a` for `name` gives as a load result.
pub open spec fn resolution(name: Seq<u8>, a: usize, r: Result<usize, LoaderError>) -> bool {
    &&& a != 0 ==> r == Ok::<usize, LoaderError>(a)
    &&& a == 0 ==> (r matches Err(LoaderError::NotFound(n)) && n@ == name)
}

impl<F: Fn(&[u8]) -> usize> Loader for CallbackLoader<F> {
    open spec fn answers(&self, name: Seq<u8>, r: Result<usize, LoaderError>) -> bool {
        exists|n: &[u8], a: usize| n@ == name && self.resolver().ensures((n,), a) && resolution(name, a, r)
    }

    fn load(&self, name: &[u8]) -> (r: Result<usize, LoaderError>) {
        self.resolve(name)
    }
}

} // verus!
