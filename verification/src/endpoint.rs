//! The kinds of service that a client can be connected to.
use vstd::prelude::*;

verus! {

/// A service under one of the supported names.
pub enum Endpoint<S> {
    /// The cache service, named `cs`.
    CacheService(S),
}

/// Whether there is a kind of service called `name`.
pub open spec fn is_endpoint(name: Seq<char>) -> bool {
    name == "cs"@
}

/// Whether there is a kind of service called `name`.
pub fn supports(name: &str) -> (supported: bool)
    ensures
        supported == is_endpoint(name@),
{
    name.to_owned() == "cs".to_owned()
}

impl<S> Endpoint<S> {
    /// The service behind the endpoint.
    pub open spec fn inner(self) -> S {
        match self {
            Endpoint::CacheService(service) => service,
        }
    }

    /// The endpoint called `name`, over the service that was discovered for it,
    /// or the error of the discovery.
    pub fn from_discovery<E>(name: &str, discovered: Result<S, E>) -> (endpoint: Result<Self, E>)
        requires
            is_endpoint(name@),
        ensures
            match discovered {
                Ok(service) => endpoint == Ok::<Self, E>(Endpoint::CacheService(service)),
                Err(e) => endpoint == Err::<Self, E>(e),
            },
    {
        match discovered {
            Ok(service) => Ok(Endpoint::CacheService(service)),
            Err(e) => Err(e),
        }
    }

    /// The service that everything read from, written to, flushed or shut down
    /// at this endpoint goes to.
    pub fn service(&mut self) -> (service: &mut S)
        ensures
            *service == old(self).inner(),
            *final(self) == Endpoint::CacheService(*final(service)),
    {
        match self {
            Endpoint::CacheService(service) => service,
        }
    }
}

/// The one supported name has two letters, `c` and `s`.
pub proof fn law_only_cs_is_supported(name: Seq<char>)
    ensures
        is_endpoint(name) == (name.len() == 2 && name[0] == 'c' && name[1] == 's'),
{
    reveal_strlit("cs");
    if name.len() == 2 && name[0] == 'c' && name[1] == 's' {
        assert(name =~= "cs"@);
    }
}

} // verus!
