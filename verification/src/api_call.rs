//! Assembling an API call: the kind of call, the entities it speaks of, and
//! the ordered key-value pairs they produce.

use vstd::prelude::*;

use crate::params::{pairs_view, Application, Service, Usage, User};

verus! {

/// The kind of API call.
#[derive(Copy, Clone, Debug, PartialEq, Eq, Structural)]
pub enum Kind {
    Authorize,
    AuthRep,
    Report,
}

/// Extra key-value pairs a caller may attach to a call, carried as given.
pub type Extensions = Vec<(String, String)>;

/// Why a call could not be built.
#[derive(Copy, Clone, Debug, PartialEq, Eq, Structural)]
pub enum BuildError {
    MissingKind,
    MissingApplication,
}

/// An assembled API call.
pub struct ApiCall {
    pub kind: Kind,
    pub service: Service,
    pub application: Application,
    pub user: Option<User>,
    pub usage: Option<Usage>,
    pub extensions: Option<Extensions>,
}

/// Collects the parts of an [`ApiCall`]; `kind` and `application` must be set
/// before building.
pub struct Builder {
    pub service: Service,
    pub kind: Option<Kind>,
    pub application: Option<Application>,
    pub user: Option<User>,
    pub usage: Option<Usage>,
    pub extensions: Option<Extensions>,
}

impl Builder {
    pub fn new(service: Service) -> (r: Builder)
        ensures
            r.service == service,
            r.kind is None,
            r.application is None,
            r.user is None,
            r.usage is None,
            r.extensions is None,
    {
        Builder {
            service,
            kind: None,
            application: None,
            user: None,
            usage: None,
            extensions: None,
        }
    }

    pub fn service(&mut self, s: Service) -> (r: &mut Self)
        ensures
            r.service == s,
            r.kind == old(self).kind,
            r.application == old(self).application,
            r.user == old(self).user,
            r.usage == old(self).usage,
            r.extensions == old(self).extensions,
            *final(self) == *final(r),
    {
        self.service = s;
        self
    }

    pub fn kind(&mut self, t: Kind) -> (r: &mut Self)
        ensures
            r.kind == Some(t),
            r.service == old(self).service,
            r.application == old(self).application,
            r.user == old(self).user,
            r.usage == old(self).usage,
            r.extensions == old(self).extensions,
            *final(self) == *final(r),
    {
        self.kind = Some(t);
        self
    }

    pub fn app(&mut self, a: Application) -> (r: &mut Self)
        ensures
            r.application == Some(a),
            r.service == old(self).service,
            r.kind == old(self).kind,
            r.user == old(self).user,
            r.usage == old(self).usage,
            r.extensions == old(self).extensions,
            *final(self) == *final(r),
    {
        self.application = Some(a);
        self
    }

    pub fn user(&mut self, u: User) -> (r: &mut Self)
        ensures
            r.user == Some(u),
            r.service == old(self).service,
            r.kind == old(self).kind,
            r.application == old(self).application,
            r.usage == old(self).usage,
            r.extensions == old(self).extensions,
            *final(self) == *final(r),
    {
        self.user = Some(u);
        self
    }

    pub fn usage(&mut self, usage: Usage) -> (r: &mut Self)
        ensures
            r.usage == Some(usage),
            r.service == old(self).service,
            r.kind == old(self).kind,
            r.application == old(self).application,
            r.user == old(self).user,
            r.extensions == old(self).extensions,
            *final(self) == *final(r),
    {
        self.usage = Some(usage);
        self
    }

    pub fn extensions(&mut self, extensions: Extensions) -> (r: &mut Self)
        ensures
            r.extensions == Some(extensions),
            r.service == old(self).service,
            r.kind == old(self).kind,
            r.application == old(self).application,
            r.user == old(self).user,
            r.usage == old(self).usage,
            *final(self) == *final(r),
    {
        self.extensions = Some(extensions);
        self
    }

    /// Builds the call, or says which required part is missing: the kind
    /// first, then the application.
    pub fn build(&self) -> (r: Result<ApiCall, BuildError>)
        ensures
            self.kind is None ==> r == Result::<ApiCall, BuildError>::Err(BuildError::MissingKind),
            self.kind is Some && self.application is None ==> r == Result::<
                ApiCall,
                BuildError,
            >::Err(BuildError::MissingApplication),
            self.kind matches Some(k) ==> self.application matches Some(a) ==> (r matches Ok(c) && {
                &&& c.kind == k
                &&& c.service == self.service
                &&& c.application == a
                &&& c.user == self.user
                &&& c.usage == self.usage
                &&& (match (self.extensions, c.extensions) {
                    (Some(e0), Some(e1)) => e0@ == e1@,
                    (None, None) => true,
                    _ => false,
                })
            }),
    {
        let kind: Kind = match self.kind {
            Some(k) => k,
            None => {
                return Err(BuildError::MissingKind);
            },
        };
        let application: Application = match &self.application {
            Some(a) => a.duplicate(),
            None => {
                return Err(BuildError::MissingApplication);
            },
        };
        let user: Option<User> = match &self.user {
            Some(u) => Some(u.duplicate()),
            None => None,
        };
        let usage: Option<Usage> = match &self.usage {
            Some(u) => Some(u.duplicate()),
            None => None,
        };
        let extensions: Option<Extensions> = match &self.extensions {
            Some(e) => Some(duplicate_pairs(e)),
            None => None,
        };
        Ok(ApiCall::new(kind, self.service.duplicate(), application, user, usage, extensions))
    }
}

impl ApiCall {
    pub fn builder(service: Service) -> (r: Builder)
        ensures
            r.service == service,
            r.kind is None,
            r.application is None,
            r.user is None,
            r.usage is None,
            r.extensions is None,
    {
        Builder::new(service)
    }

    pub fn new(
        kind: Kind,
        service: Service,
        application: Application,
        user: Option<User>,
        usage: Option<Usage>,
        extensions: Option<Extensions>,
    ) -> (r: Self)
        ensures
            r.kind == kind,
            r.service == service,
            r.application == application,
            r.user == user,
            r.usage == usage,
            r.extensions == extensions,
    {
        Self { kind, service, application, user, usage, extensions }
    }

    pub fn kind(&self) -> (r: &Kind)
        ensures
            *r == self.kind,
    {
        &self.kind
    }

    pub fn service(&self) -> (r: &Service)
        ensures
            *r == self.service,
    {
        &self.service
    }

    pub fn application(&self) -> (r: &Application)
        ensures
            *r == self.application,
    {
        &self.application
    }

    pub fn user(&self) -> (r: Option<&User>)
        ensures
            r is Some <==> self.user is Some,
            r matches Some(u) ==> (self.user matches Some(u0) && *u == u0),
    {
        self.user.as_ref()
    }

    pub fn extensions(&self) -> (r: Option<&Extensions>)
        ensures
            r is Some <==> self.extensions is Some,
            r matches Some(e) ==> (self.extensions matches Some(e0) && *e == e0),
    {
        self.extensions.as_ref()
    }

    /// The pairs the call carries, in order: the service's, the
    /// application's, then the user's and the usage's where they are set.
    /// The extensions are carried separately and contribute none.
    pub open spec fn params_spec(&self) -> Seq<(Seq<char>, Seq<char>)> {
        self.service.params_spec() + self.application.params_spec() + (match self.user {
            Some(u) => u.params_spec(),
            None => Seq::empty(),
        }) + (match self.usage {
            Some(u) => u.params_spec(),
            None => Seq::empty(),
        })
    }

    /// Appends the call's pairs to `extendable`.
    pub fn to_params(&self, extendable: &mut Vec<(String, String)>)
        ensures
            pairs_view(*final(extendable)) == pairs_view(*old(extendable)) + self.params_spec(),
    {
        self.service.to_params(extendable);
        self.application.to_params(extendable);
        if let Some(user) = &self.user {
            user.to_params(extendable);
        }
        if let Some(usage) = &self.usage {
            usage.to_params(extendable);
        }
        proof {
            assert(pairs_view(*extendable) =~= pairs_view(*old(extendable)) + self.params_spec());
        }
    }

    /// The call's pairs as a fresh list.
    pub fn params(&self) -> (r: Vec<(String, String)>)
        ensures
            pairs_view(r) == self.params_spec(),
    {
        let mut params: Vec<(String, String)> = Vec::new();
        self.to_params(&mut params);
        proof {
            assert(pairs_view(params) =~= self.params_spec());
        }
        params
    }
}

/// Copies a list of string pairs.
fn duplicate_pairs(e: &Vec<(String, String)>) -> (r: Vec<(String, String)>)
    ensures
        r@ == e@,
{
    let mut out: Vec<(String, String)> = Vec::new();
    let mut i: usize = 0;
    while i < e.len()
        invariant
            i <= e@.len(),
            out@ =~= e@.take(i as int),
        decreases e@.len() - i,
    {
        out.push((e[i].0.clone(), e[i].1.clone()));
        proof {
            assert(e@.take(i + 1) =~= e@.take(i as int).push(e@[i as int]));
        }
        i += 1;
    }
    proof {
        assert(e@.take(e@.len() as int) =~= e@);
    }
    out
}

} // verus!
