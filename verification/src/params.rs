//! The producers of the ordered key-value pairs an API call carries.
//!
//! Each entity contributes a fixed set of pairs; an assembled call
//! concatenates them in a fixed order. The pairs' values are the usual
//! candidates for the encoding boundary before transmission.

use vstd::prelude::*;
use vstd::string::StringExecFns;

verus! {

/// The pairs of `v`, each string taken to its character sequence.
pub open spec fn pairs_view(v: Vec<(String, String)>) -> Seq<(Seq<char>, Seq<char>)> {
    v.deep_view()
}

/// The service an API call is made against.
pub struct Service {
    pub id: String,
    pub token: String,
}

/// The application the call reports on.
pub struct Application {
    pub id: String,
}

/// The end user the call reports on.
pub struct User {
    pub id: String,
}

/// One metric and the amount reported for it.
pub struct Usage {
    pub metric: String,
    pub value: String,
}

impl Service {
    pub fn new(id: String, token: String) -> (r: Service)
        ensures
            r.id == id,
            r.token == token,
    {
        Service { id, token }
    }

    /// The pairs this service contributes to a call.
    pub open spec fn params_spec(&self) -> Seq<(Seq<char>, Seq<char>)> {
        seq![("service_id"@, self.id@), ("service_token"@, self.token@)]
    }

    pub fn to_params(&self, extendable: &mut Vec<(String, String)>)
        ensures
            pairs_view(*final(extendable)) == pairs_view(*old(extendable)) + self.params_spec(),
    {
        extendable.push(("service_id".to_owned(), self.id.clone()));
        extendable.push(("service_token".to_owned(), self.token.clone()));
        proof {
            assert(pairs_view(*extendable) =~= pairs_view(*old(extendable)) + self.params_spec());
        }
    }

    pub(crate) fn duplicate(&self) -> (r: Service)
        ensures
            r == *self,
    {
        Service { id: self.id.clone(), token: self.token.clone() }
    }
}

impl Application {
    pub fn new(id: String) -> (r: Application)
        ensures
            r.id == id,
    {
        Application { id }
    }

    /// The pairs this application contributes to a call.
    pub open spec fn params_spec(&self) -> Seq<(Seq<char>, Seq<char>)> {
        seq![("app_id"@, self.id@)]
    }

    pub fn to_params(&self, extendable: &mut Vec<(String, String)>)
        ensures
            pairs_view(*final(extendable)) == pairs_view(*old(extendable)) + self.params_spec(),
    {
        extendable.push(("app_id".to_owned(), self.id.clone()));
        proof {
            assert(pairs_view(*extendable) =~= pairs_view(*old(extendable)) + self.params_spec());
        }
    }

    pub(crate) fn duplicate(&self) -> (r: Application)
        ensures
            r == *self,
    {
        Application { id: self.id.clone() }
    }
}

impl User {
    pub fn new(id: String) -> (r: User)
        ensures
            r.id == id,
    {
        User { id }
    }

    /// The pairs this user contributes to a call.
    pub open spec fn params_spec(&self) -> Seq<(Seq<char>, Seq<char>)> {
        seq![("user_id"@, self.id@)]
    }

    pub fn to_params(&self, extendable: &mut Vec<(String, String)>)
        ensures
            pairs_view(*final(extendable)) == pairs_view(*old(extendable)) + self.params_spec(),
    {
        extendable.push(("user_id".to_owned(), self.id.clone()));
        proof {
            assert(pairs_view(*extendable) =~= pairs_view(*old(extendable)) + self.params_spec());
        }
    }

    pub(crate) fn duplicate(&self) -> (r: User)
        ensures
            r == *self,
    {
        User { id: self.id.clone() }
    }
}

impl Usage {
    pub fn new(metric: String, value: String) -> (r: Usage)
        ensures
            r.metric == metric,
            r.value == value,
    {
        Usage { metric, value }
    }

    /// The pair this usage contributes to a call: the metric named inside the
    /// key, the amount as the value.
    pub open spec fn params_spec(&self) -> Seq<(Seq<char>, Seq<char>)> {
        seq![("usage["@ + self.metric@ + "]"@, self.value@)]
    }

    pub fn to_params(&self, extendable: &mut Vec<(String, String)>)
        ensures
            pairs_view(*final(extendable)) == pairs_view(*old(extendable)) + self.params_spec(),
    {
        let mut key: String = "usage[".to_owned();
        key.append(self.metric.as_str());
        key.append("]");
        extendable.push((key, self.value.clone()));
        proof {
            assert(pairs_view(*extendable) =~= pairs_view(*old(extendable)) + self.params_spec());
        }
    }

    pub(crate) fn duplicate(&self) -> (r: Usage)
        ensures
            r == *self,
    {
        Usage { metric: self.metric.clone(), value: self.value.clone() }
    }
}

} // verus!
