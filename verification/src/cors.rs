//! The cross-origin policy that a listener applies, made from its settings.

use vstd::prelude::*;
use crate::error::Error;
use crate::headers::texts;
use crate::settings::bad_method;
use crate::settings::bad_method_text;
use crate::settings::check_methods;
use crate::settings::listed_methods;
use crate::settings::ServiceSettings;

verus! {

/// The origins that may use a listener.
#[derive(Debug)]
pub enum Origins {
    /// Any origin.
    Any,
    /// These origins only.
    Listed(Vec<String>),
}

/// The steps by which the cross-origin filter of a listener is built.
#[derive(Debug)]
pub struct CorsPlan {
    /// The origins to allow.
    pub origins: Origins,
    /// The request headers to allow, if they are restricted.
    pub allowed_headers: Option<Vec<String>>,
    /// The methods to allow; each is one of the methods that HTTP defines.
    pub allowed_methods: Vec<String>,
    /// The response headers to expose, if any are.
    pub exposed_headers: Option<Vec<String>>,
    /// For how long a browser may keep the answer to a preflight request.
    pub max_age_secs: Option<u64>,
}

/// The texts of an optional list.
pub open spec fn listed(list: Option<Vec<String>>) -> Option<Seq<Seq<char>>> {
    match list {
        Some(l) => Some(texts(l@)),
        None => None,
    }
}

impl CorsPlan {
    /// The plan allows the origins that the settings list, or any origin
    /// if they list none.
    pub open spec fn origins_from(&self, settings: &ServiceSettings) -> bool {
        match settings.cors.allowed_origins {
            Some(list) => if list@.len() > 0 {
                self.origins matches Origins::Listed(o) && texts(o@) == texts(list@)
            } else {
                self.origins is Any
            },
            None => self.origins is Any,
        }
    }

    /// The plan is the one that the settings ask for.
    pub open spec fn made_from(&self, settings: &ServiceSettings) -> bool {
        &&& self.origins_from(settings)
        &&& listed(self.allowed_headers) == listed(settings.cors.allowed_headers)
        &&& texts(self.allowed_methods@) == listed_methods(settings.cors.allowed_methods)
        &&& listed(self.exposed_headers) == listed(settings.cors.exposed_headers)
        &&& self.max_age_secs == settings.cors.max_age_secs
    }
}

/// A copy of a list of strings.
pub fn copy_strings(list: &Vec<String>) -> (copy: Vec<String>)
    ensures
        texts(copy@) == texts(list@),
{
    let mut copy: Vec<String> = Vec::new();
    let mut i: usize = 0;
    while i < list.len()
        invariant
            i <= list.len(),
            copy.len() == i,
            forall|k: int| 0 <= k < i ==> copy[k]@ == list[k]@,
        decreases list.len() - i,
    {
        copy.push(list[i].clone());
        i = i + 1;
    }
    assert(texts(copy@) =~= texts(list@));
    copy
}

fn copy_listed(list: &Option<Vec<String>>) -> (copy: Option<Vec<String>>)
    ensures
        listed(copy) == listed(*list),
{
    match list {
        Some(l) => Some(copy_strings(l)),
        None => None,
    }
}

/// Makes the cross-origin policy of a listener from its settings.
///
/// Origins that are listed are the only ones allowed; with none listed,
/// any origin is. Headers, exposed headers and the maximum age are taken
/// over as they are. Every allowed method must be one that HTTP defines: the
/// first that is not is reported by name, and no plan is made.
pub fn cors_filter(settings: &ServiceSettings) -> (r: Result<CorsPlan, Error>)
    ensures
        r is Ok <==> settings.methods_ok(),
        r matches Ok(plan) ==> plan.made_from(settings),
        r matches Err(e) ==> e.is_invalid_parameter(bad_method_text(settings.bad_method())),
{
    let origins: Origins = match &settings.cors.allowed_origins {
        Some(list) => if list.len() > 0 {
            Origins::Listed(copy_strings(list))
        } else {
            Origins::Any
        },
        None => Origins::Any,
    };
    let allowed_headers: Option<Vec<String>> = copy_listed(&settings.cors.allowed_headers);
    let allowed_methods: Vec<String> = match &settings.cors.allowed_methods {
        Some(tokens) => {
            match check_methods(tokens) {
                Some(i) => {
                    return Err(bad_method(tokens[i].as_str()));
                },
                None => copy_strings(tokens),
            }
        },
        None => Vec::new(),
    };
    assert(settings.cors.allowed_methods is None ==> texts(allowed_methods@) =~= listed_methods(
        settings.cors.allowed_methods,
    ));
    let exposed_headers: Option<Vec<String>> = copy_listed(&settings.cors.exposed_headers);
    Ok(
        CorsPlan {
            origins,
            allowed_headers,
            allowed_methods,
            exposed_headers,
            max_age_secs: settings.cors.max_age_secs,
        },
    )
}

} // verus!
