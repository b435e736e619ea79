//! The backend's settings: which catalog it talks to and where it keeps its
//! files.
use vstd::prelude::*;

use crate::text::{join2, owned};

verus! {

/// Whether the backend talks to the production catalog or the development
/// one; production unless set otherwise.
pub struct Settings {
    production: bool,
}

impl Settings {
    /// Whether the production catalog is used.
    pub closed spec fn production(&self) -> bool {
        self.production
    }

    /// Settings for the production catalog.
    pub fn new() -> (r: Self)
        ensures
            r.production(),
    {
        Settings { production: true }
    }

    /// Chooses the production or the development catalog.
    pub fn set_production(&mut self, prod: bool)
        ensures
            final(self).production() == prod,
    {
        self.production = prod;
    }

    /// Whether the production catalog is used.
    pub fn is_production(&self) -> (r: bool)
        ensures
            r == self.production(),
    {
        self.production
    }

    /// The name of the environment variable that holds the catalog's domain.
    pub fn api_domain_var(&self) -> (r: &'static str)
        ensures
            self.production() ==> r@ == "DEVCADE_API_DOMAIN"@,
            !self.production() ==> r@ == "DEVCADE_DEV_API_DOMAIN"@,
    {
        if self.production {
            "DEVCADE_API_DOMAIN"
        } else {
            "DEVCADE_DEV_API_DOMAIN"
        }
    }
}

/// The catalog's base URL for a domain.
pub fn api_url(domain: &str) -> (r: String)
    ensures
        r@ == "https://"@ + domain@,
{
    join2("https://", domain)
}

/// The install root when none is configured: `.devcade` in the home
/// directory.
pub fn default_devcade_path(home: &str) -> (r: String)
    ensures
        r@ == home@ + "/.devcade"@,
{
    join2(home, "/.devcade")
}

/// The root of the save files: the cabinet user's home on the cabinet, the
/// working directory elsewhere.
pub fn save_root(on_machine: bool) -> (r: String)
    ensures
        on_machine ==> r@ == "/home/devcade/.save"@,
        !on_machine ==> r@ == "./.save"@,
{
    if on_machine {
        owned("/home/devcade/.save")
    } else {
        owned("./.save")
    }
}

} // verus!
