//! Plain configuration data the server trades in: the process-wide list of
//! site directories and a site's page routing entries, together with the
//! defaults its configuration files fall back on.
use vstd::prelude::*;
use std::collections::HashMap;

verus! {

/// The process configuration: the site directories to serve and the domain
/// the administrative panel answers on.
#[derive(Debug)]
pub struct PeroxideConfig {
    pub directories: Vec<String>,
    pub panel_domain: String,
}

/// One routed page: where its source lives, and the template around it, if
/// any.
#[derive(Debug)]
pub struct PagePath {
    pub path: String,
    pub template: Option<String>,
}

/// One site's configuration, as its configuration file holds it. The live
/// handles a running server attaches to it — the store connection and the
/// compiled templates — belong to the serving layer, not to this data.
#[derive(Debug)]
pub struct SiteConfig {
    pub db_filename: String,
    pub domain: String,
    pub routes: HashMap<String, PagePath>,
    pub site_path: String,
    pub create_user: bool,
}

/// Point a site at a new domain; every other setting stays as it was.
/// Writing the changed configuration back to disk is the caller's step.
pub fn change_domain(config: &mut SiteConfig, domain: String)
    ensures
        final (config).domain == domain,
        final (config).db_filename == old(config).db_filename,
        final (config).routes == old(config).routes,
        final (config).site_path == old(config).site_path,
        final (config).create_user == old(config).create_user,
{
    config.domain = domain;
}

/// Default for whether a site prompts for a first account at start.
pub fn create_user_default() -> (r: bool)
    ensures
        r == false,
{
    false
}

/// Default template for a routed page: none.
pub fn default_template() -> (r: Option<String>)
    ensures
        r is None,
{
    None
}

/// Default filename of a site's database.
pub fn db_default() -> (r: String)
    ensures
        r@ == "db.sqlite3"@,
{
    "db.sqlite3".to_owned()
}

} // verus!
