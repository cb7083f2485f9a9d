use vstd::prelude::*;

use crate::attr::{AttrMap, MapModel, StrMap};
use crate::error::HttpError;

verus! {

/// Name of the table of the plugins' users.
pub const USERS_TABLE_NAME: &'static str = "PluginUsers";

/// Name of the table of the plugins.
pub const PLUGINS_TABLE_NAME: &'static str = "Plugins";

/// Name of the table of the companies.
pub const COMPANY_TABLE_NAME: &'static str = "Companies";

/// Name of the table of the licenses.
pub const LICENSE_TABLE_NAME: &'static str = "Licenses";

/// An encrypted request: the data, encrypted with an AES key that is itself
/// encrypted with RSA, and a signature.
#[derive(Debug)]
pub struct Encrypted {
    pub data: String,
    pub nonce: String,
    pub key: String,
    pub timestamp: String,
    pub signature: String,
}

/// A purchased plugin, as the store sends it.
#[derive(Debug)]
pub struct Plugin {
    pub id: String,
    pub license_type: String,
    /// Use quantity to stick with the preset amount of licenses for this plugin.
    pub quantity: Option<String>,
    /// Use machine_limit to set a custom machine limit for this plugin.
    pub machine_limit: Option<String>,
    pub subtotal: String,
    pub custom_success_message: Option<String>,
}

/// A decrypted purchase, with the database items that it concerns.
#[derive(Debug)]
pub struct Decrypted {
    pub company: String,
    pub uuid: String,
    pub plugins: Vec<Plugin>,
    pub order_id: String,
    pub first_name: Option<String>,
    pub last_name: Option<String>,
    pub email: Option<String>,
    pub user_item: Option<AttrMap>,
    pub company_item: Option<AttrMap>,
    pub plugin_items: Option<StrMap<AttrMap>>,
    pub license_index: Option<String>,
    pub license_item: Option<AttrMap>,
}

/// The model of a map from plugin ids to plugin items.
pub open spec fn items_model(m: StrMap<AttrMap>) -> Seq<(Seq<char>, MapModel)> {
    Seq::new(m.entries@.len(), |i: int| (m.entries@[i].0@, m.entries@[i].1.mv()))
}

/// What a request answers to: its method, whether it carries a query string,
/// and its body when that is text.
#[derive(Debug)]
pub struct RequestParts {
    pub is_post: bool,
    pub has_query_string: bool,
    pub body_text: Option<String>,
}

/// Handles an HTTP request.
pub trait MagicalProcess {
    /// Validates the request, and returns the body's text contents.
    fn extract_json(&self) -> Result<String, HttpError>;
}

impl MagicalProcess for RequestParts {
    /// Only POST requests without a query string and with a text body are
    /// accepted.
    fn extract_json(&self) -> (r: Result<String, HttpError>)
        ensures
            !self.is_post ==> (r matches Err(e) && e.is(403, "Only POST Requests allowed."@)),
            self.is_post && self.has_query_string ==> (r matches Err(e) && e.is(403, "Query strings shall not pass."@)),
            self.is_post && !self.has_query_string ==> match self.body_text {
                Some(t) => r matches Ok(b) && b@ == t@,
                None => r matches Err(e) && e.is(400, "Body has no text contents."@),
            },
    {
        if !self.is_post {
            return Err(HttpError::new(403, "Only POST Requests allowed."));
        }
        if self.has_query_string {
            return Err(HttpError::new(403, "Query strings shall not pass."));
        }
        match &self.body_text {
            Some(t) => Ok(t.clone()),
            None => Err(HttpError::new(400, "Body has no text contents.")),
        }
    }
}

} // verus!
