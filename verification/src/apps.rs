use vstd::prelude::*;
use vstd::string::*;


verus! {

/// A JSON value, carried through as it is.
#[verifier::external_type_specification]
#[verifier::external_body]
pub struct ExJsonValue(serde_json::Value);

/// An application as it is stored.
pub struct FpApp {
    pub id: i32,
    pub name: String,
    pub description: String,
    pub app_config: Option<serde_json::Value>,
    pub repository_url: Option<String>,
    pub branch: Option<String>,
    pub image: Option<String>,
    pub tag: Option<String>,
}

/// Where the work on an application stands.
#[derive(Debug, Clone, Copy, PartialEq, Eq, Structural)]
pub enum FpAppTaskStatus {
    Pending,
    InProgress,
    Completed,
}

/// A request to create an application; the times are given as text.
pub struct CreateAppRequest {
    pub name: Option<String>,
    pub description: Option<String>,
    pub app_config: Option<serde_json::Value>,
    pub repository_url: Option<String>,
    pub branch: Option<String>,
    pub image: Option<String>,
    pub tag: Option<String>,
    pub created_at: String,
    pub updated_at: String,
}

/// The values stored for a new application, in the order of the columns `name`,
/// `description`, `app_config`, `repository_url`, `branch`, `image` and `tag`.
pub struct NewAppRow {
    pub name: String,
    pub description: String,
    pub app_config: Option<serde_json::Value>,
    pub repository_url: String,
    pub branch: String,
    pub image: String,
    pub tag: String,
}

/// The text given, or the empty text.
pub open spec fn or_empty(v: Option<String>) -> Seq<char> {
    match v {
        Some(s) => s@,
        None => Seq::empty(),
    }
}

/// The given text, or the empty text.
fn text_or_empty(v: Option<String>) -> (r: String)
    ensures
        r@ == or_empty(v),
{
    match v {
        Some(s) => s,
        None => String::new(),
    }
}

/// The values stored for the requested application: each text that was left out is stored
/// empty, and the configuration is stored as it was given.
pub fn new_app_row(app: CreateAppRequest) -> (r: NewAppRow)
    ensures
        r.name@ == or_empty(app.name),
        r.description@ == or_empty(app.description),
        r.app_config == app.app_config,
        r.repository_url@ == or_empty(app.repository_url),
        r.branch@ == or_empty(app.branch),
        r.image@ == or_empty(app.image),
        r.tag@ == or_empty(app.tag),
{
    NewAppRow {
        name: text_or_empty(app.name),
        description: text_or_empty(app.description),
        app_config: app.app_config,
        repository_url: text_or_empty(app.repository_url),
        branch: text_or_empty(app.branch),
        image: text_or_empty(app.image),
        tag: text_or_empty(app.tag),
    }
}

} // verus!
