use vstd::prelude::*;
use vstd::string::*;

verus! {

/// How an optional underlying cause is printed in an error message: `None`, or `Some(..)`
/// around the cause's debug text.
pub open spec fn cause_text(cause: Option<Seq<char>>) -> Seq<char> {
    match cause {
        None => "None"@,
        Some(c) => "Some("@ + c + ")"@,
    }
}

/// The text of an optional cause, as `cause_text` describes it.
pub fn describe_cause(cause: &Option<String>) -> (r: String)
    ensures
        r@ == cause_text(match cause {
            None => None,
            Some(c) => Some(c@),
        }),
{
    match cause {
        None => owned_str("None"),
        Some(c) => {
            let mut r = owned_str("Some(");
            r.append(c.as_str());
            r.append(")");
            r
        },
    }
}

fn owned_str(s: &str) -> (r: String)
    ensures
        r@ == s@,
{
    s.to_owned()
}

/// `prefix` followed by `s`.
fn prefixed(prefix: &str, s: &str) -> (r: String)
    ensures
        r@ == prefix@ + s@,
{
    let mut r = prefix.to_owned();
    r.append(s);
    r
}

/// `prefix`, `s`, a space, and the text of `cause`.
fn with_cause(prefix: &str, s: &str, cause: &Option<String>) -> (r: String)
    ensures
        r@ == prefix@ + s@ + " "@ + cause_text(opt_view(*cause)),
{
    let mut r = prefix.to_owned();
    r.append(s);
    r.append(" ");
    let d = describe_cause(cause);
    r.append(d.as_str());
    r
}

/// The view of an optional string.
pub open spec fn opt_view(s: Option<String>) -> Option<Seq<char>> {
    match s {
        None => None,
        Some(x) => Some(x@),
    }
}

/// The errors common to the whole project. Errors of outside libraries (configuration, I/O,
/// Kubernetes, JSON, YAML, Git URLs, timeouts) are carried as their messages; an optional
/// underlying cause is carried as its debug text.
#[derive(Debug)]
pub enum SealedError {
    Cli(String),
    Config(String),
    Runtime(String),
    IOError(String),
    Parsing(String),
    Timeout(String),
    GitOperationFailed(String),
    GitUrlParseError(String),
    FileNotFound(String),
    Interrupted,
    FailedToRunUserCommand(String, Option<String>),
    System(String, Option<String>),
    Kube(String),
    Json(String),
    Yaml(String),
    ServerError(String),
    DatabaseError(String),
    UnsupportedProjectType,
    BadRequest(String),
    NoData,
}

/// The message of a `SealedError`.
pub open spec fn sealed_error_message(e: SealedError) -> Seq<char> {
    match e {
        SealedError::Cli(m) => "CLI error: "@ + m@,
        SealedError::Config(m) => "Config error: "@ + m@,
        SealedError::Runtime(m) => "Runtime error: "@ + m@,
        SealedError::IOError(m) => "Command error: "@ + m@,
        SealedError::Parsing(m) => "Parsing error: "@ + m@,
        SealedError::Timeout(m) => "Timeout error: "@ + m@,
        SealedError::GitOperationFailed(m) => "Git operation failed: "@ + m@,
        SealedError::GitUrlParseError(m) => "Git url parse error: "@ + m@,
        SealedError::FileNotFound(m) => "File not found: "@ + m@,
        SealedError::Interrupted => "Interrupted"@,
        SealedError::FailedToRunUserCommand(m, c) => "Failed to run command: "@ + m@ + " "@
            + cause_text(opt_view(c)),
        SealedError::System(m, c) => "System error: "@ + m@ + " "@ + cause_text(opt_view(c)),
        SealedError::Kube(m) => "Kubernetes reported error: "@ + m@,
        SealedError::Json(m) => "Invalid Json: "@ + m@,
        SealedError::Yaml(m) => "Invalid Kubernetes Yaml: "@ + m@,
        SealedError::ServerError(m) => "Server error: "@ + m@,
        SealedError::DatabaseError(m) => "Database error: "@ + m@,
        SealedError::UnsupportedProjectType => "Unsupported project type"@,
        SealedError::BadRequest(m) => "Bad request: "@ + m@,
        SealedError::NoData => "No data"@,
    }
}

impl SealedError {
    /// The message of this error.
    pub fn message(&self) -> (r: String)
        ensures
            r@ == sealed_error_message(*self),
    {
        match self {
            SealedError::Cli(m) => prefixed("CLI error: ", m.as_str()),
            SealedError::Config(m) => prefixed("Config error: ", m.as_str()),
            SealedError::Runtime(m) => prefixed("Runtime error: ", m.as_str()),
            SealedError::IOError(m) => prefixed("Command error: ", m.as_str()),
            SealedError::Parsing(m) => prefixed("Parsing error: ", m.as_str()),
            SealedError::Timeout(m) => prefixed("Timeout error: ", m.as_str()),
            SealedError::GitOperationFailed(m) => prefixed("Git operation failed: ", m.as_str()),
            SealedError::GitUrlParseError(m) => prefixed("Git url parse error: ", m.as_str()),
            SealedError::FileNotFound(m) => prefixed("File not found: ", m.as_str()),
            SealedError::Interrupted => owned_str("Interrupted"),
            SealedError::FailedToRunUserCommand(m, c) => with_cause(
                "Failed to run command: ",
                m.as_str(),
                c,
            ),
            SealedError::System(m, c) => with_cause("System error: ", m.as_str(), c),
            SealedError::Kube(m) => prefixed("Kubernetes reported error: ", m.as_str()),
            SealedError::Json(m) => prefixed("Invalid Json: ", m.as_str()),
            SealedError::Yaml(m) => prefixed("Invalid Kubernetes Yaml: ", m.as_str()),
            SealedError::ServerError(m) => prefixed("Server error: ", m.as_str()),
            SealedError::DatabaseError(m) => prefixed("Database error: ", m.as_str()),
            SealedError::UnsupportedProjectType => owned_str("Unsupported project type"),
            SealedError::BadRequest(m) => prefixed("Bad request: ", m.as_str()),
            SealedError::NoData => owned_str("No data"),
        }
    }
}

/// Errors of the command-line tool. A command-line parsing error is carried as its message.
#[derive(Debug)]
pub enum SealedCliError {
    InitConfig(String),
    ParseConfig(String),
    Command(String),
    Terraform(String),
    Runtime(String),
}

/// The message of a `SealedCliError`.
pub open spec fn cli_error_message(e: SealedCliError) -> Seq<char> {
    match e {
        SealedCliError::InitConfig(m) => "Unable to initialize config: "@ + m@,
        SealedCliError::ParseConfig(m) => "Unable to parse config: "@ + m@,
        SealedCliError::Command(m) => "Unable to run command: "@ + m@,
        SealedCliError::Terraform(m) => "Unable to run terraform: "@ + m@,
        SealedCliError::Runtime(m) => "Runtime error: "@ + m@,
    }
}

impl SealedCliError {
    /// The message of this error.
    pub fn message(&self) -> (r: String)
        ensures
            r@ == cli_error_message(*self),
    {
        match self {
            SealedCliError::InitConfig(m) => prefixed("Unable to initialize config: ", m.as_str()),
            SealedCliError::ParseConfig(m) => prefixed("Unable to parse config: ", m.as_str()),
            SealedCliError::Command(m) => prefixed("Unable to run command: ", m.as_str()),
            SealedCliError::Terraform(m) => prefixed("Unable to run terraform: ", m.as_str()),
            SealedCliError::Runtime(m) => prefixed("Runtime error: ", m.as_str()),
        }
    }

    /// A `SealedError` becomes a terraform error carrying its message.
    pub fn from_sealed(error: &SealedError) -> (r: SealedCliError)
        ensures
            r matches SealedCliError::Terraform(m) && m@ == sealed_error_message(*error),
    {
        SealedCliError::Terraform(error.message())
    }

    /// An operator error becomes a runtime error carrying its message.
    pub fn from_operator(error: &SealedOperatorError) -> (r: SealedCliError)
        ensures
            r matches SealedCliError::Runtime(m) && m@ == operator_error_message(*error),
    {
        SealedCliError::Runtime(error.message())
    }

    /// A services error becomes a runtime error carrying its message.
    pub fn from_services(error: &SealedServicesError) -> (r: SealedCliError)
        ensures
            r matches SealedCliError::Runtime(m) && m@ == services_error_message(*error),
    {
        SealedCliError::Runtime(error.message())
    }
}

impl From<SealedCliError> for SealedError {
    /// Every command-line error becomes a `Cli` error with the same text.
    fn from(error: SealedCliError) -> (r: SealedError) {
        match error {
            SealedCliError::InitConfig(e) => SealedError::Cli(e),
            SealedCliError::ParseConfig(e) => SealedError::Cli(e),
            SealedCliError::Command(e) => SealedError::Cli(e),
            SealedCliError::Terraform(e) => SealedError::Cli(e),
            SealedCliError::Runtime(e) => SealedError::Cli(e),
        }
    }
}

impl vstd::std_specs::convert::FromSpecImpl<SealedCliError> for SealedError {
    open spec fn obeys_from_spec() -> bool {
        true
    }

    open spec fn from_spec(error: SealedCliError) -> SealedError {
        match error {
            SealedCliError::InitConfig(e) => SealedError::Cli(e),
            SealedCliError::ParseConfig(e) => SealedError::Cli(e),
            SealedCliError::Command(e) => SealedError::Cli(e),
            SealedCliError::Terraform(e) => SealedError::Cli(e),
            SealedCliError::Runtime(e) => SealedError::Cli(e),
        }
    }
}

/// Errors of the Kubernetes operator. Errors of outside libraries are carried as their
/// messages.
#[derive(Debug)]
pub enum SealedOperatorError {
    Runtime(String),
    Parsing(String),
    Timeout(String),
    Kube(String),
    Json(String),
    Yaml(String),
}

/// The message of a `SealedOperatorError`.
pub open spec fn operator_error_message(e: SealedOperatorError) -> Seq<char> {
    match e {
        SealedOperatorError::Runtime(m) => "Runtime error: "@ + m@,
        SealedOperatorError::Parsing(m) => "Parsing error: "@ + m@,
        SealedOperatorError::Timeout(m) => "Timeout error: "@ + m@,
        SealedOperatorError::Kube(m) => "Kubernetes reported error: "@ + m@,
        SealedOperatorError::Json(m) => "Invalid Json: "@ + m@,
        SealedOperatorError::Yaml(m) => "Invalid Kubernetes Yaml: "@ + m@,
    }
}

impl SealedOperatorError {
    /// The message of this error.
    pub fn message(&self) -> (r: String)
        ensures
            r@ == operator_error_message(*self),
    {
        match self {
            SealedOperatorError::Runtime(m) => prefixed("Runtime error: ", m.as_str()),
            SealedOperatorError::Parsing(m) => prefixed("Parsing error: ", m.as_str()),
            SealedOperatorError::Timeout(m) => prefixed("Timeout error: ", m.as_str()),
            SealedOperatorError::Kube(m) => prefixed("Kubernetes reported error: ", m.as_str()),
            SealedOperatorError::Json(m) => prefixed("Invalid Json: ", m.as_str()),
            SealedOperatorError::Yaml(m) => prefixed("Invalid Kubernetes Yaml: ", m.as_str()),
        }
    }
}

/// Errors of the services layer. Errors of outside libraries (I/O, Git) are carried as their
/// messages; an optional underlying cause is carried as its debug text.
#[derive(Debug)]
pub enum SealedServicesError {
    DatabaseError(String),
    DatabaseMigrationError(String),
    Interrupted,
    FailedToRunUserCommand(String, Option<String>),
    System(String, Option<String>),
    IOError(String),
    RuntimeError(String),
    GitError(String),
}

/// The message of a `SealedServicesError`.
pub open spec fn services_error_message(e: SealedServicesError) -> Seq<char> {
    match e {
        SealedServicesError::DatabaseError(m) => "Database error: "@ + m@,
        SealedServicesError::DatabaseMigrationError(m) => "Database migration error: "@ + m@,
        SealedServicesError::Interrupted => "Interrupted"@,
        SealedServicesError::FailedToRunUserCommand(m, c) => "Failed to run command: "@ + m@ + " "@
            + cause_text(opt_view(c)),
        SealedServicesError::System(m, c) => "System error: "@ + m@ + " "@ + cause_text(
            opt_view(c),
        ),
        SealedServicesError::IOError(m) => "IO error: "@ + m@,
        SealedServicesError::RuntimeError(m) => "Runtime error: "@ + m@,
        SealedServicesError::GitError(m) => "Git error: "@ + m@,
    }
}

/// `r` is the services error that `error` becomes: database, interruption, command, system,
/// I/O and runtime errors keep their kind and text (a cause is dropped); every other error
/// becomes the runtime error `unknown error`.
pub open spec fn services_error_from(r: SealedServicesError, error: SealedError) -> bool {
    match error {
        SealedError::DatabaseError(e) => r == SealedServicesError::DatabaseError(e),
        SealedError::Interrupted => r == SealedServicesError::Interrupted,
        SealedError::FailedToRunUserCommand(e, _) => r
            == SealedServicesError::FailedToRunUserCommand(e, None),
        SealedError::System(e, _) => r == SealedServicesError::System(e, None),
        SealedError::IOError(e) => r == SealedServicesError::IOError(e),
        SealedError::Runtime(e) => r == SealedServicesError::RuntimeError(e),
        _ => r matches SealedServicesError::RuntimeError(m) && m@ == "unknown error"@,
    }
}

impl SealedServicesError {
    /// The message of this error.
    pub fn message(&self) -> (r: String)
        ensures
            r@ == services_error_message(*self),
    {
        match self {
            SealedServicesError::DatabaseError(m) => prefixed("Database error: ", m.as_str()),
            SealedServicesError::DatabaseMigrationError(m) => prefixed(
                "Database migration error: ",
                m.as_str(),
            ),
            SealedServicesError::Interrupted => owned_str("Interrupted"),
            SealedServicesError::FailedToRunUserCommand(m, c) => with_cause(
                "Failed to run command: ",
                m.as_str(),
                c,
            ),
            SealedServicesError::System(m, c) => with_cause("System error: ", m.as_str(), c),
            SealedServicesError::IOError(m) => prefixed("IO error: ", m.as_str()),
            SealedServicesError::RuntimeError(m) => prefixed("Runtime error: ", m.as_str()),
            SealedServicesError::GitError(m) => prefixed("Git error: ", m.as_str()),
        }
    }

    /// A `SealedError` seen by the services layer: database, interruption, command, system,
    /// I/O and runtime errors keep their kind and text (a cause is dropped); every other
    /// error becomes the runtime error `unknown error`.
    pub fn from_sealed(error: SealedError) -> (r: SealedServicesError)
        ensures
            services_error_from(r, error),
    {
        match error {
            SealedError::DatabaseError(e) => SealedServicesError::DatabaseError(e),
            SealedError::Interrupted => SealedServicesError::Interrupted,
            SealedError::FailedToRunUserCommand(e, _) => SealedServicesError::FailedToRunUserCommand(
                e,
                None,
            ),
            SealedError::System(e, _) => SealedServicesError::System(e, None),
            SealedError::IOError(e) => SealedServicesError::IOError(e),
            SealedError::Runtime(e) => SealedServicesError::RuntimeError(e),
            _ => SealedServicesError::RuntimeError(owned_str("unknown error")),
        }
    }
}

impl From<SealedServicesError> for SealedError {
    /// Each services error becomes the project error of the same kind, with the same text
    /// (a cause is dropped; a Git error becomes a failed Git operation).
    fn from(error: SealedServicesError) -> (r: SealedError) {
        match error {
            SealedServicesError::DatabaseError(e) => SealedError::DatabaseError(e),
            SealedServicesError::DatabaseMigrationError(e) => SealedError::DatabaseError(e),
            SealedServicesError::Interrupted => SealedError::Interrupted,
            SealedServicesError::FailedToRunUserCommand(e, _) => SealedError::FailedToRunUserCommand(
                e,
                None,
            ),
            SealedServicesError::System(e, _) => SealedError::System(e, None),
            SealedServicesError::IOError(e) => SealedError::IOError(e),
            SealedServicesError::RuntimeError(e) => SealedError::Runtime(e),
            SealedServicesError::GitError(e) => SealedError::GitOperationFailed(e),
        }
    }
}

impl vstd::std_specs::convert::FromSpecImpl<SealedServicesError> for SealedError {
    open spec fn obeys_from_spec() -> bool {
        true
    }

    open spec fn from_spec(error: SealedServicesError) -> SealedError {
        match error {
            SealedServicesError::DatabaseError(e) => SealedError::DatabaseError(e),
            SealedServicesError::DatabaseMigrationError(e) => SealedError::DatabaseError(e),
            SealedServicesError::Interrupted => SealedError::Interrupted,
            SealedServicesError::FailedToRunUserCommand(e, _) => SealedError::FailedToRunUserCommand(
                e,
                None,
            ),
            SealedServicesError::System(e, _) => SealedError::System(e, None),
            SealedServicesError::IOError(e) => SealedError::IOError(e),
            SealedServicesError::RuntimeError(e) => SealedError::Runtime(e),
            SealedServicesError::GitError(e) => SealedError::GitOperationFailed(e),
        }
    }
}

/// Errors of the task-file and database layer. The database driver's own errors are carried as
/// their messages; an optional underlying cause is carried as its debug text.
#[derive(Debug)]
pub enum SealedDatabaseError {
    DatabaseError(String),
    DatabaseMigrationError(String),
    Interrupted,
    FailedToRunUserCommand(String, Option<String>),
    System(String, Option<String>),
}

/// The message of a `SealedDatabaseError`.
pub open spec fn database_error_message(e: SealedDatabaseError) -> Seq<char> {
    match e {
        SealedDatabaseError::DatabaseError(m) => "Database error: "@ + m@,
        SealedDatabaseError::DatabaseMigrationError(m) => "Database migration error: "@ + m@,
        SealedDatabaseError::Interrupted => "Interrupted"@,
        SealedDatabaseError::FailedToRunUserCommand(m, c) => "Failed to run command: "@ + m@ + " "@
            + cause_text(opt_view(c)),
        SealedDatabaseError::System(m, c) => "System error: "@ + m@ + " "@ + cause_text(opt_view(c)),
    }
}

impl SealedDatabaseError {
    /// The message of this error.
    pub fn message(&self) -> (r: String)
        ensures
            r@ == database_error_message(*self),
    {
        match self {
            SealedDatabaseError::DatabaseError(m) => prefixed("Database error: ", m.as_str()),
            SealedDatabaseError::DatabaseMigrationError(m) => prefixed(
                "Database migration error: ",
                m.as_str(),
            ),
            SealedDatabaseError::Interrupted => owned_str("Interrupted"),
            SealedDatabaseError::FailedToRunUserCommand(m, c) => with_cause(
                "Failed to run command: ",
                m.as_str(),
                c,
            ),
            SealedDatabaseError::System(m, c) => with_cause("System error: ", m.as_str(), c),
        }
    }
}

impl From<SealedDatabaseError> for SealedError {
    /// Each database error becomes the project error of the same kind, with the same text
    /// (a cause is dropped; a migration error becomes a database error).
    fn from(error: SealedDatabaseError) -> (r: SealedError) {
        match error {
            SealedDatabaseError::DatabaseError(e) => SealedError::DatabaseError(e),
            SealedDatabaseError::DatabaseMigrationError(e) => SealedError::DatabaseError(e),
            SealedDatabaseError::Interrupted => SealedError::Interrupted,
            SealedDatabaseError::FailedToRunUserCommand(e, _) => SealedError::FailedToRunUserCommand(
                e,
                None,
            ),
            SealedDatabaseError::System(e, _) => SealedError::System(e, None),
        }
    }
}

impl vstd::std_specs::convert::FromSpecImpl<SealedDatabaseError> for SealedError {
    open spec fn obeys_from_spec() -> bool {
        true
    }

    open spec fn from_spec(error: SealedDatabaseError) -> SealedError {
        match error {
            SealedDatabaseError::DatabaseError(e) => SealedError::DatabaseError(e),
            SealedDatabaseError::DatabaseMigrationError(e) => SealedError::DatabaseError(e),
            SealedDatabaseError::Interrupted => SealedError::Interrupted,
            SealedDatabaseError::FailedToRunUserCommand(e, _) => SealedError::FailedToRunUserCommand(
                e,
                None,
            ),
            SealedDatabaseError::System(e, _) => SealedError::System(e, None),
        }
    }
}

/// Errors of the web server.
#[derive(Debug)]
pub enum SealedServerError {
    ServerError(String),
    DatabaseError(SealedDatabaseError),
}

/// The message of a `SealedServerError`.
pub open spec fn server_error_message(e: SealedServerError) -> Seq<char> {
    match e {
        SealedServerError::ServerError(m) => "Server error: "@ + m@,
        SealedServerError::DatabaseError(d) => "Database error: "@ + database_error_message(d),
    }
}

impl SealedServerError {
    /// The message of this error.
    pub fn message(&self) -> (r: String)
        ensures
            r@ == server_error_message(*self),
    {
        match self {
            SealedServerError::ServerError(m) => prefixed("Server error: ", m.as_str()),
            SealedServerError::DatabaseError(d) => {
                let inner = d.message();
                prefixed("Database error: ", inner.as_str())
            },
        }
    }

    /// The project error for this error: a server error carrying this error's message.
    pub fn to_sealed(&self) -> (r: SealedError)
        ensures
            r matches SealedError::ServerError(m) && m@ == server_error_message(*self),
    {
        SealedError::ServerError(self.message())
    }
}

impl From<SealedDatabaseError> for SealedServerError {
    /// A database error seen by the server.
    fn from(error: SealedDatabaseError) -> (r: SealedServerError) {
        SealedServerError::DatabaseError(error)
    }
}

impl vstd::std_specs::convert::FromSpecImpl<SealedDatabaseError> for SealedServerError {
    open spec fn obeys_from_spec() -> bool {
        true
    }

    open spec fn from_spec(error: SealedDatabaseError) -> SealedServerError {
        SealedServerError::DatabaseError(error)
    }
}

} // verus!
