//! Process settings: the sections a deployment can override and the
//! defaults each falls back to. Loading them from files and from the
//! environment is a process concern outside this library; here stand the
//! shapes, the defaults, and the server's rendered base address.

use vstd::prelude::*;
use vstd::string::StringExecFns;

use crate::oid::{hex_char_of, hex_digit_str};

verus! {

/// The default deployment environment name.
pub fn default_environment() -> (r: String)
    ensures
        r@ == "development"@,
{
    String::from_str("development")
}

/// The default port the server binds.
pub fn default_port() -> (r: u16)
    ensures
        r == 8080,
{
    8080
}

/// The default log level.
pub fn default_logger_level() -> (r: String)
    ensures
        r@ == "info"@,
{
    String::from_str("info")
}

/// The default store address, for deployments that enable one.
pub fn default_db_uri() -> (r: String)
    ensures
        r@ == "mongodb://localhost:27017"@,
{
    String::from_str("mongodb://localhost:27017")
}

/// The default store database name.
pub fn default_db_name() -> (r: String)
    ensures
        r@ == "app"@,
{
    String::from_str("app")
}

/// The default authentication secret; a deployment overrides it.
pub fn default_auth_secret() -> (r: String)
    ensures
        r@ == "dev-secret-change-me"@,
{
    String::from_str("dev-secret-change-me")
}

/// The server section: where the process listens.
pub struct Server {
    pub port: u16,
}

/// The logger section.
pub struct Logger {
    pub level: String,
}

/// The database section.
pub struct Database {
    pub uri: String,
    pub name: String,
}

/// The authentication section.
pub struct Auth {
    pub secret: String,
}

/// All settings a process runs under.
pub struct Settings {
    pub environment: String,
    pub server: Server,
    pub logger: Logger,
    pub database: Database,
    pub auth: Auth,
}

impl Default for Server {
    fn default() -> (r: Self)
        ensures
            r.port == 8080,
    {
        Server { port: default_port() }
    }
}

impl Default for Logger {
    fn default() -> (r: Self)
        ensures
            r.level@ == "info"@,
    {
        Logger { level: default_logger_level() }
    }
}

impl Default for Database {
    fn default() -> (r: Self)
        ensures
            r.uri@ == "mongodb://localhost:27017"@,
            r.name@ == "app"@,
    {
        Database { uri: default_db_uri(), name: default_db_name() }
    }
}

impl Default for Auth {
    fn default() -> (r: Self)
        ensures
            r.secret@ == "dev-secret-change-me"@,
    {
        Auth { secret: default_auth_secret() }
    }
}

impl Default for Settings {
    fn default() -> (r: Self)
        ensures
            r.environment@ == "development"@,
            r.server.port == 8080,
            r.logger.level@ == "info"@,
            r.database.uri@ == "mongodb://localhost:27017"@,
            r.database.name@ == "app"@,
            r.auth.secret@ == "dev-secret-change-me"@,
    {
        Settings {
            environment: default_environment(),
            server: Server::default(),
            logger: Logger::default(),
            database: Database::default(),
            auth: Auth::default(),
        }
    }
}

/// The decimal digits of `v`, most significant first, without leading
/// zeros.
pub open spec fn dec_seq(v: nat) -> Seq<char>
    decreases v,
{
    if v < 10 {
        seq![hex_char_of(v as int)]
    } else {
        dec_seq(v / 10).push(hex_char_of((v % 10) as int))
    }
}

fn u16_to_string(v: u16) -> (r: String)
    ensures
        r@ == dec_seq(v as nat),
    decreases v,
{
    if v < 10 {
        let d = hex_digit_str(v as u64);
        let r = d.to_owned();
        proof {
            assert(r@ =~= seq![hex_char_of(v as int)]);
        }
        r
    } else {
        let rest = u16_to_string(v / 10);
        let d = hex_digit_str((v % 10) as u64);
        let r = rest.concat(d);
        proof {
            assert(d@ =~= seq![hex_char_of((v as nat % 10) as int)]);
            assert(r@ =~= dec_seq((v / 10) as nat).push(hex_char_of((v as nat % 10) as int)));
        }
        r
    }
}

impl Server {
    /// The base address the server answers at, for a local deployment.
    pub fn base_url(&self) -> (r: String)
        ensures
            r@ == "http://localhost:"@ + dec_seq(self.port as nat),
    {
        let prefix = String::from_str("http://localhost:");
        prefix.concat(u16_to_string(self.port).as_str())
    }
}

/// Whether an environment flag's value switches a feature on.
pub fn is_truthy_flag(v: &str) -> (r: bool)
    ensures
        r == (v@ == "1"@ || v@ == "true"@ || v@ == "TRUE"@ || v@ == "yes"@ || v@ == "YES"@),
{
    let one = String::from_str("1");
    let t = String::from_str("true");
    let tu = String::from_str("TRUE");
    let y = String::from_str("yes");
    let yu = String::from_str("YES");
    let owned = v.to_owned();
    owned == one || owned == t || owned == tu || owned == y || owned == yu
}

} // verus!
