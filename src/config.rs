use vstd::prelude::*;
use crate::error::ErrorType;
use crate::text::{decimal, push_decimal, text_equal};

verus! {

/// The database backends the engine can drive.
#[derive(Debug, Clone, Copy, PartialEq, Eq, Structural)]
pub enum DriverType {
    ClickHouseDriver,
}

/// The URI scheme of a backend.
pub open spec fn scheme(driver: DriverType) -> Seq<char> {
    match driver {
        DriverType::ClickHouseDriver => "tcp"@,
    }
}

impl DriverType {
    /// The URI scheme of this backend.
    pub fn prefix(&self) -> (r: &'static str)
        ensures
            r@ == scheme(*self),
    {
        match *self {
            DriverType::ClickHouseDriver => "tcp",
        }
    }

    /// The backend named `name`: `clickhouse` is the one known name.
    pub fn parse(name: &str) -> (r: Result<DriverType, ErrorType>)
        ensures
            name@ == "clickhouse"@ ==> r == Ok::<DriverType, ErrorType>(DriverType::ClickHouseDriver),
            name@ != "clickhouse"@ ==> (r matches Err(ErrorType::InvalidDriverType(n)) && n@ == name@),
    {
        if text_equal(name, "clickhouse") {
            Ok(DriverType::ClickHouseDriver)
        } else {
            Err(ErrorType::InvalidDriverType(name.to_owned()))
        }
    }
}

impl std::str::FromStr for DriverType {
    type Err = ErrorType;

    fn from_str(s: &str) -> Result<DriverType, ErrorType> {
        DriverType::parse(s)
    }
}

/// An integer in decimal, with a leading `-` when negative.
pub open spec fn signed_decimal(n: int) -> Seq<char> {
    if n < 0 {
        seq!['-'] + decimal((-n) as nat)
    } else {
        decimal(n as nat)
    }
}

/// The setting `o`, or `fallback` when it is absent.
pub open spec fn text_or(o: Option<String>, fallback: Seq<char>) -> Seq<char> {
    match o {
        Some(s) => s@,
        None => fallback,
    }
}

/// `label` followed by the setting `o`, or nothing when it is absent.
pub open spec fn labelled(label: Seq<char>, o: Option<String>) -> Seq<char> {
    match o {
        Some(s) => label + s@,
        None => Seq::empty(),
    }
}

/// The connection URI of a configuration: the explicit URI when there is
/// one, else `<scheme>://<host>:<port>/` (host `localhost` and port 8123 by
/// default) followed by `?username=<user>` and `?password=<password>` for the
/// settings present.
pub open spec fn uri_of(c: Config) -> Seq<char> {
    match c.uri {
        Some(u) => u@,
        None => scheme(c.driver) + "://"@ + text_or(c.db_host, "localhost"@) + ":"@ + signed_decimal(
            match c.db_port {
                Some(p) => p as int,
                None => 8123,
            },
        ) + "/"@ + labelled("?username="@, c.db_user_name) + labelled("?password="@, c.db_pass),
    }
}

/// The settings of the tool: which backend, where the migrations are, and
/// how to reach the database.
#[derive(Debug, Clone, PartialEq)]
pub struct Config {
    pub driver: DriverType,
    pub migrations: Option<String>,
    pub uri: Option<String>,
    pub db_host: Option<String>,
    pub db_user_name: Option<String>,
    pub db_pass: Option<String>,
    pub db_port: Option<i32>,
    pub db_database: Option<String>,
}

impl Default for Config {
    /// A ClickHouse configuration with the URI `http://localhost:8083` and
    /// nothing else set.
    fn default() -> (r: Config)
        ensures
            r.driver == DriverType::ClickHouseDriver,
            r.uri matches Some(u) && u@ == "http://localhost:8083"@,
            r.migrations is None,
            r.db_host is None,
            r.db_user_name is None,
            r.db_pass is None,
            r.db_port is None,
            r.db_database is None,
    {
        Config {
            driver: DriverType::ClickHouseDriver,
            uri: Some("http://localhost:8083".to_owned()),
            migrations: None,
            db_host: None,
            db_user_name: None,
            db_pass: None,
            db_port: None,
            db_database: None,
        }
    }
}

fn some_text(s: &str) -> (r: Option<String>)
    ensures
        r matches Some(t) && t@ == s@,
{
    Some(s.to_owned())
}

impl Config {
    /// An empty configuration for the backend named `driver`.
    pub fn new(driver: &str) -> (r: Result<Config, ErrorType>)
        ensures
            driver@ == "clickhouse"@ ==> (r matches Ok(c) && c.driver == DriverType::ClickHouseDriver
                && c.migrations is None && c.uri is None && c.db_host is None && c.db_user_name is None
                && c.db_pass is None && c.db_port is None && c.db_database is None),
            driver@ != "clickhouse"@ ==> (r matches Err(ErrorType::InvalidDriverType(n)) && n@
                == driver@),
    {
        let driver_type = match DriverType::parse(driver) {
            Ok(d) => d,
            Err(e) => return Err(e),
        };
        Ok(
            Config {
                driver: driver_type,
                uri: None,
                migrations: None,
                db_host: None,
                db_user_name: None,
                db_pass: None,
                db_port: None,
                db_database: None,
            },
        )
    }

    /// This configuration with the URI set to `uri`.
    pub fn uri(self, uri: &str) -> (r: Config)
        ensures
            r.uri matches Some(u) && u@ == uri@,
            r == (Config { uri: r.uri, ..self }),
    {
        Config { uri: some_text(uri), ..self }
    }

    /// This configuration with the host set to `host`.
    pub fn host(self, host: &str) -> (r: Config)
        ensures
            r.db_host matches Some(h) && h@ == host@,
            r == (Config { db_host: r.db_host, ..self }),
    {
        Config { db_host: some_text(host), ..self }
    }

    /// This configuration with the user name set to `user_name`.
    pub fn user_name(self, user_name: &str) -> (r: Config)
        ensures
            r.db_user_name matches Some(u) && u@ == user_name@,
            r == (Config { db_user_name: r.db_user_name, ..self }),
    {
        Config { db_user_name: some_text(user_name), ..self }
    }

    /// This configuration with the password set to `db_pass`.
    pub fn db_pass(self, db_pass: &str) -> (r: Config)
        ensures
            r.db_pass matches Some(p) && p@ == db_pass@,
            r == (Config { db_pass: r.db_pass, ..self }),
    {
        Config { db_pass: some_text(db_pass), ..self }
    }

    /// This configuration with the port set to `db_port`.
    pub fn db_port(self, db_port: &i32) -> (r: Config)
        ensures
            r == (Config { db_port: Some(*db_port), ..self }),
    {
        Config { db_port: Some(*db_port), ..self }
    }

    /// This configuration with the database set to `db_database`.
    pub fn db_database(self, db_database: &str) -> (r: Config)
        ensures
            r.db_database matches Some(d) && d@ == db_database@,
            r == (Config { db_database: r.db_database, ..self }),
    {
        Config { db_database: some_text(db_database), ..self }
    }

    /// The connection URI of this configuration.
    pub fn build_uri(&self) -> (r: String)
        ensures
            r@ == uri_of(*self),
    {
        proof {
            reveal_strlit("-");
        }
        match &self.uri {
            Some(uri) => uri.clone(),
            None => {
                let mut url = self.driver.prefix().to_owned();
                url.append("://");
                match &self.db_host {
                    Some(host) => url.append(host.as_str()),
                    None => url.append("localhost"),
                }
                url.append(":");
                let port: i32 = match self.db_port {
                    Some(p) => p,
                    None => 8123,
                };
                let wide = port as i64;
                if wide < 0 {
                    url.append("-");
                    push_decimal(&mut url, (-wide) as u64);
                } else {
                    push_decimal(&mut url, wide as u64);
                }
                url.append("/");
                match &self.db_user_name {
                    Some(user) => {
                        url.append("?username=");
                        url.append(user.as_str());
                    },
                    None => {},
                }
                match &self.db_pass {
                    Some(password) => {
                        url.append("?password=");
                        url.append(password.as_str());
                    },
                    None => {},
                }
                assert(url@ =~= uri_of(*self));
                url
            },
        }
    }
}

} // verus!
