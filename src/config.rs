use vstd::prelude::*;

verus! {

/// The values that a configuration file gave, each absent when the file
/// has no such key.
pub struct Settings {
    pub sqlite3_file: Option<String>,
    pub database_host: Option<String>,
    pub database_port: Option<i64>,
    pub database_name: Option<String>,
    pub database_schema: Option<String>,
    pub database_user: Option<String>,
    pub database_password: Option<String>,
    pub api_uri: Option<String>,
    pub api_key: Option<String>,
    pub api_notification_topic: Option<String>,
    pub api_notification_type: Option<String>,
}

/// The configuration of one cycle, every value resolved.
pub struct Parameters {
    pub sqlite3_file: String,
    pub database_host: String,
    pub database_port: i64,
    pub database_name: String,
    pub database_schema: String,
    pub database_user: String,
    pub database_password: String,
    pub api_uri: String,
    pub api_key: String,
    pub api_notification_topic: String,
    pub api_notification_type: String,
}

/// A setting that the chosen mode needs is missing.
#[derive(Debug, PartialEq, Eq, Clone, Copy)]
pub enum ConfigError {
    /// Host, port, name, user or password of the Postgres database.
    MissingDatabaseSetting,
    /// Address or key of the notification service.
    MissingApiSetting,
}

pub open spec fn text_or(o: Option<String>, default: Seq<char>) -> Seq<char> {
    match o {
        Some(s) => s@,
        None => default,
    }
}

/// The Postgres settings are all there (the schema may be absent).
pub open spec fn database_complete(s: Settings) -> bool {
    s.database_host is Some && s.database_port is Some && s.database_name is Some
        && s.database_user is Some && s.database_password is Some
}

pub open spec fn api_complete(s: Settings) -> bool {
    s.api_uri is Some && s.api_key is Some
}

fn text_or_default(o: Option<String>, default: &str) -> (r: String)
    ensures
        r@ == text_or(o, default@),
{
    match o {
        Some(s) => s,
        None => String::from_str(default),
    }
}

/// Resolves a cycle's configuration. With `use_sqlite3` only the SQLite
/// file is read (default `./sisPoller.sqlite3`) and the Postgres values
/// keep their defaults; otherwise host, port, name, user and password are
/// required and the schema defaults to empty. Unless `initialize`, the
/// notification address and key are required, the topic defaults to
/// `production` and the type to `update_email`; with it, none of them is
/// read.
pub fn load_configuration(settings: Settings, use_sqlite3: bool, initialize: bool) -> (r: Result<
    Parameters,
    ConfigError,
>)
    ensures
        r is Err <==> ((!use_sqlite3 && !database_complete(settings)) || (!initialize
            && !api_complete(settings))),
        r is Err ==> (r->Err_0 == ConfigError::MissingDatabaseSetting <==> (!use_sqlite3
            && !database_complete(settings))),
        r matches Ok(p) ==> {
            &&& use_sqlite3 ==> {
                &&& p.sqlite3_file@ == text_or(settings.sqlite3_file, "./sisPoller.sqlite3"@)
                &&& p.database_host@ == "localhost"@
                &&& p.database_port == 5432
                &&& p.database_name@ == Seq::<char>::empty()
                &&& p.database_schema@ == Seq::<char>::empty()
                &&& p.database_user@ == Seq::<char>::empty()
                &&& p.database_password@ == Seq::<char>::empty()
            }
            &&& !use_sqlite3 ==> {
                &&& p.sqlite3_file@ == "./sisPoller.sqlite3"@
                &&& p.database_host@ == settings.database_host->0@
                &&& p.database_port == settings.database_port->0
                &&& p.database_name@ == settings.database_name->0@
                &&& p.database_schema@ == text_or(settings.database_schema, Seq::empty())
                &&& p.database_user@ == settings.database_user->0@
                &&& p.database_password@ == settings.database_password->0@
            }
            &&& initialize ==> {
                &&& p.api_uri@ == Seq::<char>::empty()
                &&& p.api_key@ == Seq::<char>::empty()
                &&& p.api_notification_topic@ == "production"@
                &&& p.api_notification_type@ == "update_email"@
            }
            &&& !initialize ==> {
                &&& p.api_uri@ == settings.api_uri->0@
                &&& p.api_key@ == settings.api_key->0@
                &&& p.api_notification_topic@ == text_or(
                    settings.api_notification_topic,
                    "production"@,
                )
                &&& p.api_notification_type@ == text_or(
                    settings.api_notification_type,
                    "update_email"@,
                )
            }
        },
{
    proof {
        reveal_strlit("");
    }
    let Settings {
        sqlite3_file,
        database_host,
        database_port,
        database_name,
        database_schema,
        database_user,
        database_password,
        api_uri,
        api_key,
        api_notification_topic,
        api_notification_type,
    } = settings;
    let mut p = Parameters {
        sqlite3_file: String::from_str("./sisPoller.sqlite3"),
        database_host: String::from_str("localhost"),
        database_port: 5432,
        database_name: String::new(),
        database_schema: String::new(),
        database_user: String::new(),
        database_password: String::new(),
        api_uri: String::new(),
        api_key: String::new(),
        api_notification_topic: String::from_str("production"),
        api_notification_type: String::from_str("update_email"),
    };
    if use_sqlite3 {
        p.sqlite3_file = text_or_default(sqlite3_file, "./sisPoller.sqlite3");
    } else {
        match (database_host, database_port, database_name, database_user, database_password) {
            (Some(host), Some(port), Some(name), Some(user), Some(password)) => {
                p.database_host = host;
                p.database_port = port;
                p.database_name = name;
                p.database_user = user;
                p.database_password = password;
                p.database_schema = text_or_default(database_schema, "");
            },
            _ => return Err(ConfigError::MissingDatabaseSetting),
        }
    }
    if !initialize {
        match (api_uri, api_key) {
            (Some(uri), Some(key)) => {
                p.api_uri = uri;
                p.api_key = key;
                p.api_notification_topic = text_or_default(api_notification_topic, "production");
                p.api_notification_type = text_or_default(api_notification_type, "update_email");
            },
            _ => return Err(ConfigError::MissingApiSetting),
        }
    }
    Ok(p)
}

} // verus!
