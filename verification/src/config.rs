//! Connector configuration: connection settings per database type plus the
//! statement, schedule and timezone.  Building a configuration yields a
//! `Connector` instance, failing only on a malformed cron expression.

use vstd::prelude::*;
use vstd::string::StringSliceAdditionalSpecFns;
use vstd::utf8::encode_utf8;
use crate::clock::tz_db_contains;
use crate::cron::CronSchedule;
use crate::engine::Connector;
use crate::engine::PollState;
use crate::errors::ConfigError;

verus! {

/// The database's well-known default port.
pub const DEFAULT_PORT: u16 = 3306;

pub fn default_host() -> (r: String)
    ensures
        r@ == "localhost"@,
{
    "localhost".to_owned()
}

pub fn default_port() -> (r: u16)
    ensures
        r == DEFAULT_PORT,
{
    DEFAULT_PORT
}

/// Connection settings of one MySQL source.
pub struct MySqlConfig {
    pub host: String,
    pub port: u16,
    pub database: Option<String>,
    pub user: Option<String>,
    pub password: Option<String>,
}

impl Default for MySqlConfig {
    /// The default points at the local loopback host on the well-known
    /// port, with no database, user or password.
    fn default() -> (r: Self)
        ensures
            r.host@ == "localhost"@,
            r.port == DEFAULT_PORT,
            r.database is None,
            r.user is None,
            r.password is None,
    {
        MySqlConfig {
            host: default_host(),
            port: default_port(),
            database: None,
            user: None,
            password: None,
        }
    }
}

impl MySqlConfig {
    /// Build the runnable instance for this source from the shared
    /// configuration.
    pub fn build(&self, config: &DatabaseConfig) -> (r: Result<Connector, ConfigError>)
        ensures
            r is Ok <==> (config.schedule matches Some(e) ==> CronSchedule::expr_wf(
                encode_utf8(e@),
            )),
            r matches Ok(c) ==> c.inv() && c.state == PollState::Waiting && c.statement@
                == config.statement@ && (config.schedule is None <==> c.schedule is None) && (
            config.schedule matches Some(e) ==> (c.schedule matches Some(s) && s.wf() && s.sem_ok(
                encode_utf8(e@),
            ))) && (match config.schedule_timezone {
                Option::None => c.timezone@ == "UTC"@,
                Option::Some(z) => c.timezone@ == if tz_db_contains(z@) {
                    z@
                } else {
                    "UTC"@
                },
            }),
    {
        Connector::new(&config.statement, &config.schedule, &config.schedule_timezone)
    }

    /// This source cannot acknowledge downstream delivery.
    pub fn can_acknowledge(&self) -> (r: bool)
        ensures
            !r,
    {
        false
    }
}

/// Which database backend a configuration drives.
pub enum DatabaseType {
    MySQL(MySqlConfig),
}

/// The shared configuration of one connector instance.
pub struct DatabaseConfig {
    pub inner: DatabaseType,
    pub statement: String,
    pub schedule: Option<String>,
    pub schedule_timezone: Option<String>,
}

impl Default for DatabaseConfig {
    /// The default selects the default MySQL backend, an empty statement,
    /// and no schedule or timezone.
    fn default() -> (r: Self)
        ensures
            r.statement@ == Seq::<char>::empty(),
            r.schedule is None,
            r.schedule_timezone is None,
            r.inner matches DatabaseType::MySQL(m) && m.host@ == "localhost"@ && m.port
                == DEFAULT_PORT && m.database is None && m.user is None && m.password is None,
    {
        DatabaseConfig {
            inner: DatabaseType::MySQL(MySqlConfig::default()),
            statement: String::new(),
            schedule: None,
            schedule_timezone: None,
        }
    }
}

impl DatabaseConfig {
    /// Build the runnable instance this configuration describes.
    pub fn build(&self) -> (r: Result<Connector, ConfigError>)
        ensures
            r is Ok <==> (self.schedule matches Some(e) ==> CronSchedule::expr_wf(
                encode_utf8(e@),
            )),
            r matches Ok(c) ==> c.inv() && c.state == PollState::Waiting && c.statement@
                == self.statement@ && (self.schedule is None <==> c.schedule is None) && (
            self.schedule matches Some(e) ==> (c.schedule matches Some(s) && s.wf() && s.sem_ok(
                encode_utf8(e@),
            ))) && (match self.schedule_timezone {
                Option::None => c.timezone@ == "UTC"@,
                Option::Some(z) => c.timezone@ == if tz_db_contains(z@) {
                    z@
                } else {
                    "UTC"@
                },
            }),
    {
        match &self.inner {
            DatabaseType::MySQL(c) => c.build(self),
        }
    }

    /// Acknowledgment support of the selected backend: none.
    pub fn can_acknowledge(&self) -> (r: bool)
        ensures
            !r,
    {
        match &self.inner {
            DatabaseType::MySQL(c) => c.can_acknowledge(),
        }
    }
}

} // verus!
