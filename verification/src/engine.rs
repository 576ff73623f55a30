//! The poll-loop state machine.
//!
//! One connector instance moves through Waiting, Querying, Emitting and
//! ShuttingDown.  Each step function consumes one outside event (a wake-up,
//! a query outcome, a completed hand-off) and returns the one action the
//! surrounding runtime must perform next: wait until a fire time, run the
//! statement, emit a record, or stop.  Connection and query failures are
//! fatal to the instance (fail-fast, no retry); a shutdown signal observed
//! while waiting stops the loop before any query is started.  Without a
//! configured schedule the statement runs exactly once, immediately.

use vstd::prelude::*;
use vstd::string::StringSliceAdditionalSpecFns;
use vstd::utf8::encode_utf8;
use crate::calendar::Timestamp;
use crate::clock::capture_now;
use crate::clock::tz_db_contains;
use crate::clock::tz_name_known;
use crate::cron::CronSchedule;
use crate::cron::MAX_REFERENCE_YEAR;
use crate::cron::search_exhausted;
use crate::cron::is_fire_outcome;
use crate::errors::ConfigError;
use crate::errors::RunError;
use crate::record::Column;
use crate::record::build_record;
use crate::record::record_matches;
use crate::record::rows_model;
use crate::value::GenericValue;

verus! {

/// The pool keeps at least this many live connections.
pub const POOL_MIN_CONNECTIONS: usize = 1;

/// The pool keeps at most this many live connections, so queries of one
/// instance never overlap.
pub const POOL_MAX_CONNECTIONS: usize = 1;

/// How long connection acquisition may block before it fails.
pub const ACQUIRE_TIMEOUT_SECS: u64 = 3;

#[derive(Clone, Copy, PartialEq, Eq, Structural, Debug)]
pub enum PollState {
    Waiting,
    Querying,
    Emitting,
    ShuttingDown,
}

/// What the surrounding runtime must do next.
pub enum Action {
    /// Sleep until the fire time (wall clock of the configured timezone),
    /// watching for the shutdown signal.
    Wait(Timestamp),
    /// Acquire a connection and execute the configured statement.
    Query,
    /// Hand the record to the pipeline sink and await the hand-off.
    Emit(GenericValue),
    /// The instance is done; `None` is a clean stop, `Some` names the fault.
    Stop(Option<RunError>),
}

/// One connector instance: its parsed schedule, resolved timezone name,
/// statement text, and lifecycle state.
pub struct Connector {
    pub schedule: Option<CronSchedule>,
    pub timezone: String,
    pub statement: String,
    pub state: PollState,
}

impl Connector {
    pub open spec fn inv(self) -> bool {
        self.schedule matches Some(s) ==> s.wf()
    }

    pub open spec fn same_config(self, other: Connector) -> bool {
        self.schedule == other.schedule && self.timezone@ == other.timezone@ && self.statement@
            == other.statement@
    }

    /// Construct an instance from its settings.  A malformed cron
    /// expression is fatal; an absent one selects single-shot mode.  An
    /// unknown or absent timezone identifier falls back to UTC rather than
    /// failing.
    pub fn new(statement: &String, schedule: &Option<String>, schedule_timezone: &Option<String>)
        -> (r: Result<Connector, ConfigError>)
        ensures
            r is Ok <==> (schedule matches Some(e) ==> CronSchedule::expr_wf(encode_utf8(e@))),
            r matches Err(e) ==> e == ConfigError::MalformedSchedule,
            r matches Ok(c) ==> c.inv() && c.state == PollState::Waiting && c.statement@
                == statement@ && (schedule is None <==> c.schedule is None) && (schedule matches
            Some(e) ==> (c.schedule matches Some(s) && s.wf() && s.sem_ok(encode_utf8(e@)))) && (
            match *schedule_timezone {
                Option::None => c.timezone@ == "UTC"@,
                Option::Some(z) => c.timezone@ == if tz_db_contains(z@) {
                    z@
                } else {
                    "UTC"@
                },
            }),
    {
        let parsed: Option<CronSchedule> = match schedule {
            Some(expr) => {
                match CronSchedule::parse(expr.as_str()) {
                    Ok(s) => Some(s),
                    Err(e) => {
                        return Err(e);
                    },
                }
            },
            None => None,
        };
        let timezone: String = match schedule_timezone {
            Some(z) => {
                if tz_name_known(z.as_str()) {
                    z.clone()
                } else {
                    "UTC".to_owned()
                }
            },
            None => "UTC".to_owned(),
        };
        Ok(
            Connector {
                schedule: parsed,
                timezone,
                statement: statement.clone(),
                state: PollState::Waiting,
            },
        )
    }

    /// Begin the lifecycle: schedule the first tick, or in single-shot mode
    /// query at once.
    pub fn on_start(&mut self, now: &Timestamp) -> (a: Action)
        requires
            old(self).inv(),
            old(self).state == PollState::Waiting,
            now.wf(),
        ensures
            final(self).inv(),
            final(self).same_config(*old(self)),
            old(self).schedule is None ==> final(self).state == PollState::Querying && a
                == Action::Query,
            old(self).schedule matches Some(s) ==> (a matches Action::Wait(t) ==> final(self).state == PollState::Waiting && is_fire_outcome(s, *now, t)) && (a matches
            Action::Stop(e) ==> final(self).state == PollState::ShuttingDown && e == Some(
                RunError::Schedule,
            )) && (a is Wait || a is Stop) && (a is Stop ==> now.year > MAX_REFERENCE_YEAR
                || search_exhausted(s, *now)),
    {
        self.schedule_next(now)
    }

    /// The wait ended: either the shutdown signal was observed first (stop
    /// cleanly, start no query) or the fire time arrived (query now).
    pub fn on_wake(&mut self, shutdown_seen: bool) -> (a: Action)
        requires
            old(self).inv(),
            old(self).state == PollState::Waiting,
        ensures
            final(self).inv(),
            final(self).same_config(*old(self)),
            shutdown_seen ==> final(self).state == PollState::ShuttingDown && a == Action::Stop(
                None,
            ),
            !shutdown_seen ==> final(self).state == PollState::Querying && a == Action::Query,
    {
        if shutdown_seen {
            self.state = PollState::ShuttingDown;
            Action::Stop(None)
        } else {
            self.state = PollState::Querying;
            Action::Query
        }
    }

    /// The query finished.  A failure is fatal and emits nothing; a result
    /// set is mapped into one record stamped with a fresh capture instant.
    pub fn on_query_result(&mut self, outcome: Result<Vec<Vec<Column>>, RunError>) -> (a: Action)
        requires
            old(self).inv(),
            old(self).state == PollState::Querying,
        ensures
            final(self).inv(),
            final(self).same_config(*old(self)),
            outcome matches Err(e) ==> final(self).state == PollState::ShuttingDown && a
                == Action::Stop(Some(e)),
            outcome matches Ok(rows) ==> final(self).state == PollState::Emitting && (a matches
            Action::Emit(rec) && exists|ts: Timestamp|
                ts.wf() && #[trigger] record_matches(rec, rows_model(rows@), ts)),
    {
        match outcome {
            Err(e) => {
                self.state = PollState::ShuttingDown;
                Action::Stop(Some(e))
            },
            Ok(rows) => {
                let capture = capture_now();
                let rec = build_record(&rows, capture);
                self.state = PollState::Emitting;
                Action::Emit(rec)
            },
        }
    }

    /// The record was handed over.  In single-shot mode the instance is
    /// done; otherwise the next tick is scheduled from the current time, so
    /// late ticks are never queued or replayed.
    pub fn on_emitted(&mut self, now: &Timestamp) -> (a: Action)
        requires
            old(self).inv(),
            old(self).state == PollState::Emitting,
            now.wf(),
        ensures
            final(self).inv(),
            final(self).same_config(*old(self)),
            old(self).schedule is None ==> final(self).state == PollState::ShuttingDown && a
                == Action::Stop(None),
            old(self).schedule matches Some(s) ==> (a matches Action::Wait(t) ==> final(self).state == PollState::Waiting && is_fire_outcome(s, *now, t)) && (a matches
            Action::Stop(e) ==> final(self).state == PollState::ShuttingDown && e == Some(
                RunError::Schedule,
            )) && (a is Wait || a is Stop) && (a is Stop ==> now.year > MAX_REFERENCE_YEAR
                || search_exhausted(s, *now)),
    {
        if self.schedule.is_none() {
            self.state = PollState::ShuttingDown;
            return Action::Stop(None);
        }
        self.schedule_next(now)
    }

    /// Compute the next fire time and move to Waiting, or stop fatally if
    /// none can be computed.  Without a schedule, query immediately.
    fn schedule_next(&mut self, now: &Timestamp) -> (a: Action)
        requires
            old(self).inv(),
            now.wf(),
        ensures
            final(self).inv(),
            final(self).same_config(*old(self)),
            old(self).schedule is None ==> final(self).state == PollState::Querying && a
                == Action::Query,
            old(self).schedule matches Some(s) ==> (a matches Action::Wait(t) ==> final(self).state == PollState::Waiting && is_fire_outcome(s, *now, t)) && (a matches
            Action::Stop(e) ==> final(self).state == PollState::ShuttingDown && e == Some(
                RunError::Schedule,
            )) && (a is Wait || a is Stop) && (a is Stop ==> now.year > MAX_REFERENCE_YEAR
                || search_exhausted(s, *now)),
    {
        match &self.schedule {
            None => {
                self.state = PollState::Querying;
                Action::Query
            },
            Some(s) => {
                if now.year > MAX_REFERENCE_YEAR {
                    self.state = PollState::ShuttingDown;
                    return Action::Stop(Some(RunError::Schedule));
                }
                match s.next_fire_time(now) {
                    Ok(t) => {
                        self.state = PollState::Waiting;
                        Action::Wait(t)
                    },
                    Err(_) => {
                        self.state = PollState::ShuttingDown;
                        Action::Stop(Some(RunError::Schedule))
                    },
                }
            },
        }
    }
}

} // verus!
