//! The oracle consensus resolver.
//!
//! Trusted sources report one value each on a data request; the resolver
//! turns the reports into a single value and keeps the record of how it got
//! there. A request that was resolved takes no further reports, and its
//! record never changes.

use crate::authorization::{
    get_admin, initialize_admin, register_trusted_contract, require_admin,
    lemma_listed_auth_unique, require_trusted_contract, unregister_trusted_contract, AuthError,
    AuthSnapshot, AuthStore, AuthView, Role,
};
use crate::consensus::{
    resolution_of, resolve_submissions, ConsensusError, OracleConfig, OracleResolution,
    OracleSubmission,
};
use crate::table::{lemma_listed_map_unique, lists_map, lists_set, Table};
use crate::types::Address;
use vstd::prelude::*;

verus! {

/// Why the resolver refused an operation.
#[derive(Clone, Copy, Debug, PartialEq, Eq, Structural, Hash)]
pub enum OracleError {
    /// The caller's role does not allow the action.
    Unauthorized,
    /// The resolver is paused.
    Paused,
    /// A threshold is out of range.
    InvalidInput,
    /// The request was resolved and takes no further reports.
    InvalidState,
    /// The resolver was not initialized.
    NotInitialized,
    /// The resolver was initialized before.
    AlreadyInitialized,
    /// The role is not valid here.
    InvalidRole,
    /// No role is recorded.
    RoleNotFound,
    /// The source is not on the allowlist.
    NotTrustedContract,
    /// The source has reported on this request before.
    DuplicateSubmission,
    /// A report is older than the staleness threshold.
    StaleData,
    /// There are fewer reports than the configured minimum.
    InsufficientSubmissions,
    /// Too small a share of the reports agrees.
    ConsensusNotReached,
}

impl OracleError {
    /// The resolver error that stands for an authorization error.
    pub open spec fn of_auth(err: AuthError) -> OracleError {
        match err {
            AuthError::Unauthorized => OracleError::Unauthorized,
            AuthError::InvalidRole => OracleError::InvalidRole,
            AuthError::RoleNotFound => OracleError::RoleNotFound,
            AuthError::NotTrustedContract => OracleError::NotTrustedContract,
            AuthError::AlreadyInitialized => OracleError::AlreadyInitialized,
        }
    }

    /// The resolver error that stands for a failed resolution.
    pub open spec fn of_consensus(err: ConsensusError) -> OracleError {
        match err {
            ConsensusError::StaleData => OracleError::StaleData,
            ConsensusError::InsufficientSubmissions => OracleError::InsufficientSubmissions,
            ConsensusError::ConsensusNotReached => OracleError::ConsensusNotReached,
        }
    }
}

impl From<AuthError> for OracleError {
    fn from(err: AuthError) -> (r: OracleError) {
        match err {
            AuthError::Unauthorized => OracleError::Unauthorized,
            AuthError::InvalidRole => OracleError::InvalidRole,
            AuthError::RoleNotFound => OracleError::RoleNotFound,
            AuthError::NotTrustedContract => OracleError::NotTrustedContract,
            AuthError::AlreadyInitialized => OracleError::AlreadyInitialized,
        }
    }
}

impl vstd::std_specs::convert::FromSpecImpl<AuthError> for OracleError {
    open spec fn obeys_from_spec() -> bool {
        true
    }

    open spec fn from_spec(err: AuthError) -> OracleError {
        OracleError::of_auth(err)
    }
}

impl From<ConsensusError> for OracleError {
    fn from(err: ConsensusError) -> (r: OracleError) {
        match err {
            ConsensusError::StaleData => OracleError::StaleData,
            ConsensusError::InsufficientSubmissions => OracleError::InsufficientSubmissions,
            ConsensusError::ConsensusNotReached => OracleError::ConsensusNotReached,
        }
    }
}

impl vstd::std_specs::convert::FromSpecImpl<ConsensusError> for OracleError {
    open spec fn obeys_from_spec() -> bool {
        true
    }

    open spec fn from_spec(err: ConsensusError) -> OracleError {
        OracleError::of_consensus(err)
    }
}

/// A notification for the audit log, one per committed operation.
#[derive(Clone, Copy, Debug, PartialEq, Eq, Structural, Hash)]
pub enum OracleEvent {
    /// The resolver was initialized by `admin`.
    Initialized { admin: Address },
    /// `admin` replaced the thresholds.
    ConfigUpdated { admin: Address },
    /// `admin` put `source` on the allowlist.
    SourceRegistered { source: Address, admin: Address },
    /// `admin` took `source` off the allowlist.
    SourceUnregistered { source: Address, admin: Address },
    /// `source` reported `value` on the request `data_id`.
    DataSubmitted { data_id: u64, source: Address, value: i128 },
    /// The request `data_id` was resolved.
    DataResolved { data_id: u64, consensus_value: i128, accepted_count: u64, rejected_count: u64 },
    /// `admin` paused the resolver.
    Paused { admin: Address },
    /// `admin` resumed the resolver.
    Unpaused { admin: Address },
}

/// Whether the thresholds make sense: at least one report is asked for,
/// and the share of them that must agree is between 1 and 100 percent.
pub open spec fn config_valid(config: OracleConfig) -> bool {
    config.min_submissions >= 1 && 1 <= config.consensus_threshold_percent <= 100
}

/// Whether one of the reports comes from `source`.
pub open spec fn reported_by(reports: Seq<OracleSubmission>, source: Address) -> bool {
    exists|i: int| 0 <= i < reports.len() && (#[trigger] reports[i]).source == source
}

/// Whether no source occurs twice among the reports.
pub open spec fn one_per_source(reports: Seq<OracleSubmission>) -> bool {
    forall|i: int, j: int|
        0 <= i < j < reports.len() ==> (#[trigger] reports[i]).source != (
        #[trigger] reports[j]).source
}

/// What an [`OracleContract`] holds, as mathematical values.
pub struct OracleView {
    /// Roles and trusted sources.
    pub auth: AuthView,
    /// The thresholds, once the resolver was initialized.
    pub config: Option<OracleConfig>,
    /// Whether the resolver is paused.
    pub paused: bool,
    /// The reports on each request, in the order of arrival.
    pub submissions: Map<u64, Seq<OracleSubmission>>,
    /// The record of each resolved request.
    pub resolutions: Map<u64, OracleResolution>,
    /// The notifications that were not collected yet, oldest first.
    pub events: Seq<OracleEvent>,
}

impl OracleView {
    /// The view of a resolver on which nothing was done yet.
    pub open spec fn empty() -> OracleView {
        OracleView {
            auth: AuthView::empty(),
            config: None,
            paused: false,
            submissions: Map::empty(),
            resolutions: Map::empty(),
            events: Seq::empty(),
        }
    }

    /// The view with one more notification in the log.
    pub open spec fn logged(self, event: OracleEvent) -> OracleView {
        OracleView { events: self.events.push(event), ..self }
    }

    /// What holds of the resolver between any two operations: every source
    /// has reported at most once on each request.
    pub open spec fn consistent(self) -> bool {
        &&& forall|id: u64| #[trigger]
            self.submissions.contains_key(id) ==> one_per_source(self.submissions[id])
        &&& self.config.is_some() ==> config_valid(self.config.unwrap())
    }

    /// The reports on the request `data_id`; none if there was no report.
    pub open spec fn reports(self, data_id: u64) -> Seq<OracleSubmission> {
        if self.submissions.contains_key(data_id) {
            self.submissions[data_id]
        } else {
            Seq::empty()
        }
    }

    /// What `initialize` does: it works once, with thresholds that make
    /// sense.
    pub open spec fn initialize(self, admin: Address, config: OracleConfig) -> Result<
        OracleView,
        OracleError,
    > {
        if self.auth.admin.is_some() {
            Err(OracleError::AlreadyInitialized)
        } else if !config_valid(config) {
            Err(OracleError::InvalidInput)
        } else {
            Ok(
                OracleView {
                    auth: AuthView {
                        admin: Some(admin),
                        roles: self.auth.roles.insert(admin, Role::Admin),
                        trusted: self.auth.trusted,
                    },
                    config: Some(config),
                    ..self
                }.logged(OracleEvent::Initialized { admin }),
            )
        }
    }

    /// What `update_config` does: an admin replaces the thresholds.
    pub open spec fn update_config(self, admin: Address, config: OracleConfig) -> Result<
        OracleView,
        OracleError,
    > {
        if self.auth.role_of(admin) != Role::Admin {
            Err(OracleError::Unauthorized)
        } else if self.config.is_none() {
            Err(OracleError::NotInitialized)
        } else if !config_valid(config) {
            Err(OracleError::InvalidInput)
        } else {
            Ok(
                OracleView { config: Some(config), ..self }.logged(
                    OracleEvent::ConfigUpdated { admin },
                ),
            )
        }
    }

    /// What `register_source` and `unregister_source` do: an admin puts a
    /// source on the allowlist or takes it off.
    pub open spec fn set_source(self, admin: Address, source: Address, trusted: bool) -> Result<
        OracleView,
        OracleError,
    > {
        if self.auth.role_of(admin) != Role::Admin {
            Err(OracleError::Unauthorized)
        } else {
            Ok(
                OracleView {
                    auth: AuthView {
                        admin: self.auth.admin,
                        roles: self.auth.roles,
                        trusted: if trusted {
                            self.auth.trusted.insert(source)
                        } else {
                            self.auth.trusted.remove(source)
                        },
                    },
                    ..self
                }.logged(
                    if trusted {
                        OracleEvent::SourceRegistered { source, admin }
                    } else {
                        OracleEvent::SourceUnregistered { source, admin }
                    },
                ),
            )
        }
    }

    /// What `pause` and `unpause` do: an admin sets the switch.
    pub open spec fn set_paused(self, admin: Address, paused: bool) -> Result<
        OracleView,
        OracleError,
    > {
        if self.auth.role_of(admin) != Role::Admin {
            Err(OracleError::Unauthorized)
        } else {
            Ok(
                OracleView { paused, ..self }.logged(
                    if paused {
                        OracleEvent::Paused { admin }
                    } else {
                        OracleEvent::Unpaused { admin }
                    },
                ),
            )
        }
    }

    /// What `submit` does: a trusted source adds its one report to a
    /// request that is still open.
    pub open spec fn submit(self, source: Address, data_id: u64, value: i128, now: u64) -> Result<
        OracleView,
        OracleError,
    > {
        if self.paused {
            Err(OracleError::Paused)
        } else if self.config.is_none() {
            Err(OracleError::NotInitialized)
        } else if !self.auth.trusted.contains(source) {
            Err(OracleError::NotTrustedContract)
        } else if self.resolutions.contains_key(data_id) {
            Err(OracleError::InvalidState)
        } else if reported_by(self.reports(data_id), source) {
            Err(OracleError::DuplicateSubmission)
        } else {
            Ok(
                OracleView {
                    submissions: self.submissions.insert(
                        data_id,
                        self.reports(data_id).push(
                            OracleSubmission { source, value, timestamp: now },
                        ),
                    ),
                    ..self
                }.logged(OracleEvent::DataSubmitted { data_id, source, value }),
            )
        }
    }

    /// What `resolve` returns: the record that is kept, or else the result
    /// of resolving the reports at the time `now`.
    pub open spec fn resolve_result(self, data_id: u64, now: u64) -> Result<
        OracleResolution,
        OracleError,
    > {
        if self.paused {
            Err(OracleError::Paused)
        } else if self.config.is_none() {
            Err(OracleError::NotInitialized)
        } else if self.resolutions.contains_key(data_id) {
            Ok(self.resolutions[data_id])
        } else {
            match resolution_of(self.reports(data_id), self.config.unwrap(), now) {
                Ok(record) => Ok(record),
                Err(e) => Err(OracleError::of_consensus(e)),
            }
        }
    }

    /// What `resolve` leaves behind: a new record is kept and logged; a
    /// failure, or a record that was kept before, changes nothing.
    pub open spec fn resolve(self, data_id: u64, now: u64) -> OracleView {
        match self.resolve_result(data_id, now) {
            Ok(record) => if self.resolutions.contains_key(data_id) {
                self
            } else {
                OracleView {
                    resolutions: self.resolutions.insert(data_id, record),
                    ..self
                }.logged(
                    OracleEvent::DataResolved {
                        data_id,
                        consensus_value: record.consensus_value,
                        accepted_count: record.accepted_count,
                        rejected_count: record.rejected_count,
                    },
                )
            },
            Err(_) => self,
        }
    }
}

/// Whether `r` and `after` are what an operation with the outcome `outcome`
/// leaves behind on a resolver that showed `before`.
pub open spec fn oracle_committed(
    outcome: Result<OracleView, OracleError>,
    before: OracleView,
    after: OracleView,
    r: Result<(), OracleError>,
) -> bool {
    match outcome {
        Ok(v) => r == Ok::<(), OracleError>(()) && after == v,
        Err(e) => r == Err::<(), OracleError>(e) && after == before,
    }
}

/// The oracle consensus resolver: its sources, thresholds, reports and
/// records.
#[derive(Debug)]
pub struct OracleContract {
    auth: AuthStore,
    config: Option<OracleConfig>,
    paused: bool,
    submissions: Table<u64, Vec<OracleSubmission>>,
    resolutions: Table<u64, OracleResolution>,
    events: Vec<OracleEvent>,
}

impl View for OracleContract {
    type V = OracleView;

    closed spec fn view(&self) -> OracleView {
        OracleView {
            auth: self.auth@,
            config: self.config,
            paused: self.paused,
            submissions: self.submissions@.map_values(|v: Vec<OracleSubmission>| v@),
            resolutions: self.resolutions@,
            events: self.events@,
        }
    }
}

/// Decides whether `source` has a report among `reports`.
fn has_reported(reports: &Vec<OracleSubmission>, source: Address) -> (r: bool)
    ensures
        r == reported_by(reports@, source),
{
    let mut i: usize = 0;
    while i < reports.len()
        invariant
            i <= reports@.len(),
            forall|k: int| 0 <= k < i ==> (#[trigger] reports@[k]).source != source,
        decreases reports@.len() - i,
    {
        if reports[i].source == source {
            assert(reports@[i as int].source == source);
            return true;
        }
        i += 1;
    }
    false
}

/// Decides whether the thresholds make sense.
fn valid_config(config: &OracleConfig) -> (r: bool)
    ensures
        r == config_valid(*config),
{
    config.min_submissions >= 1 && config.consensus_threshold_percent >= 1
        && config.consensus_threshold_percent <= 100
}

impl OracleContract {
    /// The representation invariant of the resolver's tables.
    pub closed spec fn inv(&self) -> bool {
        self.auth.wf() && self.submissions.wf() && self.resolutions.wf()
    }

    /// A resolver is well formed when its tables are and its view is
    /// consistent.
    pub open spec fn wf(&self) -> bool {
        self.inv() && self@.consistent()
    }

    /// A resolver on which nothing was done yet.
    pub fn new() -> (oracle: OracleContract)
        ensures
            oracle.wf(),
            oracle@ == OracleView::empty(),
    {
        let oracle = OracleContract {
            auth: AuthStore::new(),
            config: None,
            paused: false,
            submissions: Table::new(),
            resolutions: Table::new(),
            events: Vec::new(),
        };
        assert(oracle@.submissions =~= Map::<u64, Seq<OracleSubmission>>::empty());
        assert(oracle@.events =~= Seq::<OracleEvent>::empty());
        oracle
    }

    /// Sets the resolver up with its admin and thresholds.
    ///
    /// Fails with `AlreadyInitialized` on a resolver that has an admin and
    /// with `InvalidInput` if no report is asked for or the consensus
    /// threshold is not between 1 and 100 percent.
    pub fn initialize(&mut self, admin: Address, config: OracleConfig) -> (r: Result<
        (),
        OracleError,
    >)
        requires
            old(self).wf(),
        ensures
            final(self).wf(),
            oracle_committed(old(self)@.initialize(admin, config), old(self)@, final(self)@, r),
    {
        if get_admin(&self.auth).is_some() {
            return Err(OracleError::AlreadyInitialized);
        }
        if !valid_config(&config) {
            return Err(OracleError::InvalidInput);
        }
        match initialize_admin(&mut self.auth, admin) {
            Ok(()) => {},
            Err(e) => {
                return Err(OracleError::from(e));
            },
        }
        self.config = Some(config);
        self.events.push(OracleEvent::Initialized { admin });
        Ok(())
    }

    /// Replaces the thresholds. Only an admin may do so.
    ///
    /// Fails with `Unauthorized` for any other caller, `NotInitialized`
    /// before `initialize`, and `InvalidInput` if no report is asked for or
    /// the consensus threshold is not between 1 and 100 percent.
    pub fn update_config(&mut self, admin: Address, config: OracleConfig) -> (r: Result<
        (),
        OracleError,
    >)
        requires
            old(self).wf(),
        ensures
            final(self).wf(),
            oracle_committed(old(self)@.update_config(admin, config), old(self)@, final(self)@, r),
    {
        match require_admin(&self.auth, &admin) {
            Ok(()) => {},
            Err(e) => {
                return Err(OracleError::from(e));
            },
        }
        if self.config.is_none() {
            return Err(OracleError::NotInitialized);
        }
        if !valid_config(&config) {
            return Err(OracleError::InvalidInput);
        }
        self.config = Some(config);
        self.events.push(OracleEvent::ConfigUpdated { admin });
        Ok(())
    }

    /// The thresholds in force, if the resolver was initialized.
    pub fn get_config(&self) -> (r: Option<OracleConfig>)
        ensures
            r == self@.config,
    {
        self.config
    }

    /// Puts `source` on the allowlist of sources. Only an admin may do so.
    pub fn register_source(&mut self, admin: Address, source: Address) -> (r: Result<
        (),
        OracleError,
    >)
        requires
            old(self).wf(),
        ensures
            final(self).wf(),
            oracle_committed(
                old(self)@.set_source(admin, source, true),
                old(self)@,
                final(self)@,
                r,
            ),
    {
        match register_trusted_contract(&mut self.auth, &admin, &source) {
            Ok(()) => {},
            Err(e) => {
                return Err(OracleError::from(e));
            },
        }
        self.events.push(OracleEvent::SourceRegistered { source, admin });
        Ok(())
    }

    /// Takes `source` off the allowlist of sources. Only an admin may do so.
    pub fn unregister_source(&mut self, admin: Address, source: Address) -> (r: Result<
        (),
        OracleError,
    >)
        requires
            old(self).wf(),
        ensures
            final(self).wf(),
            oracle_committed(
                old(self)@.set_source(admin, source, false),
                old(self)@,
                final(self)@,
                r,
            ),
    {
        match unregister_trusted_contract(&mut self.auth, &admin, &source) {
            Ok(()) => {},
            Err(e) => {
                return Err(OracleError::from(e));
            },
        }
        self.events.push(OracleEvent::SourceUnregistered { source, admin });
        Ok(())
    }

    /// Whether the resolver is paused.
    pub fn is_paused(&self) -> (r: bool)
        ensures
            r == self@.paused,
    {
        self.paused
    }

    /// Pauses the resolver. Only an admin may do so.
    pub fn pause(&mut self, admin: Address) -> (r: Result<(), OracleError>)
        requires
            old(self).wf(),
        ensures
            final(self).wf(),
            oracle_committed(old(self)@.set_paused(admin, true), old(self)@, final(self)@, r),
    {
        match require_admin(&self.auth, &admin) {
            Ok(()) => {},
            Err(e) => {
                return Err(OracleError::from(e));
            },
        }
        self.paused = true;
        self.events.push(OracleEvent::Paused { admin });
        Ok(())
    }

    /// Resumes the resolver. Only an admin may do so.
    pub fn unpause(&mut self, admin: Address) -> (r: Result<(), OracleError>)
        requires
            old(self).wf(),
        ensures
            final(self).wf(),
            oracle_committed(old(self)@.set_paused(admin, false), old(self)@, final(self)@, r),
    {
        match require_admin(&self.auth, &admin) {
            Ok(()) => {},
            Err(e) => {
                return Err(OracleError::from(e));
            },
        }
        self.paused = false;
        self.events.push(OracleEvent::Unpaused { admin });
        Ok(())
    }

    /// Records the report of `source` on the request `data_id`, made at the
    /// time `now`.
    ///
    /// Fails with `Paused` while the resolver is paused, `NotInitialized`
    /// before `initialize`, `NotTrustedContract` if the source is not on the
    /// allowlist, `InvalidState` if the request was resolved, and
    /// `DuplicateSubmission` if the source has reported on it before.
    pub fn submit(&mut self, source: Address, data_id: u64, value: i128, now: u64) -> (r: Result<
        (),
        OracleError,
    >)
        requires
            old(self).wf(),
        ensures
            final(self).wf(),
            oracle_committed(
                old(self)@.submit(source, data_id, value, now),
                old(self)@,
                final(self)@,
                r,
            ),
    {
        if self.paused {
            return Err(OracleError::Paused);
        }
        if self.config.is_none() {
            return Err(OracleError::NotInitialized);
        }
        match require_trusted_contract(&self.auth, &source) {
            Ok(()) => {},
            Err(e) => {
                return Err(OracleError::from(e));
            },
        }
        if self.resolutions.contains_key(data_id) {
            return Err(OracleError::InvalidState);
        }
        let duplicate = match self.submissions.get(data_id) {
            Some(reports) => has_reported(reports, source),
            None => false,
        };
        if duplicate {
            return Err(OracleError::DuplicateSubmission);
        }
        let ghost before = self@;
        let mut reports = match self.submissions.remove(data_id) {
            Some(reports) => reports,
            None => Vec::new(),
        };
        assert(reports@ =~= before.reports(data_id));
        reports.push(OracleSubmission { source, value, timestamp: now });
        self.submissions.insert(data_id, reports);
        self.events.push(OracleEvent::DataSubmitted { data_id, source, value });
        proof {
            let after = before.submit(source, data_id, value, now).unwrap();
            assert(self@.submissions =~= after.submissions);
        }
        Ok(())
    }

    /// How many reports the request `data_id` has.
    pub fn get_submission_count(&self, data_id: u64) -> (n: u64)
        requires
            self.wf(),
        ensures
            n == self@.reports(data_id).len(),
    {
        match self.submissions.get(data_id) {
            Some(reports) => reports.len() as u64,
            None => 0,
        }
    }

    /// The record of the request `data_id`, if it was resolved.
    pub fn get_resolution(&self, data_id: u64) -> (r: Option<OracleResolution>)
        requires
            self.wf(),
        ensures
            self@.resolutions.contains_key(data_id) ==> r == Some(self@.resolutions[data_id]),
            !self@.resolutions.contains_key(data_id) ==> r.is_none(),
    {
        match self.resolutions.get(data_id) {
            Some(record) => Some(*record),
            None => None,
        }
    }

    /// Resolves the request `data_id` at the time `now` and keeps the
    /// record. A request that was resolved before returns the record that is
    /// kept.
    ///
    /// Fails with `Paused` while the resolver is paused, `NotInitialized`
    /// before `initialize`, `StaleData` if a report is older than the
    /// staleness threshold, `InsufficientSubmissions` if there are fewer
    /// reports than the minimum, and `ConsensusNotReached` if too small a
    /// share of them lies within the allowed deviation of their median. A
    /// failure changes nothing.
    pub fn resolve(&mut self, data_id: u64, now: u64) -> (r: Result<OracleResolution, OracleError>)
        requires
            old(self).wf(),
        ensures
            final(self).wf(),
            r == old(self)@.resolve_result(data_id, now),
            final(self)@ == old(self)@.resolve(data_id, now),
    {
        if self.paused {
            return Err(OracleError::Paused);
        }
        let config = match self.config {
            Some(c) => c,
            None => {
                return Err(OracleError::NotInitialized);
            },
        };
        match self.resolutions.get(data_id) {
            Some(record) => {
                return Ok(*record);
            },
            None => {},
        }
        let outcome = match self.submissions.get(data_id) {
            Some(reports) => resolve_submissions(reports, &config, now),
            None => {
                let none: Vec<OracleSubmission> = Vec::new();
                assert(none@ =~= self@.reports(data_id));
                resolve_submissions(&none, &config, now)
            },
        };
        match outcome {
            Ok(record) => {
                self.resolutions.insert(data_id, record);
                self.events.push(
                    OracleEvent::DataResolved {
                        data_id,
                        consensus_value: record.consensus_value,
                        accepted_count: record.accepted_count,
                        rejected_count: record.rejected_count,
                    },
                );
                Ok(record)
            },
            Err(e) => Err(OracleError::from(e)),
        }
    }
}

/// The contents of an [`OracleContract`] as plain lists, for keeping them
/// outside the program. Notifications are not part of it.
#[derive(Debug)]
pub struct OracleSnapshot {
    /// Roles and trusted sources.
    pub auth: AuthSnapshot,
    /// The thresholds, once the resolver was initialized.
    pub config: Option<OracleConfig>,
    /// Whether the resolver is paused.
    pub paused: bool,
    /// The reports on each request, one entry per request.
    pub submissions: Vec<(u64, Vec<OracleSubmission>)>,
    /// The record of each resolved request, one entry per request.
    pub resolutions: Vec<(u64, OracleResolution)>,
}

/// The entries with each list of reports as a sequence.
pub open spec fn reports_listed(entries: Seq<(u64, Vec<OracleSubmission>)>) -> Seq<
    (u64, Seq<OracleSubmission>),
> {
    entries.map_values(|e: (u64, Vec<OracleSubmission>)| (e.0, e.1@))
}

impl OracleSnapshot {
    /// Whether the snapshot lists exactly what `view` holds, and `view` has
    /// no notifications waiting.
    pub open spec fn lists(&self, view: OracleView) -> bool {
        &&& self.auth.lists(view.auth)
        &&& self.config == view.config
        &&& self.paused == view.paused
        &&& lists_map(reports_listed(self.submissions@), view.submissions)
        &&& lists_map(self.resolutions@, view.resolutions)
        &&& view.events == Seq::<OracleEvent>::empty()
    }
}

/// A snapshot determines the resolver it lists.
pub proof fn lemma_listed_oracle_unique(snapshot: OracleSnapshot, a: OracleView, b: OracleView)
    requires
        snapshot.lists(a),
        snapshot.lists(b),
    ensures
        a == b,
{
    lemma_listed_auth_unique(snapshot.auth, a.auth, b.auth);
    lemma_listed_map_unique(reports_listed(snapshot.submissions@), a.submissions, b.submissions);
    lemma_listed_map_unique(snapshot.resolutions@, a.resolutions, b.resolutions);
}

/// A copy of the reports.
fn copy_reports(reports: &Vec<OracleSubmission>) -> (copy: Vec<OracleSubmission>)
    ensures
        copy@ == reports@,
{
    let mut copy: Vec<OracleSubmission> = Vec::new();
    let mut i: usize = 0;
    while i < reports.len()
        invariant
            i <= reports@.len(),
            copy@ == reports@.take(i as int),
        decreases reports@.len() - i,
    {
        copy.push(reports[i]);
        assert(copy@ =~= reports@.take(i + 1));
        i += 1;
    }
    assert(copy@ =~= reports@);
    copy
}

/// Decides whether no source occurs twice among the reports.
fn sources_distinct(reports: &Vec<OracleSubmission>) -> (r: bool)
    ensures
        r == one_per_source(reports@),
{
    let mut j: usize = 0;
    while j < reports.len()
        invariant
            j <= reports@.len(),
            forall|a: int, b: int|
                0 <= a < b < j ==> (#[trigger] reports@[a]).source != (
                #[trigger] reports@[b]).source,
        decreases reports@.len() - j,
    {
        let mut i: usize = 0;
        while i < j
            invariant
                j < reports@.len(),
                i <= j,
                forall|a: int|
                    0 <= a < i ==> (#[trigger] reports@[a]).source != reports@[j as int].source,
            decreases j - i,
        {
            if reports[i].source == reports[j].source {
                assert(reports@[i as int].source == reports@[j as int].source);
                return false;
            }
            i += 1;
        }
        j += 1;
    }
    true
}

impl OracleContract {
    /// The reports on the request `data_id`, in the order of arrival.
    pub fn get_submissions(&self, data_id: u64) -> (reports: Vec<OracleSubmission>)
        requires
            self.wf(),
        ensures
            reports@ == self@.reports(data_id),
    {
        match self.submissions.get(data_id) {
            Some(reports) => copy_reports(reports),
            None => Vec::new(),
        }
    }

    /// Hands out the notifications logged since the last call, oldest
    /// first, and empties the log.
    pub fn take_events(&mut self) -> (events: Vec<OracleEvent>)
        requires
            old(self).wf(),
        ensures
            final(self).wf(),
            events@ == old(self)@.events,
            final(self)@ == (OracleView { events: Seq::empty(), ..old(self)@ }),
    {
        let mut events: Vec<OracleEvent> = Vec::new();
        core::mem::swap(&mut self.events, &mut events);
        assert(self@.events =~= Seq::<OracleEvent>::empty());
        events
    }

    /// Lists what the resolver holds, but for the notifications.
    pub fn snapshot(&self) -> (s: OracleSnapshot)
        requires
            self.wf(),
        ensures
            s.lists(OracleView { events: Seq::empty(), ..self@ }),
    {
        let ids = self.submissions.to_keys();
        let mut submissions: Vec<(u64, Vec<OracleSubmission>)> = Vec::new();
        let mut i: usize = 0;
        while i < ids.len()
            invariant
                self.wf(),
                i <= ids@.len(),
                lists_set(ids@, self.submissions@.dom()),
                submissions@.len() == i,
                forall|k: int|
                    0 <= k < i ==> (#[trigger] submissions@[k]).0 == ids@[k] && submissions@[k].1@
                        == self.submissions@[ids@[k]]@,
            decreases ids@.len() - i,
        {
            let id = ids[i];
            assert(self.submissions@.dom().contains(ids@[i as int]));
            let reports = match self.submissions.get(id) {
                Some(reports) => copy_reports(reports),
                None => Vec::new(),
            };
            submissions.push((id, reports));
            i += 1;
        }
        proof {
            let listed = reports_listed(submissions@);
            assert forall|a: int, b: int| 0 <= a < b < listed.len() implies (#[trigger] listed[a]).0
                != (#[trigger] listed[b]).0 by {
                assert(submissions@[a].0 == ids@[a] && submissions@[b].0 == ids@[b]);
            }
            assert forall|k: int| 0 <= k < listed.len() implies self@.submissions.contains_key(
                (#[trigger] listed[k]).0,
            ) && self@.submissions[listed[k].0] == listed[k].1 by {
                assert(submissions@[k].0 == ids@[k]);
                assert(self.submissions@.dom().contains(ids@[k]));
            }
            assert forall|id: u64| #[trigger]
                self@.submissions.contains_key(id) implies exists|k: int|
                0 <= k < listed.len() && (#[trigger] listed[k]).0 == id by {
                assert(self.submissions@.dom().contains(id));
                let k = choose|k: int| 0 <= k < ids@.len() && #[trigger] ids@[k] == id;
                assert(submissions@[k].0 == ids@[k]);
                assert(listed[k].0 == id);
            }
        }
        OracleSnapshot {
            auth: self.auth.snapshot(),
            config: self.config,
            paused: self.paused,
            submissions,
            resolutions: self.resolutions.to_entries(),
        }
    }

    /// Decides whether the resolver's view is consistent.
    fn is_consistent(&self) -> (r: bool)
        requires
            self.inv(),
        ensures
            r == self@.consistent(),
    {
        match self.config {
            Some(config) => {
                if !valid_config(&config) {
                    return false;
                }
            },
            None => {},
        }
        let ids = self.submissions.to_keys();
        let mut i: usize = 0;
        while i < ids.len()
            invariant
                self.inv(),
                i <= ids@.len(),
                lists_set(ids@, self.submissions@.dom()),
                forall|k: int|
                    0 <= k < i ==> one_per_source(self@.submissions[#[trigger] ids@[k]]),
            decreases ids@.len() - i,
        {
            let id = ids[i];
            assert(self.submissions@.dom().contains(ids@[i as int]));
            let distinct = match self.submissions.get(id) {
                Some(reports) => sources_distinct(reports),
                None => true,
            };
            if !distinct {
                assert(self@.submissions.contains_key(id));
                return false;
            }
            i += 1;
        }
        assert forall|id: u64| #[trigger] self@.submissions.contains_key(id) implies one_per_source(
            self@.submissions[id],
        ) by {
            assert(self.submissions@.dom().contains(id));
            let k = choose|k: int| 0 <= k < ids@.len() && #[trigger] ids@[k] == id;
            assert(one_per_source(self@.submissions[ids@[k]]));
        }
        true
    }

    /// Builds the resolver that `snapshot` lists.
    ///
    /// Fails with `InvalidState` if the snapshot names a key twice in one of
    /// its lists or if what it lists is not consistent: a resolver is
    /// rebuilt only in a state that its operations could have left.
    pub fn restore(snapshot: OracleSnapshot) -> (r: Result<OracleContract, OracleError>)
        ensures
            match r {
                Ok(oracle) => oracle.wf() && snapshot.lists(oracle@),
                Err(e) => e == OracleError::InvalidState && forall|view: OracleView|
                    snapshot.lists(view) ==> !view.consistent(),
            },
    {
        let OracleSnapshot { auth, config, paused, submissions, resolutions } = snapshot;
        let ghost listed = reports_listed(submissions@);
        let ghost entries = submissions@;
        let auth = match AuthStore::restore(auth) {
            Some(a) => a,
            None => {
                return Err(OracleError::InvalidState);
            },
        };
        let submissions = match Table::from_entries(submissions) {
            Some(t) => t,
            None => {
                proof {
                    let (a, b) = choose|a: int, b: int|
                        0 <= a < b < entries.len() && (#[trigger] entries[a]).0 == (
                        #[trigger] entries[b]).0;
                    assert(listed[a].0 == listed[b].0);
                }
                return Err(OracleError::InvalidState);
            },
        };
        let resolutions = match Table::from_entries(resolutions) {
            Some(t) => t,
            None => {
                return Err(OracleError::InvalidState);
            },
        };
        let oracle = OracleContract {
            auth,
            config,
            paused,
            submissions,
            resolutions,
            events: Vec::new(),
        };
        assert(oracle@.events =~= Seq::<OracleEvent>::empty());
        proof {
            assert forall|a: int, b: int| 0 <= a < b < listed.len() implies (#[trigger] listed[a]).0
                != (#[trigger] listed[b]).0 by {
                assert(entries[a].0 != entries[b].0);
            }
            assert forall|k: int| 0 <= k < listed.len() implies oracle@.submissions.contains_key(
                (#[trigger] listed[k]).0,
            ) && oracle@.submissions[listed[k].0] == listed[k].1 by {
                assert(oracle.submissions@.contains_key(entries[k].0));
            }
            assert forall|id: u64| #[trigger]
                oracle@.submissions.contains_key(id) implies exists|k: int|
                0 <= k < listed.len() && (#[trigger] listed[k]).0 == id by {
                assert(oracle.submissions@.contains_key(id));
                let k = choose|k: int| 0 <= k < entries.len() && (#[trigger] entries[k]).0 == id;
                assert(listed[k].0 == id);
            }
        }
        if !oracle.is_consistent() {
            proof {
                assert forall|view: OracleView| snapshot.lists(view) implies !view.consistent() by {
                    lemma_listed_oracle_unique(snapshot, view, oracle@);
                }
            }
            return Err(OracleError::InvalidState);
        }
        Ok(oracle)
    }
}

} // verus!
