//! The service as its D-Bus interface offers it: the requests clients make, the
//! named error each refusal is answered with, and the names under which the service
//! is reached.

use vstd::prelude::*;

use crate::catalog::{environment_directories, SystemAppCatalog};
use crate::config::{config_error_text, config_valid, Config, ConfigErrorView};
use crate::service::{
    answered_pin_outcome, answered_replace_outcome, catalog_answers, catalog_reported, service_after, ordered_adapters, seeded_once, service_error_text, service_outcome, supported_adapter,
    through_service, AdapterStatus, AdapterStatusView, Service, ServiceError, ServiceErrorView,
    ServiceView,
};
use crate::store::{
    after, move_outcome, pin_outcome, replace_outcome, unpin_outcome, ConfigStore, Snapshot,
    SnapshotView, StoreError, StoreErrorView,
};
use crate::text::{decimal, decimal_text, text_equals};

verus! {

/// The well-known bus name of the service.
pub const DBUS_NAME: &'static str = "io.github.CoJoA13.Prismatic.Service";

/// The object path of the service.
pub const DBUS_PATH: &'static str = "/io/github/CoJoA13/Prismatic";

/// The interface name of the service.
pub const DBUS_INTERFACE: &'static str = "io.github.CoJoA13.Prismatic.Service1";

/// A named D-Bus error (in the `io.github.CoJoA13.Prismatic.Error` domain) with its message.
#[derive(Debug, Clone, PartialEq, Eq)]
pub enum DbusError {
    InvalidConfig(String),
    RevisionConflict(String),
    UnknownDesktopEntry(String),
    UnknownDesktopAction(String),
    UnsupportedSchema(String),
    UnsupportedAdapter(String),
    InvalidRequest(String),
    Failed(String),
}

/// Mathematical value of a [`DbusError`].
pub ghost enum DbusErrorView {
    InvalidConfig(Seq<char>),
    RevisionConflict(Seq<char>),
    UnknownDesktopEntry(Seq<char>),
    UnknownDesktopAction(Seq<char>),
    UnsupportedSchema(Seq<char>),
    UnsupportedAdapter(Seq<char>),
    InvalidRequest(Seq<char>),
    Failed(Seq<char>),
}

impl View for DbusError {
    type V = DbusErrorView;

    open spec fn view(&self) -> DbusErrorView {
        match self {
            DbusError::InvalidConfig(m) => DbusErrorView::InvalidConfig(m@),
            DbusError::RevisionConflict(m) => DbusErrorView::RevisionConflict(m@),
            DbusError::UnknownDesktopEntry(m) => DbusErrorView::UnknownDesktopEntry(m@),
            DbusError::UnknownDesktopAction(m) => DbusErrorView::UnknownDesktopAction(m@),
            DbusError::UnsupportedSchema(m) => DbusErrorView::UnsupportedSchema(m@),
            DbusError::UnsupportedAdapter(m) => DbusErrorView::UnsupportedAdapter(m@),
            DbusError::InvalidRequest(m) => DbusErrorView::InvalidRequest(m@),
            DbusError::Failed(m) => DbusErrorView::Failed(m@),
        }
    }
}

/// The named error a client receives for a service error: each error domain the
/// interface documents gets its own name, a configuration of another schema version
/// is reported as an unsupported schema, and everything else as a failure.
pub open spec fn dbus_reply(e: ServiceErrorView) -> DbusErrorView {
    match e {
        ServiceErrorView::UnknownDesktopEntry(id) => DbusErrorView::UnknownDesktopEntry(id),
        ServiceErrorView::UnknownDesktopAction { desktop_id, action_id } =>
            DbusErrorView::UnknownDesktopAction(desktop_id + ": "@ + action_id),
        ServiceErrorView::UnsupportedAdapter(id) => DbusErrorView::UnsupportedAdapter(id),
        ServiceErrorView::Json(m) => DbusErrorView::InvalidRequest(m),
        ServiceErrorView::Store(StoreErrorView::RevisionConflict { expected, actual }) =>
            DbusErrorView::RevisionConflict(
            "expected "@ + decimal(expected as nat) + ", actual "@ + decimal(actual as nat),
        ),
        ServiceErrorView::Store(StoreErrorView::UnsupportedSchema(v)) =>
            DbusErrorView::UnsupportedSchema("unsupported schema version "@ + decimal(v as nat)),
        ServiceErrorView::Store(StoreErrorView::InvalidConfig(c)) => if c.field
            == "schemaVersion"@ {
            DbusErrorView::UnsupportedSchema(config_error_text(c))
        } else {
            DbusErrorView::InvalidConfig(config_error_text(c))
        },
        ServiceErrorView::Store(StoreErrorView::Json(m)) => DbusErrorView::InvalidConfig(m),
        _ => DbusErrorView::Failed(service_error_text(e)),
    }
}

impl DbusError {
    /// The named error reported to clients for `error`.
    pub fn from_service_error(error: ServiceError) -> (d: DbusError)
        ensures
            d@ == dbus_reply(error@),
    {
        let text = error.describe();
        match error {
            ServiceError::UnknownDesktopEntry(id) => DbusError::UnknownDesktopEntry(id),
            ServiceError::UnknownDesktopAction { desktop_id, action_id } => {
                let mut m = desktop_id;
                m.append(": ");
                m.append(action_id.as_str());
                DbusError::UnknownDesktopAction(m)
            },
            ServiceError::UnsupportedAdapter(id) => DbusError::UnsupportedAdapter(id),
            ServiceError::Json(m) => DbusError::InvalidRequest(m),
            ServiceError::Store(StoreError::RevisionConflict { expected, actual }) => {
                let mut m = String::from_str("expected ");
                let e = decimal_text(expected);
                m.append(e.as_str());
                m.append(", actual ");
                let a = decimal_text(actual);
                m.append(a.as_str());
                DbusError::RevisionConflict(m)
            },
            ServiceError::Store(StoreError::UnsupportedSchema(version)) => {
                let mut m = String::from_str("unsupported schema version ");
                let v = decimal_text(version as u64);
                m.append(v.as_str());
                DbusError::UnsupportedSchema(m)
            },
            ServiceError::Store(StoreError::InvalidConfig(c)) => {
                if text_equals(c.field(), "schemaVersion") {
                    DbusError::UnsupportedSchema(c.describe())
                } else {
                    DbusError::InvalidConfig(c.describe())
                }
            },
            ServiceError::Store(StoreError::Json(m)) => DbusError::InvalidConfig(m),
            _ => DbusError::Failed(text),
        }
    }
}

/// A service result as a client receives it: service errors become named errors.
pub open spec fn dbus_outcome(o: Result<SnapshotView, ServiceErrorView>) -> Result<
    SnapshotView,
    DbusErrorView,
> {
    match o {
        Ok(s) => Ok(s),
        Err(e) => Err(dbus_reply(e)),
    }
}

/// Mathematical value of the reply to a request that returns a snapshot.
pub open spec fn reply_view(r: Result<Snapshot, DbusError>) -> Result<SnapshotView, DbusErrorView> {
    match r {
        Ok(s) => Ok(s@),
        Err(e) => Err(e@),
    }
}

/// The anchor a client names: the empty string stands for "no anchor" (pin or move last).
pub open spec fn anchor_argument(before_id: Seq<char>) -> Option<Seq<char>> {
    if before_id.len() == 0 {
        None
    } else {
        Some(before_id)
    }
}

/// Reads an anchor argument.
fn anchor_of(before_id: &str) -> (a: Option<&str>)
    ensures
        match a {
            Some(s) => anchor_argument(before_id@) == Some(s@),
            None => anchor_argument(before_id@) == None::<Seq<char>>,
        },
{
    if before_id.unicode_len() == 0 {
        None
    } else {
        Some(before_id)
    }
}

/// Maps the outcome of a service request to the reply a client receives.
fn to_reply(r: Result<Snapshot, ServiceError>) -> (d: Result<Snapshot, DbusError>)
    ensures
        reply_view(d) == dbus_outcome(service_outcome(r)),
{
    match r {
        Ok(s) => Ok(s),
        Err(e) => Err(DbusError::from_service_error(e)),
    }
}

/// The service as its D-Bus interface offers it to clients: every refused request is
/// answered with a named error.
pub struct DbusApi {
    service: Service<SystemAppCatalog>,
}

impl View for DbusApi {
    type V = ServiceView;

    closed spec fn view(&self) -> ServiceView {
        self.service@
    }
}

impl DbusApi {
    /// The catalog the service consults.
    pub closed spec fn catalog_value(&self) -> SystemAppCatalog {
        self.service.catalog_value()
    }

    /// Starts the service on `store` with the applications found under the XDG data
    /// directories (`XDG_DATA_HOME`, `HOME` and `XDG_DATA_DIRS` as given).
    pub fn open(
        store: ConfigStore,
        data_home: Option<String>,
        home: Option<String>,
        data_dirs: Option<String>,
    ) -> (r: Result<Self, ServiceError>)
        requires
            store@.snapshot.revision < u64::MAX || store@.snapshot.config.seeded,
        ensures
            r matches Ok(api) && api@.adapters == Map::<Seq<char>, AdapterStatusView>::empty()
                && api@.store.recovery == store@.recovery && seeded_once(
                store@.snapshot,
                api@.store.snapshot,
            ) && api.catalog_value().directories() == environment_directories(
                match data_home {
                    Some(d) => Some(d@),
                    None => None,
                },
                match home {
                    Some(h) => Some(h@),
                    None => None,
                },
                match data_dirs {
                    Some(d) => Some(d@),
                    None => None,
                },
            ),
    {
        let catalog = SystemAppCatalog::from_environment(data_home, home, data_dirs);
        Self::open_with_catalog(store, catalog)
    }

    /// Starts the service on `store` with the given catalog, seeding favorites on first
    /// start.
    pub fn open_with_catalog(store: ConfigStore, catalog: SystemAppCatalog) -> (r: Result<
        Self,
        ServiceError,
    >)
        requires
            store@.snapshot.revision < u64::MAX || store@.snapshot.config.seeded,
        ensures
            r matches Ok(api) && api@.adapters == Map::<Seq<char>, AdapterStatusView>::empty()
                && api@.store.recovery == store@.recovery && seeded_once(
                store@.snapshot,
                api@.store.snapshot,
            ) && api.catalog_value() == catalog,
    {
        let service = Service::new(store, catalog)?;
        Ok(DbusApi { service })
    }

    /// The service behind the interface.
    pub fn service(&self) -> (s: &Service<SystemAppCatalog>)
        ensures
            s@ == self@,
            s.catalog_value() == self.catalog_value(),
    {
        &self.service
    }

    /// `GetSnapshot`: the current revision and configuration.
    pub fn get_snapshot(&self) -> (s: Snapshot)
        ensures
            s@ == self@.store.snapshot,
            config_valid(s@.config),
    {
        self.service.snapshot()
    }

    /// `ReplaceSnapshot`: replaces the whole configuration.
    pub fn replace_snapshot(&mut self, expected_revision: u64, config: Config) -> (r: Result<
        Snapshot,
        DbusError,
    >)
        requires
            old(self)@.store.snapshot.revision < u64::MAX || replace_outcome(old(self)@.store.snapshot, expected_revision, config@) is Err,
        ensures
            final(self)@.adapters == old(self)@.adapters,
            final(self)@.store.recovery == old(self)@.store.recovery,
            final(self).catalog_value() == old(self).catalog_value(),
            exists|answers: Seq<bool>|
                #![trigger answered_replace_outcome(old(self)@.store.snapshot, expected_revision, config@, answers)]
                answers.len() <= config@.favorites.len() && (config_valid(config@) ==> catalog_answers(
                    old(self).catalog_value(),
                    config@.favorites,
                    answers,
                )) && reply_view(r) == dbus_outcome(
                    answered_replace_outcome(
                        old(self)@.store.snapshot,
                        expected_revision,
                        config@,
                        answers,
                    ),
                ) && final(self)@.store.snapshot == service_after(
                    old(self)@.store.snapshot,
                    answered_replace_outcome(
                        old(self)@.store.snapshot,
                        expected_revision,
                        config@,
                        answers,
                    ),
                ),
    {
        let r = self.service.replace_snapshot(expected_revision, config);
        to_reply(r)
    }

    /// `Import`: takes over a configuration offered by a client, as `ReplaceSnapshot`.
    pub fn import(&mut self, expected_revision: u64, config: Config) -> (r: Result<
        Snapshot,
        DbusError,
    >)
        requires
            old(self)@.store.snapshot.revision < u64::MAX || replace_outcome(old(self)@.store.snapshot, expected_revision, config@) is Err,
        ensures
            final(self)@.adapters == old(self)@.adapters,
            final(self)@.store.recovery == old(self)@.store.recovery,
            final(self).catalog_value() == old(self).catalog_value(),
            exists|answers: Seq<bool>|
                #![trigger answered_replace_outcome(old(self)@.store.snapshot, expected_revision, config@, answers)]
                answers.len() <= config@.favorites.len() && (config_valid(config@) ==> catalog_answers(
                    old(self).catalog_value(),
                    config@.favorites,
                    answers,
                )) && reply_view(r) == dbus_outcome(
                    answered_replace_outcome(
                        old(self)@.store.snapshot,
                        expected_revision,
                        config@,
                        answers,
                    ),
                ) && final(self)@.store.snapshot == service_after(
                    old(self)@.store.snapshot,
                    answered_replace_outcome(
                        old(self)@.store.snapshot,
                        expected_revision,
                        config@,
                        answers,
                    ),
                ),
    {
        let r = self.service.import(expected_revision, config);
        to_reply(r)
    }

    /// `Pin`: pins an installed launcher before `before_id`, or last when it is empty.
    pub fn pin(&mut self, expected_revision: u64, desktop_id: &str, before_id: &str) -> (r: Result<
        Snapshot,
        DbusError,
    >)
        requires
            old(self)@.store.snapshot.revision < u64::MAX || pin_outcome(old(self)@.store.snapshot, expected_revision, desktop_id@, anchor_argument(before_id@)) is Err,
        ensures
            final(self)@.adapters == old(self)@.adapters,
            final(self)@.store.recovery == old(self)@.store.recovery,
            final(self).catalog_value() == old(self).catalog_value(),
            exists|installed: bool|
                #![trigger answered_pin_outcome(old(self)@.store.snapshot, installed, expected_revision, desktop_id@, anchor_argument(before_id@))]
                catalog_reported(old(self).catalog_value(), desktop_id@, installed) && reply_view(r)
                    == dbus_outcome(
                    answered_pin_outcome(
                        old(self)@.store.snapshot,
                        installed,
                        expected_revision,
                        desktop_id@,
                        anchor_argument(before_id@),
                    ),
                ) && final(self)@.store.snapshot == service_after(
                    old(self)@.store.snapshot,
                    answered_pin_outcome(
                        old(self)@.store.snapshot,
                        installed,
                        expected_revision,
                        desktop_id@,
                        anchor_argument(before_id@),
                    ),
                ),
    {
        let anchor = anchor_of(before_id);
        let r = self.service.pin(expected_revision, desktop_id, anchor);
        to_reply(r)
    }

    /// `Unpin`: unpins a launcher.
    pub fn unpin(&mut self, expected_revision: u64, desktop_id: &str) -> (r: Result<Snapshot, DbusError>)
        requires
            old(self)@.store.snapshot.revision < u64::MAX || unpin_outcome(old(self)@.store.snapshot, expected_revision, desktop_id@) is Err,
        ensures
            final(self)@.adapters == old(self)@.adapters,
            final(self)@.store.recovery == old(self)@.store.recovery,
            final(self).catalog_value() == old(self).catalog_value(),
            reply_view(r) == dbus_outcome(
                through_service(
                    unpin_outcome(old(self)@.store.snapshot, expected_revision, desktop_id@),
                ),
            ),
            final(self)@.store.snapshot == after(
                old(self)@.store.snapshot,
                unpin_outcome(old(self)@.store.snapshot, expected_revision, desktop_id@),
            ),
    {
        let r = self.service.unpin(expected_revision, desktop_id);
        to_reply(r)
    }

    /// `Move`: moves a pinned launcher before `before_id`, or last when it is empty.
    pub fn move_favorite(&mut self, expected_revision: u64, desktop_id: &str, before_id: &str) -> (r:
        Result<Snapshot, DbusError>)
        requires
            old(self)@.store.snapshot.revision < u64::MAX || move_outcome(old(self)@.store.snapshot, expected_revision, desktop_id@, anchor_argument(before_id@)) is Err,
        ensures
            final(self)@.adapters == old(self)@.adapters,
            final(self)@.store.recovery == old(self)@.store.recovery,
            final(self).catalog_value() == old(self).catalog_value(),
            reply_view(r) == dbus_outcome(
                through_service(
                    move_outcome(
                        old(self)@.store.snapshot,
                        expected_revision,
                        desktop_id@,
                        anchor_argument(before_id@),
                    ),
                ),
            ),
            final(self)@.store.snapshot == after(
                old(self)@.store.snapshot,
                move_outcome(
                    old(self)@.store.snapshot,
                    expected_revision,
                    desktop_id@,
                    anchor_argument(before_id@),
                ),
            ),
    {
        let anchor = anchor_of(before_id);
        let r = self.service.move_favorite(expected_revision, desktop_id, anchor);
        to_reply(r)
    }

    /// `RegisterAdapter`: records an adapter's status and hands it the current snapshot.
    pub fn register_adapter(&mut self, adapter_id: &str, status: AdapterStatus) -> (r: Result<
        Snapshot,
        DbusError,
    >)
        ensures
            final(self)@.store == old(self)@.store,
            final(self).catalog_value() == old(self).catalog_value(),
            match r {
                Ok(s) => supported_adapter(adapter_id@) && s@ == old(self)@.store.snapshot
                    && final(self)@.adapters == old(self)@.adapters.insert(adapter_id@, status@),
                Err(e) => !supported_adapter(adapter_id@) && e@
                    == DbusErrorView::UnsupportedAdapter(adapter_id@) && final(self)@.adapters
                    == old(self)@.adapters,
            },
    {
        let r = self.service.register_adapter(adapter_id, status);
        to_reply(r)
    }

    /// `UpdateAdapterStatus`: records the status an adapter reports.
    pub fn update_adapter_status(&mut self, adapter_id: &str, status: AdapterStatus) -> (r: Result<
        (),
        DbusError,
    >)
        ensures
            final(self)@.store == old(self)@.store,
            final(self).catalog_value() == old(self).catalog_value(),
            match r {
                Ok(()) => supported_adapter(adapter_id@) && final(self)@.adapters == old(self)@.adapters.insert(adapter_id@, status@),
                Err(e) => !supported_adapter(adapter_id@) && e@
                    == DbusErrorView::UnsupportedAdapter(adapter_id@) && final(self)@.adapters
                    == old(self)@.adapters,
            },
    {
        match self.service.update_adapter_status(adapter_id, status) {
            Ok(()) => Ok(()),
            Err(e) => Err(DbusError::from_service_error(e)),
        }
    }

    /// `GetAdapterStatuses`: the registered adapters and their statuses, in identifier order.
    pub fn get_adapter_statuses(&self) -> (statuses: Vec<(String, AdapterStatus)>)
        ensures
            statuses@.map_values(|e: (String, AdapterStatus)| (e.0@, e.1@)) == ordered_adapters(
                self@.adapters,
            ),
    {
        self.service.adapter_statuses()
    }
}

/// The path of the lock file that keeps a second service instance from starting.
pub fn service_lock_path(config_path: &str) -> (p: String)
    ensures
        p@ == config_path@ + ".lock"@,
{
    let mut p = String::from_str(config_path);
    p.append(".lock");
    p
}

} // verus!
