//! The configuration service: the store guarded by the catalog of installed
//! applications, first-run seeding of favorites, the adapter registry and
//! desktop actions.

use vstd::prelude::*;

use crate::catalog::{
    actions_view, entry_file, listed_view, lookup_id_ok, offered_actions, offers_action,
    usable_actions, AppCatalog, DesktopAction, ListedAction, SystemAppCatalog,
};
use crate::config::{
    config_valid, favorites_ok, first_violation, valid_desktop_id, violation_error, Config,
    ConfigView,
};
use crate::store::{
    after, ids_view, move_outcome, outcome_view, pin_outcome, replace_outcome, store_error_text,
    unpin_outcome, ConfigStore, Snapshot, SnapshotView, StoreError, StoreErrorView, StoreView,
    opt_view,
};
use crate::text::text_equals;

verus! {

/// The state an adapter (the GNOME extension or the Plasma applet) last reported.
#[derive(Debug, Clone, Default, PartialEq, Eq)]
pub struct AdapterStatus {
    pub active: bool,
    pub version: String,
    pub capabilities: Vec<String>,
    pub outputs: Vec<String>,
    pub message: Option<String>,
}

/// Mathematical value of an [`AdapterStatus`].
pub ghost struct AdapterStatusView {
    pub active: bool,
    pub version: Seq<char>,
    pub capabilities: Seq<Seq<char>>,
    pub outputs: Seq<Seq<char>>,
    pub message: Option<Seq<char>>,
}

impl View for AdapterStatus {
    type V = AdapterStatusView;

    open spec fn view(&self) -> AdapterStatusView {
        AdapterStatusView {
            active: self.active,
            version: self.version@,
            capabilities: ids_view(self.capabilities@),
            outputs: ids_view(self.outputs@),
            message: match &self.message {
                Some(m) => Some(m@),
                None => None,
            },
        }
    }
}

impl AdapterStatus {
    /// A copy of this status.
    pub fn copied(&self) -> (s: AdapterStatus)
        ensures
            s@ == self@,
    {
        let capabilities = self.capabilities.clone();
        let outputs = self.outputs.clone();
        assert(capabilities@ =~= self.capabilities@);
        assert(outputs@ =~= self.outputs@);
        AdapterStatus {
            active: self.active,
            version: self.version.clone(),
            capabilities,
            outputs,
            message: match &self.message {
                Some(m) => Some(m.clone()),
                None => None,
            },
        }
    }
}

/// Why the service refused a request.
#[derive(Debug)]
pub enum ServiceError {
    UnknownDesktopEntry(String),
    UnknownDesktopAction { desktop_id: String, action_id: String },
    UnsupportedAdapter(String),
    Store(StoreError),
    Json(String),
}

/// Mathematical value of a [`ServiceError`].
pub ghost enum ServiceErrorView {
    UnknownDesktopEntry(Seq<char>),
    UnknownDesktopAction { desktop_id: Seq<char>, action_id: Seq<char> },
    UnsupportedAdapter(Seq<char>),
    Store(StoreErrorView),
    Json(Seq<char>),
}

impl View for ServiceError {
    type V = ServiceErrorView;

    open spec fn view(&self) -> ServiceErrorView {
        match self {
            ServiceError::UnknownDesktopEntry(id) => ServiceErrorView::UnknownDesktopEntry(id@),
            ServiceError::UnknownDesktopAction { desktop_id, action_id } =>
                ServiceErrorView::UnknownDesktopAction {
                desktop_id: desktop_id@,
                action_id: action_id@,
            },
            ServiceError::UnsupportedAdapter(id) => ServiceErrorView::UnsupportedAdapter(id@),
            ServiceError::Store(e) => ServiceErrorView::Store(e@),
            ServiceError::Json(m) => ServiceErrorView::Json(m@),
        }
    }
}

/// The text of a service error, as it reads in logs and replies.
pub open spec fn service_error_text(e: ServiceErrorView) -> Seq<char> {
    match e {
        ServiceErrorView::UnknownDesktopEntry(id) => "desktop entry is not installed: "@ + id,
        ServiceErrorView::UnknownDesktopAction { desktop_id, action_id } => "desktop entry "@
            + desktop_id + " has no action named "@ + action_id,
        ServiceErrorView::UnsupportedAdapter(id) => "unsupported adapter: "@ + id,
        ServiceErrorView::Store(e) => store_error_text(e),
        ServiceErrorView::Json(m) => m,
    }
}

impl ServiceError {
    /// The error as text.
    pub fn describe(&self) -> (s: String)
        ensures
            s@ == service_error_text(self@),
    {
        match self {
            ServiceError::UnknownDesktopEntry(id) => {
                let mut s = String::from_str("desktop entry is not installed: ");
                s.append(id.as_str());
                s
            },
            ServiceError::UnknownDesktopAction { desktop_id, action_id } => {
                let mut s = String::from_str("desktop entry ");
                s.append(desktop_id.as_str());
                s.append(" has no action named ");
                s.append(action_id.as_str());
                s
            },
            ServiceError::UnsupportedAdapter(id) => {
                let mut s = String::from_str("unsupported adapter: ");
                s.append(id.as_str());
                s
            },
            ServiceError::Store(e) => e.describe(),
            ServiceError::Json(m) => m.clone(),
        }
    }
}

/// A store outcome as the service reports it: store errors are wrapped.
pub open spec fn through_service(o: Result<SnapshotView, StoreErrorView>) -> Result<SnapshotView, ServiceErrorView> {
    match o {
        Ok(s) => Ok(s),
        Err(e) => Err(ServiceErrorView::Store(e)),
    }
}

/// Mathematical value of the result of a service operation.
pub open spec fn service_outcome(r: Result<Snapshot, ServiceError>) -> Result<SnapshotView, ServiceErrorView> {
    match r {
        Ok(s) => Ok(s@),
        Err(e) => Err(e@),
    }
}

/// The snapshot a service holds after a request with outcome `outcome` on `current`:
/// the new snapshot on success, `current` unchanged otherwise.
pub open spec fn service_after(current: SnapshotView, outcome: Result<SnapshotView, ServiceErrorView>) -> SnapshotView {
    match outcome {
        Ok(next) => next,
        Err(_) => current,
    }
}

/// What replacing the configuration of `current` with `config` yields, given the
/// catalog's answers for its favorites (`answers[i]` for `config.favorites[i]`): a
/// valid configuration pinning a launcher answered as not installed is refused with
/// the first such launcher; otherwise as the store's replacement.
pub open spec fn answered_replace_outcome(
    current: SnapshotView,
    expected: u64,
    config: ConfigView,
    answers: Seq<bool>,
) -> Result<SnapshotView, ServiceErrorView> {
    if config_valid(config) && first_missing(config.favorites, answers) is Some {
        Err(ServiceErrorView::UnknownDesktopEntry(first_missing(config.favorites, answers)->0))
    } else {
        through_service(replace_outcome(current, expected, config))
    }
}

/// Asked whether `desktop_id` is installed, `catalog` answered `answer`: a call of its
/// `is_installed` on `desktop_id` gave it.
pub closed spec fn catalog_reported<C: AppCatalog>(catalog: C, desktop_id: Seq<char>, answer: bool) -> bool {
    exists|s: &str| s@ == desktop_id && call_ensures(C::is_installed, (&catalog, s), answer)
}

/// `answers` are what `catalog` answered about `favorites`, asked in order: every
/// favorite up to the first one not reported installed, and every favorite when all
/// are.
pub open spec fn catalog_answers<C: AppCatalog>(
    catalog: C,
    favorites: Seq<Seq<char>>,
    answers: Seq<bool>,
) -> bool {
    &&& answers.len() <= favorites.len()
    &&& forall|j: int|
        #![trigger answers[j]]
        0 <= j < answers.len() ==> catalog_reported(catalog, favorites[j], answers[j])
    &&& forall|j: int| 0 <= j < answers.len() - 1 ==> #[trigger] answers[j]
    &&& answers.len() < favorites.len() ==> answers.len() > 0 && !answers[answers.len() - 1]
}

/// What pinning `id` before `anchor` yields from `current`, given whether the catalog
/// reports it installed.
pub open spec fn answered_pin_outcome(
    current: SnapshotView,
    installed: bool,
    expected: u64,
    id: Seq<char>,
    anchor: Option<Seq<char>>,
) -> Result<SnapshotView, ServiceErrorView> {
    if !installed {
        Err(ServiceErrorView::UnknownDesktopEntry(id))
    } else {
        through_service(pin_outcome(current, expected, id, anchor))
    }
}

/// The launchers seeded on first start, one role per list, most preferred first:
/// a browser, a file manager, a terminal and a software centre.
pub open spec fn default_roles() -> Seq<Seq<Seq<char>>> {
    seq![
        seq!["firefox.desktop"@, "org.mozilla.firefox.desktop"@],
        seq!["org.gnome.Nautilus.desktop"@, "org.kde.dolphin.desktop"@],
        seq!["org.gnome.Ptyxis.desktop"@, "org.gnome.Console.desktop"@, "org.kde.konsole.desktop"@],
        seq!["org.gnome.Software.desktop"@, "org.kde.discover.desktop"@],
    ]
}

/// The launcher chosen for one role: the first candidate answered as installed, where
/// `answers[j]` is the answer for `candidates[j]`; nothing when none was.
pub open spec fn role_pick(candidates: Seq<Seq<char>>, answers: Seq<bool>) -> Seq<Seq<char>>
    decreases answers.len(),
{
    if answers.len() == 0 || candidates.len() == 0 {
        Seq::empty()
    } else if answers[0] {
        seq![candidates[0]]
    } else {
        role_pick(candidates.drop_first(), answers.drop_first())
    }
}

/// The launchers chosen for the first `n` roles, in role order.
pub open spec fn seed_pick(roles: Seq<Seq<Seq<char>>>, answers: Seq<Seq<bool>>, n: nat) -> Seq<Seq<char>>
    decreases n,
{
    if n == 0 {
        Seq::empty()
    } else {
        let i = n - 1;
        let role_answers = if i < answers.len() {
            answers[i]
        } else {
            Seq::empty()
        };
        seed_pick(roles, answers, (n - 1) as nat) + role_pick(roles[i], role_answers)
    }
}

/// The favorites seeded when the catalog answered `answers` (one list of answers per role).
pub open spec fn seeded_from(answers: Seq<Seq<bool>>) -> Seq<Seq<char>> {
    seed_pick(default_roles(), answers, 4)
}

/// The snapshot after the service first started on `before`: unchanged when the
/// configuration was seeded already; otherwise the next revision, marked as seeded,
/// holding the launchers picked from what the catalog answered.
pub open spec fn seeded_once(before: SnapshotView, after: SnapshotView) -> bool {
    if before.config.seeded {
        after == before
    } else {
        exists|answers: Seq<Seq<bool>>|
            #![trigger seeded_from(answers)]
            after == (SnapshotView {
                revision: (before.revision + 1) as u64,
                config: ConfigView {
                    seeded: true,
                    favorites: seeded_from(answers),
                    ..before.config
                },
            })
    }
}

/// The default roles as strings.
fn default_favorite_roles() -> (roles: Vec<Vec<String>>)
    ensures
        roles@.len() == 4,
        forall|i: int| 0 <= i < 4 ==> ids_view(#[trigger] roles@[i]@) == default_roles()[i],
{
    let roles = vec![
        vec![String::from_str("firefox.desktop"), String::from_str("org.mozilla.firefox.desktop")],
        vec![
            String::from_str("org.gnome.Nautilus.desktop"),
            String::from_str("org.kde.dolphin.desktop"),
        ],
        vec![
            String::from_str("org.gnome.Ptyxis.desktop"),
            String::from_str("org.gnome.Console.desktop"),
            String::from_str("org.kde.konsole.desktop"),
        ],
        vec![
            String::from_str("org.gnome.Software.desktop"),
            String::from_str("org.kde.discover.desktop"),
        ],
    ];
    assert(ids_view(roles@[0]@) =~= default_roles()[0]);
    assert(ids_view(roles@[1]@) =~= default_roles()[1]);
    assert(ids_view(roles@[2]@) =~= default_roles()[2]);
    assert(ids_view(roles@[3]@) =~= default_roles()[3]);
    roles
}

/// The launcher for one role given the catalog's answers for its candidates.
fn pick_role(candidates: &Vec<String>, answers: &Vec<bool>) -> (r: Option<String>)
    ensures
        match r {
            Some(s) => role_pick(ids_view(candidates@), answers@) == seq![s@],
            None => role_pick(ids_view(candidates@), answers@) == Seq::<Seq<char>>::empty(),
        },
{
    let ghost c = ids_view(candidates@);
    let mut j: usize = 0;
    assert(c.skip(0) =~= c);
    assert(answers@.skip(0) =~= answers@);
    while j < answers.len() && j < candidates.len()
        invariant
            c == ids_view(candidates@),
            j <= answers.len(),
            j <= candidates.len(),
            role_pick(c, answers@) == role_pick(c.skip(j as int), answers@.skip(j as int)),
        decreases answers.len() - j,
    {
        assert(c.skip(j as int)[0] == candidates@[j as int]@);
        assert(c.skip(j as int).drop_first() =~= c.skip(j + 1));
        assert(answers@.skip(j as int).drop_first() =~= answers@.skip(j + 1));
        if answers[j] {
            return Some(candidates[j].clone());
        }
        j = j + 1;
    }
    None
}

/// The favorites to seed, given the catalog's answers for each role's candidates in
/// preference order: for each role, the first candidate answered as installed.
pub fn seeded_favorites(answers: &Vec<Vec<bool>>) -> (favorites: Vec<String>)
    ensures
        ids_view(favorites@) == seeded_from(answers@.map_values(|a: Vec<bool>| a@)),
{
    let roles = default_favorite_roles();
    let ghost answer_view = answers@.map_values(|a: Vec<bool>| a@);
    let mut favorites: Vec<String> = Vec::new();
    let mut i: usize = 0;
    while i < 4
        invariant
            roles@.len() == 4,
            forall|k: int| 0 <= k < 4 ==> ids_view(#[trigger] roles@[k]@) == default_roles()[k],
            answer_view == answers@.map_values(|a: Vec<bool>| a@),
            i <= 4,
            ids_view(favorites@) == seed_pick(default_roles(), answer_view, i as nat),
        decreases 4 - i,
    {
        let empty: Vec<bool> = Vec::new();
        let role_answers = if i < answers.len() {
            &answers[i]
        } else {
            &empty
        };
        assert(role_answers@ == (if i < answer_view.len() {
            answer_view[i as int]
        } else {
            Seq::<bool>::empty()
        }));
        let ghost before = favorites@;
        match pick_role(&roles[i], role_answers) {
            Some(s) => {
                favorites.push(s);
                assert(ids_view(favorites@) =~= ids_view(before) + role_pick(
                    default_roles()[i as int],
                    role_answers@,
                ));
            },
            None => {
                assert(ids_view(favorites@) =~= ids_view(before) + role_pick(
                    default_roles()[i as int],
                    role_answers@,
                ));
            },
        }
        i = i + 1;
    }
    favorites
}

/// The adapters that may register: the GNOME extension and the Plasma applet.
pub open spec fn supported_adapter(adapter_id: Seq<char>) -> bool {
    adapter_id == "gnome"@ || adapter_id == "plasma"@
}

/// Accepts exactly the supported adapter identifiers.
pub fn validate_adapter_id(adapter_id: &str) -> (r: Result<(), ServiceError>)
    ensures
        r is Ok <==> supported_adapter(adapter_id@),
        r matches Err(e) ==> e@ == ServiceErrorView::UnsupportedAdapter(adapter_id@),
{
    if text_equals(adapter_id, "gnome") || text_equals(adapter_id, "plasma") {
        Ok(())
    } else {
        Err(ServiceError::UnsupportedAdapter(String::from_str(adapter_id)))
    }
}

/// The registered adapters in identifier order, as a sorted map lists them.
pub open spec fn ordered_adapters(adapters: Map<Seq<char>, AdapterStatusView>) -> Seq<
    (Seq<char>, AdapterStatusView),
> {
    let gnome: Seq<(Seq<char>, AdapterStatusView)> = if adapters.contains_key("gnome"@) {
        seq![("gnome"@, adapters["gnome"@])]
    } else {
        Seq::empty()
    };
    let plasma: Seq<(Seq<char>, AdapterStatusView)> = if adapters.contains_key("plasma"@) {
        seq![("plasma"@, adapters["plasma"@])]
    } else {
        Seq::empty()
    };
    gnome + plasma
}

/// The first favorite answered as not installed, where `answers[i]` is the catalog's
/// answer for `favorites[i]`.
pub open spec fn first_missing(favorites: Seq<Seq<char>>, answers: Seq<bool>) -> Option<Seq<char>>
    decreases answers.len(),
{
    if answers.len() == 0 || favorites.len() == 0 {
        None
    } else if !answers[0] {
        Some(favorites[0])
    } else {
        first_missing(favorites.drop_first(), answers.drop_first())
    }
}

/// The first of `favorites` that the catalog answered as not installed.
pub fn first_not_installed(favorites: &Vec<String>, answers: &Vec<bool>) -> (r: Option<String>)
    ensures
        match r {
            Some(id) => first_missing(ids_view(favorites@), answers@) == Some(id@),
            None => first_missing(ids_view(favorites@), answers@) is None,
        },
{
    let ghost f = ids_view(favorites@);
    let mut i: usize = 0;
    assert(f.skip(0) =~= f);
    assert(answers@.skip(0) =~= answers@);
    while i < answers.len() && i < favorites.len()
        invariant
            f == ids_view(favorites@),
            i <= answers.len(),
            i <= favorites.len(),
            first_missing(f, answers@) == first_missing(f.skip(i as int), answers@.skip(i as int)),
        decreases answers.len() - i,
    {
        assert(f.skip(i as int)[0] == favorites@[i as int]@);
        assert(f.skip(i as int).drop_first() =~= f.skip(i + 1));
        assert(answers@.skip(i as int).drop_first() =~= answers@.skip(i + 1));
        if !answers[i] {
            return Some(favorites[i].clone());
        }
        i = i + 1;
    }
    None
}

/// The configuration service.
pub struct Service<C: AppCatalog> {
    store: ConfigStore,
    catalog: C,
    /// The adapter registry: the set of adapters is closed (GNOME and Plasma), so it has
    /// one slot for each, listed in identifier order.
    gnome: Option<AdapterStatus>,
    plasma: Option<AdapterStatus>,
}

/// Mathematical value of a [`Service`]: its store and the adapter registry.
pub ghost struct ServiceView {
    pub store: StoreView,
    pub adapters: Map<Seq<char>, AdapterStatusView>,
}

impl<C: AppCatalog> View for Service<C> {
    type V = ServiceView;

    closed spec fn view(&self) -> ServiceView {
        ServiceView {
            store: self.store@,
            adapters: Map::new(
                |id: Seq<char>| self.adapter_slot(id) is Some,
                |id: Seq<char>| self.adapter_slot(id)->0@,
            ),
        }
    }
}

impl<C: AppCatalog> Service<C> {
    /// The status recorded for `id`, if any; only supported adapters have a slot.
    closed spec fn adapter_slot(&self, id: Seq<char>) -> Option<AdapterStatus> {
        if id == "gnome"@ {
            self.gnome
        } else if id == "plasma"@ {
            self.plasma
        } else {
            None
        }
    }

    /// The catalog consulted by this service.
    pub closed spec fn catalog_value(&self) -> C {
        self.catalog
    }

    /// Starts the service on `store`, seeding favorites on first start.
    ///
    /// A configuration that was never seeded gets, for each role, the first installed
    /// candidate, and is marked as seeded; a seeded one is left as it is, so favorites
    /// are seeded at most once.
    pub fn new(store: ConfigStore, catalog: C) -> (r: Result<Self, ServiceError>)
        requires
            store@.snapshot.revision < u64::MAX || store@.snapshot.config.seeded,
        ensures
            r matches Ok(service) && service@.adapters == Map::<
                Seq<char>,
                AdapterStatusView,
            >::empty() && service@.store.recovery == store@.recovery && service.catalog_value()
                == catalog && seeded_once(store@.snapshot, service@.store.snapshot),
    {
        let mut service = Service { store, catalog, gnome: None, plasma: None };
        service.seed_favorites_once();
        Ok(service)
    }

    /// Seeds the favorites unless the configuration says it was done already.
    fn seed_favorites_once(&mut self)
        requires
            old(self)@.store.snapshot.revision < u64::MAX || old(self)@.store.snapshot.config.seeded,
        ensures
            final(self)@.adapters == old(self)@.adapters,
            final(self)@.store.recovery == old(self)@.store.recovery,
            final(self).catalog_value() == old(self).catalog_value(),
            seeded_once(old(self)@.store.snapshot, final(self)@.store.snapshot),
    {
        let snapshot = self.store.snapshot();
        if snapshot.config.seeded {
            return;
        }
        let roles = default_favorite_roles();
        let mut answers: Vec<Vec<bool>> = Vec::new();
        let mut i: usize = 0;
        while i < roles.len()
            invariant
                i <= roles.len(),
                answers@.len() == i,
            decreases roles.len() - i,
        {
            let candidates = &roles[i];
            let mut role_answers: Vec<bool> = Vec::new();
            let mut j: usize = 0;
            while j < candidates.len()
                invariant
                    j <= candidates.len(),
                decreases candidates.len() - j,
            {
                let installed = self.catalog.is_installed(candidates[j].as_str());
                role_answers.push(installed);
                if installed {
                    break;
                }
                j = j + 1;
            }
            answers.push(role_answers);
            i = i + 1;
        }
        let ghost answer_view = answers@.map_values(|a: Vec<bool>| a@);
        let mut config = snapshot.config;
        config.seeded = true;
        config.favorites = seeded_favorites(&answers);
        proof {
            lemma_seeded_favorites_ok(answer_view);
            assert(config@ =~= (ConfigView {
                seeded: true,
                favorites: seeded_from(answer_view),
                ..snapshot@.config
            }));
        }
        let _ = self.store.replace(snapshot.revision, config);
    }

    /// The current snapshot.
    pub fn snapshot(&self) -> (s: Snapshot)
        ensures
            s@ == self@.store.snapshot,
            config_valid(s@.config),
    {
        self.store.snapshot()
    }

    /// The catalog consulted by this service.
    pub fn catalog(&self) -> (c: &C)
        ensures
            *c == self.catalog_value(),
    {
        &self.catalog
    }

    /// The store behind this service.
    pub fn store(&self) -> (store: &ConfigStore)
        ensures
            store@ == self@.store,
    {
        &self.store
    }

    /// Asks the catalog whether `desktop_id` is installed.
    fn ask_installed(&self, desktop_id: &str) -> (installed: bool)
        ensures
            catalog_reported(self.catalog_value(), desktop_id@, installed),
    {
        let ask = C::is_installed;
        ask(&self.catalog, desktop_id)
    }

    /// Asks the catalog about each of `favorites` in order, stopping at the first one
    /// reported as not installed; `answers[i]` is the answer for `favorites[i]`.
    fn installed_answers(&self, favorites: &Vec<String>) -> (answers: Vec<bool>)
        ensures
            catalog_answers(self.catalog_value(), ids_view(favorites@), answers@),
    {
        let ghost ids = ids_view(favorites@);
        let mut answers: Vec<bool> = Vec::new();
        let mut i: usize = 0;
        while i < favorites.len()
            invariant_except_break
                forall|j: int| 0 <= j < i ==> answers@[j],
            invariant
                ids == ids_view(favorites@),
                i <= favorites.len(),
                answers@.len() == i,
                forall|j: int|
                    #![trigger answers@[j]]
                    0 <= j < i ==> catalog_reported(self.catalog_value(), ids[j], answers@[j]),
            ensures
                (i == favorites.len() && forall|j: int| 0 <= j < i ==> answers@[j]) || (0 < i
                    && !answers@[i - 1] && forall|j: int| 0 <= j < i - 1 ==> answers@[j]),
            decreases favorites.len() - i,
        {
            assert(ids[i as int] == favorites@[i as int]@);
            let installed = self.ask_installed(favorites[i].as_str());
            answers.push(installed);
            i = i + 1;
            if !installed {
                break;
            }
        }
        answers
    }

    /// Checks a configuration offered by a client: it must satisfy the configuration
    /// rules and pin only installed launchers. Launchers are asked about in order and
    /// the first one reported missing is named.
    pub fn validate_favorites(&self, config: &Config) -> (r: Result<(), ServiceError>)
        ensures
            !config_valid(config@) ==> (r matches Err(e) && e@ == ServiceErrorView::Store(
                StoreErrorView::InvalidConfig(violation_error(first_violation(config@)->0, config@)),
            )),
            config_valid(config@) ==> exists|answers: Seq<bool>|
                #![trigger first_missing(config@.favorites, answers)]
                catalog_answers(self.catalog_value(), config@.favorites, answers) && match first_missing(
                    config@.favorites,
                    answers,
                ) {
                    Some(id) => r matches Err(e) && e@ == ServiceErrorView::UnknownDesktopEntry(id),
                    None => r is Ok,
                },
    {
        match config.validate() {
            Err(e) => {
                return Err(ServiceError::Store(StoreError::InvalidConfig(e)));
            },
            Ok(()) => {},
        }
        let answers = self.installed_answers(&config.favorites);
        match first_not_installed(&config.favorites, &answers) {
            Some(id) => Err(ServiceError::UnknownDesktopEntry(id)),
            None => Ok(()),
        }
    }

    /// Replaces the configuration with one offered by a client, given what the catalog
    /// answered for its favorites (`answers[i]` for `config.favorites[i]`): a valid
    /// configuration that pins a launcher answered as not installed is refused, naming
    /// the first such launcher; otherwise the store decides.
    pub fn replace_snapshot_answered(
        &mut self,
        answers: &Vec<bool>,
        expected_revision: u64,
        config: Config,
    ) -> (r: Result<Snapshot, ServiceError>)
        requires
            old(self)@.store.snapshot.revision < u64::MAX || answered_replace_outcome(
                old(self)@.store.snapshot,
                expected_revision,
                config@,
                answers@,
            ) is Err,
        ensures
            final(self)@.adapters == old(self)@.adapters,
            final(self)@.store.recovery == old(self)@.store.recovery,
            final(self).catalog_value() == old(self).catalog_value(),
            service_outcome(r) == answered_replace_outcome(
                old(self)@.store.snapshot,
                expected_revision,
                config@,
                answers@,
            ),
            final(self)@.store.snapshot == service_after(old(self)@.store.snapshot, service_outcome(r)),
    {
        if config.validate().is_ok() {
            match first_not_installed(&config.favorites, answers) {
                Some(id) => {
                    return Err(ServiceError::UnknownDesktopEntry(id));
                },
                None => {},
            }
        }
        match self.store.replace(expected_revision, config) {
            Ok(s) => Ok(s),
            Err(e) => Err(ServiceError::Store(e)),
        }
    }

    /// Replaces the configuration with one offered by a client, after checking that it
    /// satisfies the rules and pins only installed launchers: the catalog is asked about
    /// the favorites in order, up to the first one it does not report installed.
    pub fn replace_snapshot(&mut self, expected_revision: u64, config: Config) -> (r: Result<
        Snapshot,
        ServiceError,
    >)
        requires
            old(self)@.store.snapshot.revision < u64::MAX || replace_outcome(old(self)@.store.snapshot, expected_revision, config@) is Err,
        ensures
            final(self)@.adapters == old(self)@.adapters,
            final(self)@.store.recovery == old(self)@.store.recovery,
            final(self).catalog_value() == old(self).catalog_value(),
            exists|answers: Seq<bool>|
                #![trigger answered_replace_outcome(old(self)@.store.snapshot, expected_revision, config@, answers)]
                answers.len() <= config@.favorites.len() && (config_valid(config@) ==> catalog_answers(
                    old(self).catalog_value(),
                    config@.favorites,
                    answers,
                )) && service_outcome(r)
                    == answered_replace_outcome(
                    old(self)@.store.snapshot,
                    expected_revision,
                    config@,
                    answers,
                ) && final(self)@.store.snapshot == service_after(
                    old(self)@.store.snapshot,
                    service_outcome(r),
                ),
            r is Ok ==> forall|j: int|
                0 <= j < config@.favorites.len() ==> catalog_reported(
                    old(self).catalog_value(),
                    #[trigger] config@.favorites[j],
                    true,
                ),
    {
        let answers = if config.validate().is_ok() {
            self.installed_answers(&config.favorites)
        } else {
            Vec::new()
        };
        let ghost config_view = config@;
        let r = self.replace_snapshot_answered(&answers, expected_revision, config);
        assert(answered_replace_outcome(
            old(self)@.store.snapshot,
            expected_revision,
            config_view,
            answers@,
        ) == service_outcome(r));
        proof {
            crate::properties::lemma_replacement_needs_every_favorite_installed(
                old(self).catalog_value(),
                old(self)@.store.snapshot,
                expected_revision,
                config_view,
                answers@,
            );
        }
        r
    }

    /// Imports a configuration offered by a client: it is checked and takes effect as
    /// for [`Service::replace_snapshot`]; keeping the configuration it replaces as a
    /// rollback copy is the caller's part, done only when this succeeds.
    pub fn import(&mut self, expected_revision: u64, config: Config) -> (r: Result<
        Snapshot,
        ServiceError,
    >)
        requires
            old(self)@.store.snapshot.revision < u64::MAX || replace_outcome(old(self)@.store.snapshot, expected_revision, config@) is Err,
        ensures
            final(self)@.adapters == old(self)@.adapters,
            final(self)@.store.recovery == old(self)@.store.recovery,
            final(self).catalog_value() == old(self).catalog_value(),
            exists|answers: Seq<bool>|
                #![trigger answered_replace_outcome(old(self)@.store.snapshot, expected_revision, config@, answers)]
                answers.len() <= config@.favorites.len() && (config_valid(config@) ==> catalog_answers(
                    old(self).catalog_value(),
                    config@.favorites,
                    answers,
                )) && service_outcome(r)
                    == answered_replace_outcome(
                    old(self)@.store.snapshot,
                    expected_revision,
                    config@,
                    answers,
                ) && final(self)@.store.snapshot == service_after(
                    old(self)@.store.snapshot,
                    service_outcome(r),
                ),
            r is Ok ==> forall|j: int|
                0 <= j < config@.favorites.len() ==> catalog_reported(
                    old(self).catalog_value(),
                    #[trigger] config@.favorites[j],
                    true,
                ),
    {
        self.replace_snapshot(expected_revision, config)
    }

    /// Pins a launcher just before `before_id` (or last), given whether the catalog
    /// reports it installed: one that is not is refused; otherwise the store decides.
    pub fn pin_answered(
        &mut self,
        installed: bool,
        expected_revision: u64,
        desktop_id: &str,
        before_id: Option<&str>,
    ) -> (r: Result<Snapshot, ServiceError>)
        requires
            old(self)@.store.snapshot.revision < u64::MAX || !installed || pin_outcome(
                old(self)@.store.snapshot,
                expected_revision,
                desktop_id@,
                opt_view(before_id),
            ) is Err,
        ensures
            final(self)@.adapters == old(self)@.adapters,
            final(self)@.store.recovery == old(self)@.store.recovery,
            final(self).catalog_value() == old(self).catalog_value(),
            service_outcome(r) == answered_pin_outcome(
                old(self)@.store.snapshot,
                installed,
                expected_revision,
                desktop_id@,
                opt_view(before_id),
            ),
            final(self)@.store.snapshot == service_after(old(self)@.store.snapshot, service_outcome(r)),
    {
        if !installed {
            return Err(ServiceError::UnknownDesktopEntry(String::from_str(desktop_id)));
        }
        match self.store.pin(expected_revision, desktop_id, before_id) {
            Ok(s) => Ok(s),
            Err(e) => Err(ServiceError::Store(e)),
        }
    }

    /// Pins an installed launcher just before `before_id` (or last): the catalog is asked
    /// whether `desktop_id` is installed, and its answer decides as for
    /// [`Service::pin_answered`].
    pub fn pin(&mut self, expected_revision: u64, desktop_id: &str, before_id: Option<&str>) -> (r:
        Result<Snapshot, ServiceError>)
        requires
            old(self)@.store.snapshot.revision < u64::MAX || pin_outcome(old(self)@.store.snapshot, expected_revision, desktop_id@, opt_view(before_id)) is Err,
        ensures
            final(self)@.adapters == old(self)@.adapters,
            final(self)@.store.recovery == old(self)@.store.recovery,
            final(self).catalog_value() == old(self).catalog_value(),
            exists|installed: bool|
                #![trigger answered_pin_outcome(old(self)@.store.snapshot, installed, expected_revision, desktop_id@, opt_view(before_id))]
                catalog_reported(old(self).catalog_value(), desktop_id@, installed) && service_outcome(r)
                    == answered_pin_outcome(
                    old(self)@.store.snapshot,
                    installed,
                    expected_revision,
                    desktop_id@,
                    opt_view(before_id),
                ) && final(self)@.store.snapshot == service_after(
                    old(self)@.store.snapshot,
                    service_outcome(r),
                ),
            r is Ok ==> catalog_reported(old(self).catalog_value(), desktop_id@, true),
            r matches Err(ServiceError::UnknownDesktopEntry(id)) ==> id@ == desktop_id@
                && catalog_reported(old(self).catalog_value(), desktop_id@, false),
    {
        let installed = self.ask_installed(desktop_id);
        let r = self.pin_answered(installed, expected_revision, desktop_id, before_id);
        assert(answered_pin_outcome(
            old(self)@.store.snapshot,
            installed,
            expected_revision,
            desktop_id@,
            opt_view(before_id),
        ) == service_outcome(r));
        r
    }

    /// Unpins a launcher.
    pub fn unpin(&mut self, expected_revision: u64, desktop_id: &str) -> (r: Result<Snapshot, ServiceError>)
        requires
            old(self)@.store.snapshot.revision < u64::MAX || unpin_outcome(old(self)@.store.snapshot, expected_revision, desktop_id@) is Err,
        ensures
            final(self)@.adapters == old(self)@.adapters,
            final(self)@.store.recovery == old(self)@.store.recovery,
            final(self).catalog_value() == old(self).catalog_value(),
            service_outcome(r) == through_service(
                unpin_outcome(old(self)@.store.snapshot, expected_revision, desktop_id@),
            ),
            final(self)@.store.snapshot == after(
                old(self)@.store.snapshot,
                unpin_outcome(old(self)@.store.snapshot, expected_revision, desktop_id@),
            ),
    {
        match self.store.unpin(expected_revision, desktop_id) {
            Ok(s) => Ok(s),
            Err(e) => Err(ServiceError::Store(e)),
        }
    }

    /// Moves a pinned launcher just before `before_id` (or last).
    pub fn move_favorite(&mut self, expected_revision: u64, desktop_id: &str, before_id: Option<
        &str,
    >) -> (r: Result<Snapshot, ServiceError>)
        requires
            old(self)@.store.snapshot.revision < u64::MAX || move_outcome(old(self)@.store.snapshot, expected_revision, desktop_id@, opt_view(before_id)) is Err,
        ensures
            final(self)@.adapters == old(self)@.adapters,
            final(self)@.store.recovery == old(self)@.store.recovery,
            final(self).catalog_value() == old(self).catalog_value(),
            service_outcome(r) == through_service(
                move_outcome(
                    old(self)@.store.snapshot,
                    expected_revision,
                    desktop_id@,
                    opt_view(before_id),
                ),
            ),
            final(self)@.store.snapshot == after(
                old(self)@.store.snapshot,
                move_outcome(
                    old(self)@.store.snapshot,
                    expected_revision,
                    desktop_id@,
                    opt_view(before_id),
                ),
            ),
    {
        match self.store.move_favorite(expected_revision, desktop_id, before_id) {
            Ok(s) => Ok(s),
            Err(e) => Err(ServiceError::Store(e)),
        }
    }

    /// Records the status of `adapter_id`, which must be a supported adapter.
    fn record_adapter(&mut self, adapter_id: &str, status: AdapterStatus) -> (r: Result<(), ServiceError>)
        ensures
            final(self)@.store == old(self)@.store,
            final(self).catalog_value() == old(self).catalog_value(),
            r is Ok <==> supported_adapter(adapter_id@),
            r matches Err(e) ==> e@ == ServiceErrorView::UnsupportedAdapter(adapter_id@),
            final(self)@.adapters == if supported_adapter(adapter_id@) {
                old(self)@.adapters.insert(adapter_id@, status@)
            } else {
                old(self)@.adapters
            },
    {
        validate_adapter_id(adapter_id)?;
        proof {
            reveal_strlit("gnome");
            reveal_strlit("plasma");
        }
        let ghost before = self@.adapters;
        if text_equals(adapter_id, "gnome") {
            self.gnome = Some(status);
            assert(self@.adapters =~= before.insert(adapter_id@, status@));
        } else {
            self.plasma = Some(status);
            assert(self@.adapters =~= before.insert(adapter_id@, status@));
        }
        Ok(())
    }

    /// Registers an adapter and hands it the current snapshot.
    pub fn register_adapter(&mut self, adapter_id: &str, status: AdapterStatus) -> (r: Result<
        Snapshot,
        ServiceError,
    >)
        ensures
            final(self)@.store == old(self)@.store,
            final(self).catalog_value() == old(self).catalog_value(),
            match r {
                Ok(s) => supported_adapter(adapter_id@) && s@ == old(self)@.store.snapshot
                    && final(self)@.adapters == old(self)@.adapters.insert(adapter_id@, status@),
                Err(e) => !supported_adapter(adapter_id@) && e@
                    == ServiceErrorView::UnsupportedAdapter(adapter_id@) && final(self)@.adapters
                    == old(self)@.adapters,
            },
    {
        self.record_adapter(adapter_id, status)?;
        Ok(self.snapshot())
    }

    /// Updates the status an adapter reports.
    pub fn update_adapter_status(&mut self, adapter_id: &str, status: AdapterStatus) -> (r: Result<
        (),
        ServiceError,
    >)
        ensures
            final(self)@.store == old(self)@.store,
            final(self).catalog_value() == old(self).catalog_value(),
            match r {
                Ok(()) => supported_adapter(adapter_id@) && final(self)@.adapters == old(self)@.adapters.insert(adapter_id@, status@),
                Err(e) => !supported_adapter(adapter_id@) && e@
                    == ServiceErrorView::UnsupportedAdapter(adapter_id@) && final(self)@.adapters
                    == old(self)@.adapters,
            },
    {
        self.record_adapter(adapter_id, status)
    }

    /// The registered adapters and their statuses, in identifier order.
    pub fn adapter_statuses(&self) -> (statuses: Vec<(String, AdapterStatus)>)
        ensures
            statuses@.map_values(|e: (String, AdapterStatus)| (e.0@, e.1@)) == ordered_adapters(
                self@.adapters,
            ),
    {
        proof {
            reveal_strlit("gnome");
            reveal_strlit("plasma");
        }
        let mut statuses: Vec<(String, AdapterStatus)> = Vec::new();
        let ghost adapters = self@.adapters;
        assert("gnome"@.len() != "plasma"@.len());
        assert("gnome"@ != "plasma"@);
        assert(self.adapter_slot("plasma"@) == self.plasma);
        assert(adapters.contains_key("gnome"@) == self.gnome is Some);
        assert(adapters.contains_key("plasma"@) == self.plasma is Some);
        match &self.gnome {
            Some(s) => {
                assert(adapters["gnome"@] == s@);
                statuses.push((String::from_str("gnome"), s.copied()));
            },
            None => {},
        }
        let ghost first = statuses@.map_values(|e: (String, AdapterStatus)| (e.0@, e.1@));
        assert(first =~= ordered_adapters(adapters).take(first.len() as int));
        match &self.plasma {
            Some(s) => {
                assert(adapters["plasma"@] == s@);
                statuses.push((String::from_str("plasma"), s.copied()));
            },
            None => {},
        }
        assert(statuses@.map_values(|e: (String, AdapterStatus)| (e.0@, e.1@)) =~= ordered_adapters(
            adapters,
        ));
        statuses
    }
}

impl Service<SystemAppCatalog> {
    /// The actions offered by the installed entry `desktop_id`.
    ///
    /// `read_entry` reads the entry file at a path and lists its actions, or gives
    /// `None` when the file is not a usable desktop entry.
    pub fn desktop_actions<F>(&self, desktop_id: &str, read_entry: F) -> (r: Result<
        Vec<DesktopAction>,
        ServiceError,
    >) where F: Fn(&str) -> Option<Vec<ListedAction>>
        requires
            forall|path: &str| read_entry.requires((path,)),
        ensures
            !lookup_id_ok(desktop_id@) ==> (r matches Err(e) && e@
                == ServiceErrorView::UnknownDesktopEntry(desktop_id@)),
            r matches Err(e) ==> e@ == ServiceErrorView::UnknownDesktopEntry(desktop_id@),
            r matches Ok(actions) ==> exists|path: &str, listed: Vec<ListedAction>|
                #[trigger] read_entry.ensures((path,), Some(listed)) && entry_file(self.catalog_value().directories(), desktop_id@, path@) && actions_view(actions@) == usable_actions(
                    listed_view(listed@),
                ),
    {
        let path = match self.catalog.desktop_file(desktop_id) {
            Some(p) => p,
            None => {
                return Err(ServiceError::UnknownDesktopEntry(String::from_str(desktop_id)));
            },
        };
        match read_entry(path.as_str()) {
            Some(listed) => Ok(offered_actions(listed)),
            None => Err(ServiceError::UnknownDesktopEntry(String::from_str(desktop_id))),
        }
    }

    /// Launches the action `action_id` of the installed entry `desktop_id`, if the entry
    /// offers it.
    ///
    /// `read_entry` reads and lists the entry file at a path as for
    /// [`Service::desktop_actions`]; `launch` starts an action of the entry file. It is
    /// called only with a file of the installed entry and an action that file offers, so
    /// it need accept nothing else.
    pub fn launch_desktop_action<F, G>(
        &self,
        desktop_id: &str,
        action_id: &str,
        read_entry: F,
        launch: G,
    ) -> (r: Result<(), ServiceError>) where
        F: Fn(&str) -> Option<Vec<ListedAction>>,
        G: Fn(&str, &str),

        requires
            forall|path: &str| read_entry.requires((path,)),
            forall|path: &str, action: &str, listed: Vec<ListedAction>|
                #![trigger read_entry.ensures((path,), Some(listed)), launch.requires((path, action))]
                read_entry.ensures((path,), Some(listed)) && entry_file(self.catalog_value().directories(), desktop_id@, path@) && usable_actions(listed_view(listed@)).map_values(
                    |a: (Seq<char>, Seq<char>)| a.0,
                ).contains(action@) ==> launch.requires((path, action)),
        ensures
            !lookup_id_ok(desktop_id@) ==> (r matches Err(e) && e@
                == ServiceErrorView::UnknownDesktopEntry(desktop_id@)),
            r matches Err(e) ==> (e@ == ServiceErrorView::UnknownDesktopEntry(desktop_id@) || e@
                == (ServiceErrorView::UnknownDesktopAction {
                desktop_id: desktop_id@,
                action_id: action_id@,
            })),
            r is Ok ==> exists|path: &str, listed: Vec<ListedAction>|
                #[trigger] read_entry.ensures((path,), Some(listed)) && entry_file(self.catalog_value().directories(), desktop_id@, path@) && usable_actions(listed_view(listed@)).map_values(
                    |a: (Seq<char>, Seq<char>)| a.0,
                ).contains(action_id@),
            r matches Err(ServiceError::UnknownDesktopAction { .. }) ==> exists|
                path: &str,
                listed: Vec<ListedAction>,
            |
                #[trigger] read_entry.ensures((path,), Some(listed)) && entry_file(self.catalog_value().directories(), desktop_id@, path@) && !usable_actions(listed_view(listed@)).map_values(
                    |a: (Seq<char>, Seq<char>)| a.0,
                ).contains(action_id@),
    {
        let path = match self.catalog.desktop_file(desktop_id) {
            Some(p) => p,
            None => {
                return Err(ServiceError::UnknownDesktopEntry(String::from_str(desktop_id)));
            },
        };
        let entry: &str = path.as_str();
        let listed = match read_entry(entry) {
            Some(listed) => listed,
            None => {
                return Err(ServiceError::UnknownDesktopEntry(String::from_str(desktop_id)));
            },
        };
        let ghost listed_copy = listed;
        assert(read_entry.ensures((entry,), Some(listed_copy)));
        let actions = offered_actions(listed);
        let ghost ids = usable_actions(listed_view(listed_copy@)).map_values(
            |a: (Seq<char>, Seq<char>)| a.0,
        );
        if offers_action(&actions, action_id) {
            proof {
                let i = choose|i: int| 0 <= i < actions@.len() && #[trigger] actions@[i].id@ == action_id@;
                assert(actions_view(actions@)[i] == (actions@[i].id@, actions@[i].name@));
                assert(ids[i] == action_id@);
                assert(ids.contains(action_id@));
                assert(launch.requires((entry, action_id)));
            }
            launch(entry, action_id);
            Ok(())
        } else {
            proof {
                assert forall|i: int| 0 <= i < ids.len() implies ids[i] != action_id@ by {
                    assert(actions_view(actions@)[i] == (actions@[i].id@, actions@[i].name@));
                }
            }
            Err(
                ServiceError::UnknownDesktopAction {
                    desktop_id: String::from_str(desktop_id),
                    action_id: String::from_str(action_id),
                },
            )
        }
    }
}

/// Only supported adapters are ever registered.
pub proof fn lemma_registered_adapters_supported<C: AppCatalog>(service: &Service<C>)
    ensures
        forall|id: Seq<char>| #[trigger] service@.adapters.contains_key(id) ==> supported_adapter(id),
{
}

/// A favorite reported missing is one of the favorites.
pub proof fn lemma_first_missing_is_favorite(favorites: Seq<Seq<char>>, answers: Seq<bool>)
    ensures
        first_missing(favorites, answers) matches Some(id) ==> favorites.contains(id),
    decreases answers.len(),
{
    if answers.len() > 0 && favorites.len() > 0 {
        if !answers[0] {
            assert(favorites[0] == favorites[0]);
        } else {
            lemma_first_missing_is_favorite(favorites.drop_first(), answers.drop_first());
            match first_missing(favorites.drop_first(), answers.drop_first()) {
                Some(id) => {
                    let k = choose|k: int|
                        0 <= k < favorites.drop_first().len() && favorites.drop_first()[k] == id;
                    assert(favorites[k + 1] == id);
                },
                None => {},
            }
        }
    }
}

/// A role contributes at most one launcher, one of its candidates.
proof fn lemma_role_pick_shape(candidates: Seq<Seq<char>>, answers: Seq<bool>)
    ensures
        role_pick(candidates, answers).len() <= 1,
        role_pick(candidates, answers).len() == 1 ==> candidates.contains(
            role_pick(candidates, answers)[0],
        ),
    decreases answers.len(),
{
    if answers.len() > 0 && candidates.len() > 0 && !answers[0] {
        lemma_role_pick_shape(candidates.drop_first(), answers.drop_first());
        let r = role_pick(candidates.drop_first(), answers.drop_first());
        if r.len() == 1 {
            let k = choose|k: int| 0 <= k < candidates.drop_first().len() && candidates.drop_first()[k] == r[0];
            assert(candidates[k + 1] == r[0]);
        }
    } else if answers.len() > 0 && candidates.len() > 0 {
        assert(candidates[0] == candidates[0]);
    }
}

/// Every default candidate is a safe identifier, and no two roles share a candidate.
proof fn lemma_default_roles_sound()
    ensures
        forall|i: int, j: int|
            0 <= i < 4 && 0 <= j < default_roles()[i].len() ==> valid_desktop_id(
                #[trigger] default_roles()[i][j],
            ),
        forall|i: int, j: int, k: int, l: int|
            0 <= i < 4 && 0 <= k < 4 && i != k && 0 <= j < default_roles()[i].len() && 0 <= l
                < default_roles()[k].len() ==> #[trigger] default_roles()[i][j]
                != #[trigger] default_roles()[k][l],
{
    reveal_strlit(".desktop");
    reveal_strlit("firefox.desktop");
    reveal_strlit("org.mozilla.firefox.desktop");
    reveal_strlit("org.gnome.Nautilus.desktop");
    reveal_strlit("org.kde.dolphin.desktop");
    reveal_strlit("org.gnome.Ptyxis.desktop");
    reveal_strlit("org.gnome.Console.desktop");
    reveal_strlit("org.kde.konsole.desktop");
    reveal_strlit("org.gnome.Software.desktop");
    reveal_strlit("org.kde.discover.desktop");
    assert("firefox.desktop"@.subrange(7, 15) =~= ".desktop"@);
    assert(valid_desktop_id("firefox.desktop"@));
    assert("org.mozilla.firefox.desktop"@.subrange(19, 27) =~= ".desktop"@);
    assert(valid_desktop_id("org.mozilla.firefox.desktop"@));
    assert("org.gnome.Nautilus.desktop"@.subrange(18, 26) =~= ".desktop"@);
    assert(valid_desktop_id("org.gnome.Nautilus.desktop"@));
    assert("org.kde.dolphin.desktop"@.subrange(15, 23) =~= ".desktop"@);
    assert(valid_desktop_id("org.kde.dolphin.desktop"@));
    assert("org.gnome.Ptyxis.desktop"@.subrange(16, 24) =~= ".desktop"@);
    assert(valid_desktop_id("org.gnome.Ptyxis.desktop"@));
    assert("org.gnome.Console.desktop"@.subrange(17, 25) =~= ".desktop"@);
    assert(valid_desktop_id("org.gnome.Console.desktop"@));
    assert("org.kde.konsole.desktop"@.subrange(15, 23) =~= ".desktop"@);
    assert(valid_desktop_id("org.kde.konsole.desktop"@));
    assert("org.gnome.Software.desktop"@.subrange(18, 26) =~= ".desktop"@);
    assert(valid_desktop_id("org.gnome.Software.desktop"@));
    assert("org.kde.discover.desktop"@.subrange(16, 24) =~= ".desktop"@);
    assert(valid_desktop_id("org.kde.discover.desktop"@));
    assert("firefox.desktop"@.len() != "org.gnome.Nautilus.desktop"@.len());
    assert("firefox.desktop"@.len() != "org.kde.dolphin.desktop"@.len());
    assert("org.mozilla.firefox.desktop"@.len() != "org.gnome.Nautilus.desktop"@.len());
    assert("org.mozilla.firefox.desktop"@.len() != "org.kde.dolphin.desktop"@.len());
    assert("firefox.desktop"@.len() != "org.gnome.Ptyxis.desktop"@.len());
    assert("firefox.desktop"@.len() != "org.gnome.Console.desktop"@.len());
    assert("firefox.desktop"@.len() != "org.kde.konsole.desktop"@.len());
    assert("org.mozilla.firefox.desktop"@.len() != "org.gnome.Ptyxis.desktop"@.len());
    assert("org.mozilla.firefox.desktop"@.len() != "org.gnome.Console.desktop"@.len());
    assert("org.mozilla.firefox.desktop"@.len() != "org.kde.konsole.desktop"@.len());
    assert("firefox.desktop"@.len() != "org.gnome.Software.desktop"@.len());
    assert("firefox.desktop"@.len() != "org.kde.discover.desktop"@.len());
    assert("org.mozilla.firefox.desktop"@.len() != "org.gnome.Software.desktop"@.len());
    assert("org.mozilla.firefox.desktop"@.len() != "org.kde.discover.desktop"@.len());
    assert("org.gnome.Nautilus.desktop"@.len() != "org.gnome.Ptyxis.desktop"@.len());
    assert("org.gnome.Nautilus.desktop"@.len() != "org.gnome.Console.desktop"@.len());
    assert("org.gnome.Nautilus.desktop"@.len() != "org.kde.konsole.desktop"@.len());
    assert("org.kde.dolphin.desktop"@.len() != "org.gnome.Ptyxis.desktop"@.len());
    assert("org.kde.dolphin.desktop"@.len() != "org.gnome.Console.desktop"@.len());
    assert("org.kde.dolphin.desktop"@[8] != "org.kde.konsole.desktop"@[8]);
    assert("org.gnome.Nautilus.desktop"@[10] != "org.gnome.Software.desktop"@[10]);
    assert("org.gnome.Nautilus.desktop"@.len() != "org.kde.discover.desktop"@.len());
    assert("org.kde.dolphin.desktop"@.len() != "org.gnome.Software.desktop"@.len());
    assert("org.kde.dolphin.desktop"@.len() != "org.kde.discover.desktop"@.len());
    assert("org.gnome.Ptyxis.desktop"@.len() != "org.gnome.Software.desktop"@.len());
    assert("org.gnome.Ptyxis.desktop"@[4] != "org.kde.discover.desktop"@[4]);
    assert("org.gnome.Console.desktop"@.len() != "org.gnome.Software.desktop"@.len());
    assert("org.gnome.Console.desktop"@.len() != "org.kde.discover.desktop"@.len());
    assert("org.kde.konsole.desktop"@.len() != "org.gnome.Software.desktop"@.len());
    assert("org.kde.konsole.desktop"@.len() != "org.kde.discover.desktop"@.len());
    assert forall|i: int, j: int, k: int, l: int|
        0 <= i < 4 && 0 <= k < 4 && i != k && 0 <= j < default_roles()[i].len() && 0 <= l
            < default_roles()[k].len() implies #[trigger] default_roles()[i][j]
            != #[trigger] default_roles()[k][l] by {
        let r = default_roles();
        assert(r[0] =~= seq!["firefox.desktop"@, "org.mozilla.firefox.desktop"@]);
        assert(r[1] =~= seq!["org.gnome.Nautilus.desktop"@, "org.kde.dolphin.desktop"@]);
        assert(r[2] =~= seq!["org.gnome.Ptyxis.desktop"@, "org.gnome.Console.desktop"@, "org.kde.konsole.desktop"@]);
        assert(r[3] =~= seq!["org.gnome.Software.desktop"@, "org.kde.discover.desktop"@]);
    }
}

/// `id` is a candidate of one of the first `n` default roles.
pub open spec fn in_first_roles(id: Seq<char>, n: int) -> bool {
    exists|i: int| 0 <= i < n && #[trigger] default_roles()[i].contains(id)
}

/// The first `n` roles' picks are safe, unique, and each comes from one of those roles.
proof fn lemma_seed_pick_sound(answers: Seq<Seq<bool>>, n: nat)
    requires
        n <= 4,
    ensures
        seed_pick(default_roles(), answers, n).no_duplicates(),
        forall|k: int|
            0 <= k < seed_pick(default_roles(), answers, n).len() ==> in_first_roles(
                #[trigger] seed_pick(default_roles(), answers, n)[k],
                n as int,
            ),
    decreases n,
{
    if n > 0 {
        let i = n - 1;
        lemma_seed_pick_sound(answers, (n - 1) as nat);
        lemma_default_roles_sound();
        let before = seed_pick(default_roles(), answers, (n - 1) as nat);
        let role_answers = if i < answers.len() {
            answers[i as int]
        } else {
            Seq::empty()
        };
        let pick = role_pick(default_roles()[i as int], role_answers);
        lemma_role_pick_shape(default_roles()[i as int], role_answers);
        let all = seed_pick(default_roles(), answers, n);
        assert(all == before + pick);
        if pick.len() == 1 {
            let l = choose|l: int| 0 <= l < default_roles()[i as int].len() && default_roles()[i as int][l] == pick[0];
            assert forall|k: int| 0 <= k < before.len() implies before[k] != pick[0] by {
                assert(in_first_roles(before[k], n - 1));
                let r = choose|r: int| 0 <= r < n - 1 && #[trigger] default_roles()[r].contains(before[k]);
                let m = choose|m: int| 0 <= m < default_roles()[r].len() && default_roles()[r][m] == before[k];
                assert(default_roles()[r][m] != default_roles()[i as int][l]);
            }
            assert forall|k: int| 0 <= k < all.len() implies in_first_roles(#[trigger] all[k], n as int) by {
                if k < before.len() {
                    assert(all[k] == before[k]);
                    assert(in_first_roles(before[k], n - 1));
                    let r = choose|r: int| 0 <= r < n - 1 && #[trigger] default_roles()[r].contains(before[k]);
                    assert(default_roles()[r].contains(all[k]));
                } else {
                    assert(all[k] == pick[0]);
                    assert(default_roles()[i as int].contains(all[k]));
                }
            }
            assert forall|a: int, b: int| 0 <= a < all.len() && 0 <= b < all.len() && a != b implies all[a] != all[b] by {
                if a < before.len() && b < before.len() {
                    assert(all[a] == before[a] && all[b] == before[b]);
                } else if a < before.len() {
                    assert(all[a] == before[a] && all[b] == pick[0]);
                } else if b < before.len() {
                    assert(all[b] == before[b] && all[a] == pick[0]);
                }
            }
        } else {
            assert(all =~= before);
            assert forall|k: int| 0 <= k < all.len() implies in_first_roles(#[trigger] all[k], n as int) by {
                assert(in_first_roles(before[k], n - 1));
                let r = choose|r: int| 0 <= r < n - 1 && #[trigger] default_roles()[r].contains(before[k]);
                assert(default_roles()[r].contains(all[k]));
            }
        }
    }
}

/// Seeded favorites are safe and unique, so seeding never breaks the configuration rules.
pub proof fn lemma_seeded_favorites_ok(answers: Seq<Seq<bool>>)
    ensures
        favorites_ok(seeded_from(answers)),
{
    lemma_seed_pick_sound(answers, 4);
    lemma_default_roles_sound();
    let f = seeded_from(answers);
    assert forall|k: int| 0 <= k < f.len() implies valid_desktop_id(#[trigger] f[k]) by {
        assert(in_first_roles(f[k], 4));
        let r = choose|r: int| 0 <= r < 4 && #[trigger] default_roles()[r].contains(f[k]);
        let m = choose|m: int| 0 <= m < default_roles()[r].len() && default_roles()[r][m] == f[k];
        assert(valid_desktop_id(default_roles()[r][m]));
    }
}

} // verus!
