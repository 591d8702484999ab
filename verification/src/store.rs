//! The revision-checked configuration store.
//!
//! A [`ConfigStore`] holds the current [`Snapshot`]: a valid configuration
//! and its revision. Every accepted change produces the next revision; a
//! change made against any other revision, or one that would break the
//! configuration rules, is refused and leaves the store as it was. Reading
//! and writing the document on disk is left to the caller, which hands the
//! parsed document to [`ConfigStore::open`] and persists each snapshot that
//! an operation returns.

use vstd::prelude::*;

use crate::config::{
    config_valid, default_config, lemma_default_config_valid, first_violation, valid_desktop_id, violation_error, Config,
    ConfigError, ConfigErrorView, ConfigView, SCHEMA_VERSION,
};
use crate::config::is_safe_desktop_id;
use crate::text::{decimal, decimal_text, text_equals};

verus! {

/// A configuration together with its revision.
#[derive(Debug, Clone, PartialEq, Eq)]
pub struct Snapshot {
    pub revision: u64,
    pub config: Config,
}

/// Mathematical value of a [`Snapshot`].
pub ghost struct SnapshotView {
    pub revision: u64,
    pub config: ConfigView,
}

impl View for Snapshot {
    type V = SnapshotView;

    open spec fn view(&self) -> SnapshotView {
        SnapshotView { revision: self.revision, config: self.config@ }
    }
}

/// The snapshot of a store that has never been written: revision 0, default configuration.
pub open spec fn default_snapshot() -> SnapshotView {
    SnapshotView { revision: 0, config: default_config() }
}

impl Default for Snapshot {
    fn default() -> (s: Self)
        ensures
            s@ == default_snapshot(),
    {
        Snapshot { revision: 0, config: Config::default() }
    }
}

/// Where an unreadable document was moved aside when the store was opened.
#[derive(Debug, Clone, PartialEq, Eq)]
pub struct Recovery {
    pub quarantined_path: String,
}

/// Why the store refused a request.
#[derive(Debug)]
pub enum StoreError {
    UnsupportedSchema(u32),
    RevisionConflict { expected: u64, actual: u64 },
    InvalidDesktopId(String),
    NotPinned(String),
    AnchorNotPinned(String),
    InvalidConfig(ConfigError),
    Json(String),
    Io(String),
}

/// Mathematical value of a [`StoreError`].
pub ghost enum StoreErrorView {
    UnsupportedSchema(u32),
    RevisionConflict { expected: u64, actual: u64 },
    InvalidDesktopId(Seq<char>),
    NotPinned(Seq<char>),
    AnchorNotPinned(Seq<char>),
    InvalidConfig(ConfigErrorView),
    Json(Seq<char>),
    Io(Seq<char>),
}

impl View for StoreError {
    type V = StoreErrorView;

    open spec fn view(&self) -> StoreErrorView {
        match self {
            StoreError::UnsupportedSchema(v) => StoreErrorView::UnsupportedSchema(*v),
            StoreError::RevisionConflict { expected, actual } => StoreErrorView::RevisionConflict {
                expected: *expected,
                actual: *actual,
            },
            StoreError::InvalidDesktopId(id) => StoreErrorView::InvalidDesktopId(id@),
            StoreError::NotPinned(id) => StoreErrorView::NotPinned(id@),
            StoreError::AnchorNotPinned(id) => StoreErrorView::AnchorNotPinned(id@),
            StoreError::InvalidConfig(e) => StoreErrorView::InvalidConfig(e@),
            StoreError::Json(m) => StoreErrorView::Json(m@),
            StoreError::Io(m) => StoreErrorView::Io(m@),
        }
    }
}

/// The text of a store error, as it reads in logs and replies.
pub open spec fn store_error_text(e: StoreErrorView) -> Seq<char> {
    match e {
        StoreErrorView::UnsupportedSchema(v) => "unsupported configuration schema version: "@
            + decimal(v as nat),
        StoreErrorView::RevisionConflict { expected, actual } =>
            "configuration revision conflict: expected "@ + decimal(expected as nat) + ", actual "@
            + decimal(actual as nat),
        StoreErrorView::InvalidDesktopId(id) => "invalid desktop entry identifier: "@ + id,
        StoreErrorView::NotPinned(id) => "favorite is not pinned: "@ + id,
        StoreErrorView::AnchorNotPinned(id) => "favorite anchor is not pinned: "@ + id,
        StoreErrorView::InvalidConfig(e) => crate::config::config_error_text(e),
        StoreErrorView::Json(m) => m,
        StoreErrorView::Io(m) => m,
    }
}

impl StoreError {
    /// The error as text.
    pub fn describe(&self) -> (s: String)
        ensures
            s@ == store_error_text(self@),
    {
        match self {
            StoreError::UnsupportedSchema(v) => {
                let mut s = String::from_str("unsupported configuration schema version: ");
                let n = decimal_text(*v as u64);
                s.append(n.as_str());
                s
            },
            StoreError::RevisionConflict { expected, actual } => {
                let mut s = String::from_str("configuration revision conflict: expected ");
                let e = decimal_text(*expected);
                s.append(e.as_str());
                s.append(", actual ");
                let a = decimal_text(*actual);
                s.append(a.as_str());
                s
            },
            StoreError::InvalidDesktopId(id) => {
                let mut s = String::from_str("invalid desktop entry identifier: ");
                s.append(id.as_str());
                s
            },
            StoreError::NotPinned(id) => {
                let mut s = String::from_str("favorite is not pinned: ");
                s.append(id.as_str());
                s
            },
            StoreError::AnchorNotPinned(id) => {
                let mut s = String::from_str("favorite anchor is not pinned: ");
                s.append(id.as_str());
                s
            },
            StoreError::InvalidConfig(e) => e.describe(),
            StoreError::Json(m) => m.clone(),
            StoreError::Io(m) => m.clone(),
        }
    }
}

/// Mathematical value of the result of a store operation.
pub open spec fn outcome_view(r: Result<Snapshot, StoreError>) -> Result<SnapshotView, StoreErrorView> {
    match r {
        Ok(s) => Ok(s@),
        Err(e) => Err(e@),
    }
}

/// `favorites` with every occurrence of `id` removed, order kept.
pub open spec fn without(favorites: Seq<Seq<char>>, id: Seq<char>) -> Seq<Seq<char>>
    decreases favorites.len(),
{
    if favorites.len() == 0 {
        favorites
    } else if favorites.last() == id {
        without(favorites.drop_last(), id)
    } else {
        without(favorites.drop_last(), id).push(favorites.last())
    }
}

/// `i` is the first position of `id` in `favorites`.
pub open spec fn is_first_position(favorites: Seq<Seq<char>>, id: Seq<char>, i: int) -> bool {
    &&& 0 <= i < favorites.len()
    &&& favorites[i] == id
    &&& forall|j: int| 0 <= j < i ==> favorites[j] != id
}

/// The first position of `id` in `favorites`, which must hold it.
pub open spec fn first_position(favorites: Seq<Seq<char>>, id: Seq<char>) -> int {
    choose|i: int| is_first_position(favorites, id, i)
}

/// `favorites` with `id` inserted just before the first `anchor`, or at the end when
/// there is no anchor; `None` when the anchor is not among `favorites`.
pub open spec fn inserted_before(
    favorites: Seq<Seq<char>>,
    id: Seq<char>,
    anchor: Option<Seq<char>>,
) -> Option<Seq<Seq<char>>> {
    match anchor {
        None => Some(favorites.push(id)),
        Some(a) => if favorites.contains(a) {
            Some(favorites.insert(first_position(favorites, a), id))
        } else {
            None
        },
    }
}

/// What replacing the configuration of `current` with `config`, expecting
/// revision `expected`, yields: the next revision holding `config`, or the
/// first reason to refuse (an invalid configuration, then a stale revision).
pub open spec fn replace_outcome(current: SnapshotView, expected: u64, config: ConfigView) -> Result<
    SnapshotView,
    StoreErrorView,
> {
    if !config_valid(config) {
        Err(StoreErrorView::InvalidConfig(violation_error(first_violation(config)->0, config)))
    } else if expected != current.revision {
        Err(StoreErrorView::RevisionConflict { expected, actual: current.revision })
    } else {
        Ok(SnapshotView { revision: (current.revision + 1) as u64, config })
    }
}

/// What pinning `id` before `anchor` (or at the end) yields from `current`.
pub open spec fn pin_outcome(
    current: SnapshotView,
    expected: u64,
    id: Seq<char>,
    anchor: Option<Seq<char>>,
) -> Result<SnapshotView, StoreErrorView> {
    if !valid_desktop_id(id) {
        Err(StoreErrorView::InvalidDesktopId(id))
    } else {
        match inserted_before(without(current.config.favorites, id), id, anchor) {
            None => Err(StoreErrorView::AnchorNotPinned(anchor->0)),
            Some(favorites) => replace_outcome(
                current,
                expected,
                current.config.with_favorites(favorites),
            ),
        }
    }
}

/// What unpinning `id` yields from `current`.
pub open spec fn unpin_outcome(current: SnapshotView, expected: u64, id: Seq<char>) -> Result<
    SnapshotView,
    StoreErrorView,
> {
    if !current.config.favorites.contains(id) {
        Err(StoreErrorView::NotPinned(id))
    } else {
        replace_outcome(current, expected, current.config.with_favorites(without(current.config.favorites, id)))
    }
}

/// What moving the pinned `id` before `anchor` (or to the end) yields from `current`.
pub open spec fn move_outcome(
    current: SnapshotView,
    expected: u64,
    id: Seq<char>,
    anchor: Option<Seq<char>>,
) -> Result<SnapshotView, StoreErrorView> {
    let favorites = current.config.favorites;
    if !favorites.contains(id) {
        Err(StoreErrorView::NotPinned(id))
    } else {
        match inserted_before(favorites.remove(first_position(favorites, id)), id, anchor) {
            None => Err(StoreErrorView::AnchorNotPinned(anchor->0)),
            Some(moved) => replace_outcome(current, expected, current.config.with_favorites(moved)),
        }
    }
}

/// The snapshot a store holds after an operation with outcome `outcome` on `current`:
/// the new snapshot on success, `current` unchanged otherwise.
pub open spec fn after(current: SnapshotView, outcome: Result<SnapshotView, StoreErrorView>) -> SnapshotView {
    match outcome {
        Ok(next) => next,
        Err(_) => current,
    }
}

/// Mathematical value of an optional `&str`.
pub open spec fn opt_view(s: Option<&str>) -> Option<Seq<char>> {
    match s {
        Some(t) => Some(t@),
        None => None,
    }
}


/// Mathematical value of a list of desktop entry identifiers.
pub open spec fn ids_view(ids: Seq<String>) -> Seq<Seq<char>> {
    ids.map_values(|s: String| s@)
}

/// `without` never grows the list, and shrinks it exactly when `id` was present.
pub proof fn lemma_without_len(favorites: Seq<Seq<char>>, id: Seq<char>)
    ensures
        without(favorites, id).len() <= favorites.len(),
        without(favorites, id).len() == favorites.len() <==> !favorites.contains(id),
    decreases favorites.len(),
{
    if favorites.len() > 0 {
        let rest = favorites.drop_last();
        lemma_without_len(rest, id);
        if favorites.contains(id) && favorites.last() != id {
            let i = choose|i: int| 0 <= i < favorites.len() && favorites[i] == id;
            assert(rest[i] == id);
        }
        if rest.contains(id) {
            let i = choose|i: int| 0 <= i < rest.len() && rest[i] == id;
            assert(favorites[i] == id);
        }
        if favorites.last() == id {
            assert(favorites[favorites.len() - 1] == id);
        }
    }
}

/// An identifier remains after `without` exactly when it was there and is not the one removed.
pub proof fn lemma_without_contains(favorites: Seq<Seq<char>>, id: Seq<char>, other: Seq<char>)
    ensures
        without(favorites, id).contains(other) <==> (favorites.contains(other) && other != id),
    decreases favorites.len(),
{
    if favorites.len() > 0 {
        let rest = favorites.drop_last();
        lemma_without_contains(rest, id, other);
        let w = without(rest, id);
        if favorites.contains(other) && other != favorites.last() {
            let i = choose|i: int| 0 <= i < favorites.len() && favorites[i] == other;
            assert(rest[i] == other);
        }
        if rest.contains(other) {
            let i = choose|i: int| 0 <= i < rest.len() && rest[i] == other;
            assert(favorites[i] == other);
        }
        if favorites.last() != id {
            let v = w.push(favorites.last());
            if v.contains(other) && other != favorites.last() {
                let i = choose|i: int| 0 <= i < v.len() && v[i] == other;
                assert(w[i] == other);
            }
            if w.contains(other) {
                let i = choose|i: int| 0 <= i < w.len() && w[i] == other;
                assert(v[i] == other);
            }
            assert(v[v.len() - 1] == favorites.last());
            assert(favorites[favorites.len() - 1] == favorites.last());
        }
    }
}

/// Removing an identifier keeps a duplicate-free list duplicate-free.
pub proof fn lemma_without_no_duplicates(favorites: Seq<Seq<char>>, id: Seq<char>)
    requires
        favorites.no_duplicates(),
    ensures
        without(favorites, id).no_duplicates(),
    decreases favorites.len(),
{
    if favorites.len() > 0 {
        let rest = favorites.drop_last();
        assert(rest.no_duplicates());
        lemma_without_no_duplicates(rest, id);
        if favorites.last() != id {
            lemma_without_contains(rest, id, favorites.last());
            if rest.contains(favorites.last()) {
                let i = choose|i: int| 0 <= i < rest.len() && rest[i] == favorites.last();
                assert(favorites[i] == favorites[favorites.len() - 1]);
            }
        }
    }
}

/// At most one position is the first position of an identifier.
pub proof fn lemma_first_position_unique(favorites: Seq<Seq<char>>, id: Seq<char>, i: int)
    requires
        is_first_position(favorites, id, i),
    ensures
        first_position(favorites, id) == i,
{
    let j = first_position(favorites, id);
    assert(is_first_position(favorites, id, j));
    if j < i {
        assert(favorites[j] != id);
    }
    if i < j {
        assert(favorites[i] != id);
    }
}

/// Copies `favorites` without any occurrence of `id`.
fn without_id(favorites: &Vec<String>, id: &str) -> (r: Vec<String>)
    ensures
        ids_view(r@) == without(ids_view(favorites@), id@),
{
    let ghost view = ids_view(favorites@);
    let mut out: Vec<String> = Vec::new();
    let mut i: usize = 0;
    while i < favorites.len()
        invariant
            view == ids_view(favorites@),
            i <= favorites.len(),
            ids_view(out@) == without(view.take(i as int), id@),
        decreases favorites.len() - i,
    {
        assert(view.take(i + 1).drop_last() =~= view.take(i as int));
        assert(view.take(i + 1).last() == favorites@[i as int]@);
        if !text_equals(favorites[i].as_str(), id) {
            let ghost before = out@;
            out.push(favorites[i].clone());
            assert(ids_view(out@) =~= ids_view(before).push(favorites@[i as int]@));
        }
        i = i + 1;
    }
    assert(view.take(favorites.len() as int) =~= view);
    out
}

/// The first position of `id` in `favorites`, if it is there.
fn position_of(favorites: &Vec<String>, id: &str) -> (r: Option<usize>)
    ensures
        match r {
            Some(i) => is_first_position(ids_view(favorites@), id@, i as int),
            None => !ids_view(favorites@).contains(id@),
        },
{
    let ghost view = ids_view(favorites@);
    let mut i: usize = 0;
    while i < favorites.len()
        invariant
            view == ids_view(favorites@),
            i <= favorites.len(),
            forall|j: int| 0 <= j < i ==> view[j] != id@,
        decreases favorites.len() - i,
    {
        assert(view[i as int] == favorites@[i as int]@);
        if text_equals(favorites[i].as_str(), id) {
            return Some(i);
        }
        i = i + 1;
    }
    None
}

/// Inserts `desktop_id` just before the first `before_id`, or at the end without one.
fn insert_before(favorites: &mut Vec<String>, desktop_id: &str, before_id: Option<&str>) -> (r:
    Result<(), StoreError>)
    ensures
        match inserted_before(ids_view(old(favorites)@), desktop_id@, opt_view(before_id)) {
            Some(f) => r is Ok && ids_view(final(favorites)@) == f,
            None => r matches Err(e) && e@ == StoreErrorView::AnchorNotPinned(before_id->0@)
                && final(favorites)@ == old(favorites)@,
        },
{
    let ghost view = ids_view(favorites@);
    let index = match before_id {
        Some(anchor) => match position_of(favorites, anchor) {
            Some(i) => {
                proof {
                    lemma_first_position_unique(view, anchor@, i as int);
                }
                i
            },
            None => {
                return Err(StoreError::AnchorNotPinned(String::from_str(anchor)));
            },
        },
        None => favorites.len(),
    };
    favorites.insert(index, String::from_str(desktop_id));
    assert(ids_view(favorites@) =~= view.insert(index as int, desktop_id@));
    Ok(())
}


/// A configuration document as read and parsed by the caller.
pub enum StoredDocument {
    /// The current format: a configuration with its revision.
    Snapshot(Snapshot),
    /// A bare configuration without a revision, as written before revisions were stored.
    Legacy(Config),
    /// Bytes that parse as neither form; the parser's complaint about the snapshot form.
    Unreadable(String),
}

/// Mathematical value of a [`StoredDocument`].
pub ghost enum StoredDocumentView {
    Snapshot(SnapshotView),
    Legacy(ConfigView),
    Unreadable(Seq<char>),
}

impl View for StoredDocument {
    type V = StoredDocumentView;

    open spec fn view(&self) -> StoredDocumentView {
        match self {
            StoredDocument::Snapshot(s) => StoredDocumentView::Snapshot(s@),
            StoredDocument::Legacy(c) => StoredDocumentView::Legacy(c@),
            StoredDocument::Unreadable(m) => StoredDocumentView::Unreadable(m@),
        }
    }
}

/// What a read document yields: the snapshot and whether it must be rewritten in the
/// current format, or why it cannot be used. A document of another schema version is
/// reported as such before any other rule is checked.
pub open spec fn load_outcome(document: StoredDocumentView) -> Result<(SnapshotView, bool), StoreErrorView> {
    match document {
        StoredDocumentView::Snapshot(s) => if s.config.schema_version != SCHEMA_VERSION {
            Err(StoreErrorView::UnsupportedSchema(s.config.schema_version))
        } else if !config_valid(s.config) {
            Err(StoreErrorView::InvalidConfig(violation_error(first_violation(s.config)->0, s.config)))
        } else {
            Ok((s, false))
        },
        StoredDocumentView::Legacy(c) => if c.schema_version != SCHEMA_VERSION {
            Err(StoreErrorView::UnsupportedSchema(c.schema_version))
        } else if !config_valid(c) {
            Err(StoreErrorView::InvalidConfig(violation_error(first_violation(c)->0, c)))
        } else {
            Ok((SnapshotView { revision: 0, config: c }, true))
        },
        StoredDocumentView::Unreadable(m) => Err(StoreErrorView::Json(m)),
    }
}

/// Checks a read document and turns it into a snapshot.
///
/// The flag is set when the document was in the legacy form and must be rewritten.
pub fn load_snapshot(document: StoredDocument) -> (r: Result<(Snapshot, bool), StoreError>)
    ensures
        match r {
            Ok((s, migrated)) => load_outcome(document@) == Ok::<(SnapshotView, bool), StoreErrorView>((s@, migrated)),
            Err(e) => load_outcome(document@) == Err::<(SnapshotView, bool), StoreErrorView>(e@),
        },
{
    match document {
        StoredDocument::Snapshot(snapshot) => {
            if snapshot.config.schema_version != SCHEMA_VERSION {
                return Err(StoreError::UnsupportedSchema(snapshot.config.schema_version));
            }
            match snapshot.config.validate() {
                Err(e) => Err(StoreError::InvalidConfig(e)),
                Ok(()) => Ok((snapshot, false)),
            }
        },
        StoredDocument::Legacy(config) => {
            if config.schema_version != SCHEMA_VERSION {
                return Err(StoreError::UnsupportedSchema(config.schema_version));
            }
            match config.validate() {
                Err(e) => Err(StoreError::InvalidConfig(e)),
                Ok(()) => Ok((Snapshot { revision: 0, config }, true)),
            }
        },
        StoredDocument::Unreadable(message) => Err(StoreError::Json(message)),
    }
}

/// The result of opening a store from what was found on disk.
pub enum Opened {
    /// The store to serve, and whether its snapshot must be written back in the current format.
    Ready { store: ConfigStore, needs_persist: bool },
    /// The document is unusable: it must be moved aside and the store recovered with defaults.
    Corrupt,
}

/// The `n`-th name tried for moving a corrupt document aside: `base`, then `base.1`, `base.2`, ...
pub open spec fn quarantine_candidate(base: Seq<char>, n: nat) -> Seq<char> {
    if n == 0 {
        base
    } else {
        base + "."@ + decimal(n)
    }
}

/// The number that the decimal digits `s` denote.
pub open spec fn digits_value(s: Seq<char>) -> nat
    decreases s.len(),
{
    if s.len() == 0 {
        0
    } else {
        digits_value(s.drop_last()) * 10 + digit_value(s.last())
    }
}

/// The value of a decimal digit character.
pub open spec fn digit_value(c: char) -> nat {
    if c == '1' {
        1
    } else if c == '2' {
        2
    } else if c == '3' {
        3
    } else if c == '4' {
        4
    } else if c == '5' {
        5
    } else if c == '6' {
        6
    } else if c == '7' {
        7
    } else if c == '8' {
        8
    } else if c == '9' {
        9
    } else {
        0
    }
}

/// Reading a digit character back gives the digit.
proof fn lemma_digit_round_trip(d: nat)
    requires
        d < 10,
    ensures
        digit_value(crate::text::digit_char(d)) == d,
{
}

/// Decimal rendering can be read back: distinct numbers render differently.
pub proof fn lemma_decimal_value(n: nat)
    ensures
        digits_value(decimal(n)) == n,
        decimal(n).len() >= 1,
    decreases n,
{
    if n >= 10 {
        lemma_decimal_value(n / 10);
        lemma_digit_round_trip(n % 10);
        let d = decimal(n);
        assert(d == decimal(n / 10).push(crate::text::digit_char(n % 10)));
        assert(d.drop_last() =~= decimal(n / 10));
        assert(d.last() == crate::text::digit_char(n % 10));
        assert(digits_value(d) == digits_value(d.drop_last()) * 10 + digit_value(d.last()));
        assert(n == (n / 10) * 10 + n % 10) by (nonlinear_arith);
    } else {
        lemma_digit_round_trip(n);
        let d = decimal(n);
        assert(d == seq![crate::text::digit_char(n)]);
        assert(d.drop_last() =~= Seq::<char>::empty());
        assert(digits_value(d) == digits_value(d.drop_last()) * 10 + digit_value(d.last()));
    }
}

/// Distinct numbers give distinct quarantine names.
pub proof fn lemma_quarantine_candidates_distinct(base: Seq<char>, n: nat, m: nat)
    requires
        n != m,
    ensures
        quarantine_candidate(base, n) != quarantine_candidate(base, m),
{
    lemma_decimal_value(n);
    lemma_decimal_value(m);
    reveal_strlit(".");
    if n != 0 && m != 0 {
        let a = quarantine_candidate(base, n);
        let b = quarantine_candidate(base, m);
        if a == b {
            let k: int = base.len() as int + 1;
            assert(a.subrange(k, a.len() as int) =~= decimal(n));
            assert(b.subrange(k, b.len() as int) =~= decimal(m));
        }
    } else if n == 0 {
        assert(quarantine_candidate(base, m).len() > base.len());
    } else {
        assert(quarantine_candidate(base, n).len() > base.len());
    }
}

/// If the first `k` quarantine names are all taken, there are at least `k` taken names.
proof fn lemma_taken_candidates_bound(base: Seq<char>, taken: Seq<Seq<char>>, k: nat)
    requires
        forall|m: nat| m < k ==> taken.contains(#[trigger] quarantine_candidate(base, m)),
    ensures
        k <= taken.len(),
{
    let names = Seq::new(k, |m: int| quarantine_candidate(base, m as nat));
    assert forall|i: int, j: int| 0 <= i < names.len() && 0 <= j < names.len() && i != j implies names[i] != names[j] by {
        lemma_quarantine_candidates_distinct(base, i as nat, j as nat);
    }
    assert(names.no_duplicates());
    names.unique_seq_to_set();
    assert forall|x: Seq<char>| names.to_set().contains(x) implies taken.to_set().contains(x) by {
        let i = choose|i: int| 0 <= i < names.len() && names[i] == x;
        assert(taken.contains(quarantine_candidate(base, i as nat)));
    }
    taken.lemma_cardinality_of_set();
    vstd::set_lib::lemma_len_subset(names.to_set(), taken.to_set());
}

/// Decides whether `name` is one of `names`.
fn listed(names: &Vec<String>, name: &str) -> (b: bool)
    ensures
        b == ids_view(names@).contains(name@),
{
    let ghost view = ids_view(names@);
    let mut i: usize = 0;
    while i < names.len()
        invariant
            view == ids_view(names@),
            i <= names.len(),
            forall|j: int| 0 <= j < i ==> view[j] != name@,
        decreases names.len() - i,
    {
        assert(view[i as int] == names@[i as int]@);
        if text_equals(names[i].as_str(), name) {
            return true;
        }
        i = i + 1;
    }
    false
}

/// The first of `base`, `base.1`, `base.2`, ... that is not among `existing`, the paths
/// already taken. A corrupt document moved there overwrites nothing.
pub fn next_quarantine_path(base: &str, existing: &Vec<String>) -> (p: String)
    ensures
        !ids_view(existing@).contains(p@),
        exists|n: nat|
            p@ == quarantine_candidate(base@, n) && forall|m: nat|
                m < n ==> ids_view(existing@).contains(#[trigger] quarantine_candidate(base@, m)),
{
    let ghost taken = ids_view(existing@);
    let mut n: usize = 0;
    let mut candidate = String::from_str(base);
    loop
        invariant
            taken == ids_view(existing@),
            candidate@ == quarantine_candidate(base@, n as nat),
            forall|m: nat| m < n ==> taken.contains(#[trigger] quarantine_candidate(base@, m)),
            n <= existing.len(),
        decreases existing.len() - n,
    {
        if !listed(existing, candidate.as_str()) {
            return candidate;
        }
        proof {
            assert forall|m: nat| m < n + 1 implies taken.contains(
                #[trigger] quarantine_candidate(base@, m),
            ) by {
                if m == n {
                    assert(taken.contains(candidate@));
                }
            }
            lemma_taken_candidates_bound(base@, taken, (n + 1) as nat);
        }
        n = n + 1;
        let mut next = String::from_str(base);
        next.append(".");
        let digits = decimal_text(n as u64);
        next.append(digits.as_str());
        candidate = next;
    }
}

impl Config {
    /// A copy of this configuration.
    pub fn copied(&self) -> (c: Config)
        ensures
            c@ == self@,
    {
        let favorites = self.favorites.clone();
        assert(favorites@ =~= self.favorites@);
        let mut connectors: Vec<(String, String)> = Vec::new();
        let mut i: usize = 0;
        while i < self.display.connector_by_adapter.len()
            invariant
                i <= self.display.connector_by_adapter.len(),
                connectors@.len() == i,
                forall|j: int|
                    0 <= j < i ==> (#[trigger] connectors@[j]).0@
                        == self.display.connector_by_adapter@[j].0@ && connectors@[j].1@
                        == self.display.connector_by_adapter@[j].1@,
            decreases self.display.connector_by_adapter.len() - i,
        {
            let pair = &self.display.connector_by_adapter[i];
            connectors.push((pair.0.clone(), pair.1.clone()));
            i = i + 1;
        }
        let c = Config {
            schema_version: self.schema_version,
            seeded: self.seeded,
            favorites,
            display: crate::config::DisplayConfig {
                mode: self.display.mode,
                connector_by_adapter: connectors,
            },
            geometry: self.geometry,
            behavior: crate::config::Behavior {
                visibility: self.behavior.visibility,
                reveal_delay_ms: self.behavior.reveal_delay_ms,
                hide_delay_ms: self.behavior.hide_delay_ms,
                shortcut: self.behavior.shortcut.clone(),
            },
            appearance: crate::config::Appearance {
                color_scheme: self.appearance.color_scheme,
                accent: match &self.appearance.accent {
                    crate::config::Accent::System => crate::config::Accent::System,
                    crate::config::Accent::Custom(color) => crate::config::Accent::Custom(
                        color.clone(),
                    ),
                },
                opacity_percent: self.appearance.opacity_percent,
                corner_radius: self.appearance.corner_radius,
            },
        };
        assert(c@.display.connectors =~= self@.display.connectors);
        assert(c@.favorites =~= self@.favorites);
        c
    }
}

impl Snapshot {
    /// A copy of this snapshot.
    pub fn copied(&self) -> (s: Snapshot)
        ensures
            s@ == self@,
    {
        Snapshot { revision: self.revision, config: self.config.copied() }
    }
}

/// Succeeds exactly when the expected revision is the current one.
pub fn verify_revision(expected: u64, actual: u64) -> (r: Result<(), StoreError>)
    ensures
        r is Ok <==> expected == actual,
        r matches Err(e) ==> e@ == (StoreErrorView::RevisionConflict { expected, actual }),
{
    if expected == actual {
        Ok(())
    } else {
        Err(StoreError::RevisionConflict { expected, actual })
    }
}

/// The pinned configuration store.
pub struct ConfigStore {
    snapshot: Snapshot,
    recovery: Option<Recovery>,
}

/// Mathematical value of a [`ConfigStore`].
pub ghost struct StoreView {
    pub snapshot: SnapshotView,
    pub recovery: Option<Seq<char>>,
}

impl View for ConfigStore {
    type V = StoreView;

    closed spec fn view(&self) -> StoreView {
        StoreView {
            snapshot: self.snapshot@,
            recovery: match &self.recovery {
                Some(r) => Some(r.quarantined_path@),
                None => None,
            },
        }
    }
}


impl Default for ConfigStore {
    /// A store that has never been written: the default snapshot, nothing recovered.
    fn default() -> (store: ConfigStore)
        ensures
            store@ == (StoreView { snapshot: default_snapshot(), recovery: None }),
    {
        let snapshot = Snapshot::default();
        proof {
            lemma_default_config_valid();
        }
        ConfigStore { snapshot, recovery: None }
    }
}

impl ConfigStore {
    /// The stored configuration always satisfies the configuration rules.
    #[verifier::type_invariant]
    closed spec fn stored_config_valid(self) -> bool {
        config_valid(self.snapshot@.config)
    }


    /// Opens the store from the document found on disk, or from nothing when there is none.
    ///
    /// A missing document gives the default snapshot, to be written. A usable document gives
    /// its snapshot (to be rewritten when it was in the legacy form). A document of another
    /// schema version is refused so that it is kept as it is. Anything else is corrupt.
    pub fn open(document: Option<StoredDocument>) -> (r: Result<Opened, StoreError>)
        ensures
            match document {
                None => r matches Ok(Opened::Ready { store, needs_persist }) && store@ == (StoreView {
                    snapshot: default_snapshot(),
                    recovery: None,
                }) && needs_persist,
                Some(d) => match load_outcome(d@) {
                    Ok((s, migrated)) => r matches Ok(Opened::Ready { store, needs_persist })
                        && store@ == (StoreView { snapshot: s, recovery: None }) && needs_persist
                        == migrated,
                    Err(StoreErrorView::UnsupportedSchema(v)) => r matches Err(e) && e@
                        == StoreErrorView::UnsupportedSchema(v),
                    Err(StoreErrorView::Io(m)) => r matches Err(e) && e@ == StoreErrorView::Io(m),
                    Err(_) => r matches Ok(Opened::Corrupt),
                },
            },
    {
        match document {
            None => Ok(Opened::Ready { store: ConfigStore::default(), needs_persist: true }),
            Some(document) => match load_snapshot(document) {
                Ok((snapshot, migrated)) => Ok(
                    Opened::Ready {
                        store: ConfigStore { snapshot, recovery: None },
                        needs_persist: migrated,
                    },
                ),
                Err(StoreError::UnsupportedSchema(version)) => Err(
                    StoreError::UnsupportedSchema(version),
                ),
                Err(StoreError::Io(message)) => Err(StoreError::Io(message)),
                Err(_) => Ok(Opened::Corrupt),
            },
        }
    }

    /// A store with the default snapshot, reporting that a corrupt document was moved to
    /// `quarantined_path`.
    pub fn recovered(quarantined_path: String) -> (store: ConfigStore)
        ensures
            store@ == (StoreView { snapshot: default_snapshot(), recovery: Some(quarantined_path@) }),
    {
        let snapshot = Snapshot::default();
        proof {
            lemma_default_config_valid();
        }
        ConfigStore { snapshot, recovery: Some(Recovery { quarantined_path }) }
    }

    /// The current snapshot.
    pub fn snapshot(&self) -> (s: Snapshot)
        ensures
            s@ == self@.snapshot,
            config_valid(s@.config),
    {
        proof {
            use_type_invariant(self);
        }
        self.snapshot.copied()
    }

    /// Where a corrupt document was moved aside when this store was opened, if it was.
    pub fn recovery(&self) -> (r: Option<Recovery>)
        ensures
            match r {
                Some(rec) => self@.recovery == Some(rec.quarantined_path@),
                None => self@.recovery is None,
            },
    {
        match &self.recovery {
            Some(rec) => Some(Recovery { quarantined_path: rec.quarantined_path.clone() }),
            None => None,
        }
    }

    /// Replaces the configuration, expecting the current revision to be `expected_revision`.
    pub fn replace(&mut self, expected_revision: u64, config: Config) -> (r: Result<Snapshot, StoreError>)
        requires
            old(self)@.snapshot.revision < u64::MAX || replace_outcome(old(self)@.snapshot, expected_revision, config@) is Err,
        ensures
            outcome_view(r) == replace_outcome(old(self)@.snapshot, expected_revision, config@),
            final(self)@.snapshot == after(old(self)@.snapshot, outcome_view(r)),
            final(self)@.recovery == old(self)@.recovery,
    {
        proof {
            use_type_invariant(&*self);
        }
        match config.validate() {
            Err(e) => {
                return Err(StoreError::InvalidConfig(e));
            },
            Ok(()) => {},
        }
        verify_revision(expected_revision, self.snapshot.revision)?;
        let snapshot = Snapshot { revision: self.snapshot.revision + 1, config };
        let reply = snapshot.copied();
        self.snapshot = snapshot;
        Ok(reply)
    }
    /// Pins `desktop_id` just before `before_id` (or last), moving it if it was pinned.
    pub fn pin(&mut self, expected_revision: u64, desktop_id: &str, before_id: Option<&str>) -> (r:
        Result<Snapshot, StoreError>)
        requires
            old(self)@.snapshot.revision < u64::MAX || pin_outcome(old(self)@.snapshot, expected_revision, desktop_id@, opt_view(before_id)) is Err,
        ensures
            outcome_view(r) == pin_outcome(
                old(self)@.snapshot,
                expected_revision,
                desktop_id@,
                opt_view(before_id),
            ),
            final(self)@.snapshot == after(old(self)@.snapshot, outcome_view(r)),
            final(self)@.recovery == old(self)@.recovery,
    {
        if !is_safe_desktop_id(desktop_id) {
            return Err(StoreError::InvalidDesktopId(String::from_str(desktop_id)));
        }
        let mut config = self.snapshot.config.copied();
        config.favorites = without_id(&config.favorites, desktop_id);
        insert_before(&mut config.favorites, desktop_id, before_id)?;
        assert(config@ =~= self@.snapshot.config.with_favorites(config@.favorites));
        self.replace(expected_revision, config)
    }

    /// Unpins `desktop_id`.
    pub fn unpin(&mut self, expected_revision: u64, desktop_id: &str) -> (r: Result<Snapshot, StoreError>)
        requires
            old(self)@.snapshot.revision < u64::MAX || unpin_outcome(old(self)@.snapshot, expected_revision, desktop_id@) is Err,
        ensures
            outcome_view(r) == unpin_outcome(old(self)@.snapshot, expected_revision, desktop_id@),
            final(self)@.snapshot == after(old(self)@.snapshot, outcome_view(r)),
            final(self)@.recovery == old(self)@.recovery,
    {
        let mut config = self.snapshot.config.copied();
        let old_len = config.favorites.len();
        config.favorites = without_id(&config.favorites, desktop_id);
        proof {
            lemma_without_len(self@.snapshot.config.favorites, desktop_id@);
        }
        if config.favorites.len() == old_len {
            return Err(StoreError::NotPinned(String::from_str(desktop_id)));
        }
        assert(config@ =~= self@.snapshot.config.with_favorites(config@.favorites));
        self.replace(expected_revision, config)
    }

    /// Moves the pinned `desktop_id` just before `before_id` (or last).
    pub fn move_favorite(&mut self, expected_revision: u64, desktop_id: &str, before_id: Option<
        &str,
    >) -> (r: Result<Snapshot, StoreError>)
        requires
            old(self)@.snapshot.revision < u64::MAX || move_outcome(old(self)@.snapshot, expected_revision, desktop_id@, opt_view(before_id)) is Err,
        ensures
            outcome_view(r) == move_outcome(
                old(self)@.snapshot,
                expected_revision,
                desktop_id@,
                opt_view(before_id),
            ),
            final(self)@.snapshot == after(old(self)@.snapshot, outcome_view(r)),
            final(self)@.recovery == old(self)@.recovery,
    {
        let mut config = self.snapshot.config.copied();
        let ghost favorites = config@.favorites;
        let position = match position_of(&config.favorites, desktop_id) {
            Some(i) => i,
            None => {
                return Err(StoreError::NotPinned(String::from_str(desktop_id)));
            },
        };
        proof {
            lemma_first_position_unique(favorites, desktop_id@, position as int);
        }
        config.favorites.remove(position);
        assert(ids_view(config.favorites@) =~= favorites.remove(position as int));
        insert_before(&mut config.favorites, desktop_id, before_id)?;
        assert(config@ =~= self@.snapshot.config.with_favorites(config@.favorites));
        self.replace(expected_revision, config)
    }
}

} // verus!
