//! Properties of the store operations that hold across calls: what one
//! operation undoes of another, what every operation keeps, and what a stale
//! client is told.

use vstd::prelude::*;

use crate::config::{config_valid, favorites_ok, valid_desktop_id, ConfigView};
use crate::dbus::{dbus_outcome, DbusErrorView};
use crate::catalog::{first_existing, AppCatalog};
use crate::config::{AccentView, Alignment, DisplayConfigView, Edge, Geometry};
use crate::config::Visibility;
use crate::settings::{
    activation_text, alignment_name, form_applied, form_shows, lemma_activation_sets_alignment,
    SettingsForm,
};
use crate::text::{contains_text, eq_ignore_ascii_case, trimmed};
use crate::service::{
    answered_pin_outcome, answered_replace_outcome, catalog_answers, catalog_reported,
    first_missing, supported_adapter, through_service, AdapterStatusView,
};
use crate::text::decimal;
use crate::store::{
    after, first_position, inserted_before, is_first_position, lemma_first_position_unique,
    lemma_without_contains, lemma_without_no_duplicates, load_outcome, move_outcome, pin_outcome,
    replace_outcome, unpin_outcome, without, SnapshotView, StoreErrorView, StoredDocumentView,
};

verus! {

broadcast use vstd::seq_lib::group_to_multiset_ensures;

/// Removing an identifier distributes over concatenation.
proof fn lemma_without_concat(a: Seq<Seq<char>>, b: Seq<Seq<char>>, id: Seq<char>)
    ensures
        without(a + b, id) == without(a, id) + without(b, id),
    decreases b.len(),
{
    if b.len() == 0 {
        assert(a + b =~= a);
        assert(without(a, id) + without(b, id) =~= without(a, id));
    } else {
        lemma_without_concat(a, b.drop_last(), id);
        assert((a + b).drop_last() =~= a + b.drop_last());
        assert((a + b).last() == b.last());
        if b.last() == id {
            assert(without(a + b, id) == without(a + b.drop_last(), id));
        } else {
            assert(without(a, id) + without(b, id) =~= (without(a, id) + without(
                b.drop_last(),
                id,
            )).push(b.last()));
        }
    }
}

/// Removing `id` from the list that holds only `id` leaves nothing.
proof fn lemma_without_single(id: Seq<char>)
    ensures
        without(seq![id], id) == Seq::<Seq<char>>::empty(),
{
    let single = seq![id];
    assert(single.len() == 1);
    assert(single.last() == id);
    assert(single.drop_last() =~= Seq::<Seq<char>>::empty());
    assert(without(single.drop_last(), id) == single.drop_last());
}

/// A list without `id` is left unchanged by removing it.
proof fn lemma_without_absent(favorites: Seq<Seq<char>>, id: Seq<char>)
    requires
        !favorites.contains(id),
    ensures
        without(favorites, id) == favorites,
    decreases favorites.len(),
{
    if favorites.len() > 0 {
        let rest = favorites.drop_last();
        if rest.contains(id) {
            let i = choose|i: int| 0 <= i < rest.len() && rest[i] == id;
            assert(favorites[i] == id);
        }
        lemma_without_absent(rest, id);
        assert(favorites.last() != id) by {
            assert(favorites[favorites.len() - 1] == favorites.last());
        }
        assert(rest.push(favorites.last()) =~= favorites);
    }
}

/// Removing `id` after inserting it anywhere removes exactly what was inserted.
proof fn lemma_without_inserted(favorites: Seq<Seq<char>>, k: int, id: Seq<char>)
    requires
        0 <= k <= favorites.len(),
    ensures
        without(favorites.insert(k, id), id) == without(favorites, id),
{
    let front = favorites.subrange(0, k);
    let back = favorites.subrange(k, favorites.len() as int);
    assert(favorites.insert(k, id) == front.push(id) + back);
    assert(front.push(id) =~= front + seq![id]);
    lemma_without_concat(front.push(id), back, id);
    lemma_without_concat(front, seq![id], id);
    assert(seq![id].drop_last() =~= Seq::<Seq<char>>::empty());
    lemma_without_single(id);
    assert(without(front, id) + Seq::<Seq<char>>::empty() =~= without(front, id));
    assert(favorites =~= front + back);
    lemma_without_concat(front, back, id);
}

/// Inserting an element adds it once to the multiset of elements.
proof fn lemma_insert_multiset(s: Seq<Seq<char>>, k: int, id: Seq<char>)
    requires
        0 <= k <= s.len(),
    ensures
        s.insert(k, id).to_multiset() =~= s.to_multiset().insert(id),
{
    let front = s.subrange(0, k);
    let back = s.subrange(k, s.len() as int);
    vstd::seq_lib::lemma_multiset_commutative(front.push(id), back);
    vstd::seq_lib::lemma_multiset_commutative(front, back);
    assert(s =~= front + back);
}

/// A list of identifiers that are all safe and distinct stays so when `id` is removed
/// and then inserted once at any position, provided `id` itself is safe.
proof fn lemma_reinserted_ok(favorites: Seq<Seq<char>>, id: Seq<char>, anchor: Option<Seq<char>>)
    requires
        favorites_ok(favorites),
        valid_desktop_id(id),
        inserted_before(without(favorites, id), id, anchor) is Some,
    ensures
        favorites_ok(inserted_before(without(favorites, id), id, anchor)->0),
        favorites_ok(without(favorites, id)),
{
    let rest = without(favorites, id);
    lemma_without_no_duplicates(favorites, id);
    assert forall|i: int| 0 <= i < rest.len() implies valid_desktop_id(#[trigger] rest[i]) by {
        lemma_without_contains(favorites, id, rest[i]);
        assert(rest.contains(rest[i]));
        let j = choose|j: int| 0 <= j < favorites.len() && favorites[j] == rest[i];
    }
    lemma_without_contains(favorites, id, id);
    let k = match anchor {
        Some(a) => first_position(rest, a),
        None => rest.len() as int,
    };
    if anchor is Some {
        let a = anchor->0;
        let p = choose|p: int| 0 <= p < rest.len() && rest[p] == a;
        assert(exists|q: int| is_first_position(rest, a, q)) by {
            let q = first_index_of(rest, a, p);
        }
        assert(is_first_position(rest, a, k));
    }
    let result = rest.insert(k, id);
    assert(result == inserted_before(rest, id, anchor)->0) by {
        if anchor is None {
            assert(rest.insert(rest.len() as int, id) =~= rest.push(id));
        }
    }
    rest.insert_ensures(k, id);
    assert forall|i: int| 0 <= i < result.len() implies valid_desktop_id(#[trigger] result[i]) by {
        if i < k {
            assert(result[i] == rest[i]);
        } else if i > k {
            assert(result[i] == rest[i - 1]);
        }
    }
    assert forall|i: int, j: int|
        0 <= i < result.len() && 0 <= j < result.len() && i != j implies result[i] != result[j] by {
        let ri = if i < k {
            i
        } else {
            i - 1
        };
        let rj = if j < k {
            j
        } else {
            j - 1
        };
        if i != k && j != k {
            assert(result[i] == rest[ri] && result[j] == rest[rj]);
        } else if i == k {
            assert(result[j] == rest[rj]);
            assert(rest.contains(rest[rj]));
        } else {
            assert(result[i] == rest[ri]);
            assert(rest.contains(rest[ri]));
        }
    }
}

/// Finds the first position of `a` in `s` at or before a known position `p`.
proof fn first_index_of(s: Seq<Seq<char>>, a: Seq<char>, p: int) -> (q: int)
    requires
        0 <= p < s.len(),
        s[p] == a,
    ensures
        is_first_position(s, a, q),
    decreases p,
{
    if exists|j: int| 0 <= j < p && s[j] == a {
        let j = choose|j: int| 0 <= j < p && s[j] == a;
        first_index_of(s, a, j)
    } else {
        p
    }
}

/// Every operation refuses a request made against any revision but the current one,
/// once the request itself is well-formed: a stale client is always told about the
/// conflict and nothing changes.
pub proof fn lemma_stale_revision_refused(
    current: SnapshotView,
    expected: u64,
    config: ConfigView,
    id: Seq<char>,
    anchor: Option<Seq<char>>,
)
    requires
        expected != current.revision,
    ensures
        config_valid(config) ==> replace_outcome(current, expected, config) == Err::<
            SnapshotView,
            StoreErrorView,
        >(StoreErrorView::RevisionConflict { expected, actual: current.revision }),
        pin_outcome(current, expected, id, anchor) is Err,
        unpin_outcome(current, expected, id) is Err,
        move_outcome(current, expected, id, anchor) is Err,
        after(current, pin_outcome(current, expected, id, anchor)) == current,
        after(current, unpin_outcome(current, expected, id)) == current,
        after(current, move_outcome(current, expected, id, anchor)) == current,
{
}

/// A request made against a revision other than the current one, but otherwise
/// acceptable, is answered over D-Bus with a `RevisionConflict` error that names the
/// expected and the actual revision, and leaves the snapshot as it was.
pub proof fn lemma_stale_request_answered_with_conflict(
    current: SnapshotView,
    expected: u64,
    config: ConfigView,
    id: Seq<char>,
    anchor: Option<Seq<char>>,
)
    requires
        config_valid(current.config),
        current.revision < u64::MAX,
        expected != current.revision,
    ensures
        ({
            let conflict = Err::<SnapshotView, DbusErrorView>(
                DbusErrorView::RevisionConflict(
                    "expected "@ + decimal(expected as nat) + ", actual "@ + decimal(
                        current.revision as nat,
                    ),
                ),
            );
            let f = current.config.favorites;
            &&& config_valid(config) ==> dbus_outcome(
                through_service(replace_outcome(current, expected, config)),
            ) == conflict
            &&& valid_desktop_id(id) && inserted_before(without(f, id), id, anchor) is Some
                ==> dbus_outcome(through_service(pin_outcome(current, expected, id, anchor)))
                == conflict
            &&& f.contains(id) ==> dbus_outcome(
                through_service(unpin_outcome(current, expected, id)),
            ) == conflict
            &&& f.contains(id) && inserted_before(f.remove(first_position(f, id)), id, anchor)
                is Some ==> dbus_outcome(through_service(move_outcome(current, expected, id, anchor)))
                == conflict
        }),
        after(current, pin_outcome(current, expected, id, anchor)) == current,
        after(current, unpin_outcome(current, expected, id)) == current,
        after(current, move_outcome(current, expected, id, anchor)) == current,
{
    lemma_favorite_changes_keep_config_valid(current, id, anchor);
}

/// An accepted change always produces the next revision and a configuration that
/// satisfies the configuration rules.
pub proof fn lemma_accepted_changes_advance_revision(
    current: SnapshotView,
    expected: u64,
    config: ConfigView,
    id: Seq<char>,
    anchor: Option<Seq<char>>,
)
    requires
        current.revision < u64::MAX,
    ensures
        replace_outcome(current, expected, config) matches Ok(next) ==> next.revision
            == current.revision + 1 && config_valid(next.config) && expected == current.revision,
        pin_outcome(current, expected, id, anchor) matches Ok(next) ==> next.revision
            == current.revision + 1 && config_valid(next.config) && expected == current.revision,
        unpin_outcome(current, expected, id) matches Ok(next) ==> next.revision
            == current.revision + 1 && config_valid(next.config) && expected == current.revision,
        move_outcome(current, expected, id, anchor) matches Ok(next) ==> next.revision
            == current.revision + 1 && config_valid(next.config) && expected == current.revision,
{
}

/// Favorite operations on a valid configuration never fail for breaking the
/// configuration rules: pinning a safe identifier, unpinning and moving keep the
/// favorites safe and unique, and change nothing but the favorites.
pub proof fn lemma_favorite_changes_keep_config_valid(
    current: SnapshotView,
    id: Seq<char>,
    anchor: Option<Seq<char>>,
)
    requires
        config_valid(current.config),
        current.revision < u64::MAX,
    ensures
        valid_desktop_id(id) && inserted_before(without(current.config.favorites, id), id, anchor) is Some
            ==> pin_outcome(current, current.revision, id, anchor) is Ok,
        current.config.favorites.contains(id) ==> unpin_outcome(current, current.revision, id) is Ok,
        current.config.favorites.contains(id) && inserted_before(
            current.config.favorites.remove(first_position(current.config.favorites, id)),
            id,
            anchor,
        ) is Some ==> move_outcome(current, current.revision, id, anchor) is Ok,
{
    let f = current.config.favorites;
    if valid_desktop_id(id) && inserted_before(without(f, id), id, anchor) is Some {
        lemma_reinserted_ok(f, id, anchor);
        let next = current.config.with_favorites(inserted_before(without(f, id), id, anchor)->0);
        assert(config_valid(next));
    }
    if f.contains(id) {
        let i = choose|i: int| 0 <= i < f.len() && f[i] == id;
        assert(valid_desktop_id(f[i]));
        lemma_reinserted_ok(f, id, None);
        let next = current.config.with_favorites(without(f, id));
        assert(config_valid(next));
        let p = first_index_of(f, id, i);
        lemma_first_position_unique(f, id, p);
        lemma_remove_is_without(f, id, p);
        if inserted_before(f.remove(p), id, anchor) is Some {
            lemma_reinserted_ok(f, id, anchor);
            let moved = current.config.with_favorites(inserted_before(f.remove(p), id, anchor)->0);
            assert(config_valid(moved));
        }
    }
}

/// In a list without duplicates, removing the position of `id` is removing `id`.
proof fn lemma_remove_is_without(favorites: Seq<Seq<char>>, id: Seq<char>, p: int)
    requires
        favorites.no_duplicates(),
        0 <= p < favorites.len(),
        favorites[p] == id,
    ensures
        favorites.remove(p) == without(favorites, id),
{
    let front = favorites.subrange(0, p);
    let back = favorites.subrange(p + 1, favorites.len() as int);
    assert(favorites =~= front + seq![id] + back);
    assert(!front.contains(id)) by {
        if front.contains(id) {
            let j = choose|j: int| 0 <= j < front.len() && front[j] == id;
            assert(favorites[j] == favorites[p]);
        }
    }
    assert(!back.contains(id)) by {
        if back.contains(id) {
            let j = choose|j: int| 0 <= j < back.len() && back[j] == id;
            assert(favorites[p + 1 + j] == favorites[p]);
        }
    }
    lemma_without_concat(front + seq![id], back, id);
    lemma_without_concat(front, seq![id], id);
    assert(seq![id].drop_last() =~= Seq::<Seq<char>>::empty());
    lemma_without_absent(front, id);
    lemma_without_absent(back, id);
    lemma_without_single(id);
    assert(front + Seq::<Seq<char>>::empty() =~= front);
    assert(favorites.remove(p) =~= front + back);
}

/// Unpinning undoes pinning: after a successful pin, unpinning the same launcher at the
/// new revision succeeds and leaves the favorites as they were without that launcher
/// (exactly as they were, when it had not been pinned before).
pub proof fn lemma_unpin_undoes_pin(
    current: SnapshotView,
    expected: u64,
    id: Seq<char>,
    anchor: Option<Seq<char>>,
)
    requires
        config_valid(current.config),
        current.revision < u64::MAX - 1,
        pin_outcome(current, expected, id, anchor) is Ok,
    ensures
        ({
            let pinned = pin_outcome(current, expected, id, anchor)->Ok_0;
            unpin_outcome(pinned, pinned.revision, id) == Ok::<SnapshotView, StoreErrorView>(
                SnapshotView {
                    revision: (current.revision + 2) as u64,
                    config: current.config.with_favorites(without(current.config.favorites, id)),
                },
            )
        }),
        !current.config.favorites.contains(id) ==> without(current.config.favorites, id)
            == current.config.favorites,
{
    let f = current.config.favorites;
    let rest = without(f, id);
    let pinned = pin_outcome(current, expected, id, anchor)->Ok_0;
    let p = pinned.config.favorites;
    let k = match anchor {
        Some(a) => first_position(rest, a),
        None => rest.len() as int,
    };
    if anchor is Some {
        let a = anchor->0;
        let q = choose|q: int| 0 <= q < rest.len() && rest[q] == a;
        let r = first_index_of(rest, a, q);
        lemma_first_position_unique(rest, a, r);
    } else {
        assert(rest.insert(rest.len() as int, id) =~= rest.push(id));
    }
    assert(p == rest.insert(k, id));
    lemma_without_inserted(rest, k, id);
    lemma_without_contains(f, id, id);
    lemma_without_absent(rest, id);
    rest.insert_ensures(k, id);
    assert(p.contains(id)) by {
        assert(p[k] == id);
    }
    lemma_reinserted_ok(f, id, None);
    assert(current.config.with_favorites(rest) == pinned.config.with_favorites(rest));
    if !f.contains(id) {
        lemma_without_absent(f, id);
    }
}

/// Moving a launcher reorders the favorites without adding or losing any.
pub proof fn lemma_move_is_permutation(
    current: SnapshotView,
    expected: u64,
    id: Seq<char>,
    anchor: Option<Seq<char>>,
)
    requires
        move_outcome(current, expected, id, anchor) is Ok,
    ensures
        move_outcome(current, expected, id, anchor)->Ok_0.config.favorites.to_multiset()
            == current.config.favorites.to_multiset(),
{
    let f = current.config.favorites;
    let i = choose|i: int| 0 <= i < f.len() && f[i] == id;
    let p = first_index_of(f, id, i);
    lemma_first_position_unique(f, id, p);
    let rest = f.remove(p);
    let k = match anchor {
        Some(a) => first_position(rest, a),
        None => rest.len() as int,
    };
    if anchor is Some {
        let a = anchor->0;
        let q = choose|q: int| 0 <= q < rest.len() && rest[q] == a;
        let r = first_index_of(rest, a, q);
        lemma_first_position_unique(rest, a, r);
    } else {
        assert(rest.insert(rest.len() as int, id) =~= rest.push(id));
    }
    lemma_insert_multiset(rest, k, id);
    assert(f.to_multiset().count(id) > 0);
    assert(f.to_multiset().remove(id).insert(id) =~= f.to_multiset());
}

/// Pinning places the launcher exactly once, immediately before its anchor (or last).
pub proof fn lemma_pin_places_launcher(
    current: SnapshotView,
    expected: u64,
    id: Seq<char>,
    anchor: Option<Seq<char>>,
)
    requires
        pin_outcome(current, expected, id, anchor) is Ok,
    ensures
        ({
            let f = pin_outcome(current, expected, id, anchor)->Ok_0.config.favorites;
            &&& exists|k: int|
                #![trigger f[k]]
                0 <= k < f.len() && f[k] == id && forall|j: int|
                    0 <= j < f.len() && j != k ==> f[j] != id
            &&& match anchor {
                None => f.last() == id,
                Some(a) => exists|k: int|
                    #![trigger f[k]]
                    0 <= k < f.len() - 1 && f[k] == id && f[k + 1] == a,
            }
        }),
{
    let rest = without(current.config.favorites, id);
    let f = pin_outcome(current, expected, id, anchor)->Ok_0.config.favorites;
    let k = match anchor {
        Some(a) => first_position(rest, a),
        None => rest.len() as int,
    };
    if anchor is Some {
        let a = anchor->0;
        let q = choose|q: int| 0 <= q < rest.len() && rest[q] == a;
        let r = first_index_of(rest, a, q);
        lemma_first_position_unique(rest, a, r);
    } else {
        assert(rest.insert(rest.len() as int, id) =~= rest.push(id));
    }
    rest.insert_ensures(k, id);
    lemma_without_contains(current.config.favorites, id, id);
    assert forall|j: int| 0 <= j < f.len() && j != k implies f[j] != id by {
        if j < k {
            assert(f[j] == rest[j]);
            assert(rest.contains(rest[j]));
        } else {
            assert(f[j] == rest[j - 1]);
            assert(rest.contains(rest[j - 1]));
        }
    }
    assert(f[k] == id);
    if anchor is Some {
        assert(f[k + 1] == rest[k]);
    }
}

/// What the store holds can be read back: a valid snapshot (as every stored one is)
/// loads as itself, with no rewrite needed.
pub proof fn lemma_stored_snapshot_reloads(snapshot: SnapshotView)
    requires
        config_valid(snapshot.config),
    ensures
        load_outcome(StoredDocumentView::Snapshot(snapshot)) == Ok::<
            (SnapshotView, bool),
            StoreErrorView,
        >((snapshot, false)),
{
}

/// A change a client asks of the store.
pub ghost enum StoreRequest {
    Replace { expected: u64, config: ConfigView },
    Pin { expected: u64, id: Seq<char>, anchor: Option<Seq<char>> },
    Unpin { expected: u64, id: Seq<char> },
    Move { expected: u64, id: Seq<char>, anchor: Option<Seq<char>> },
}

/// What `request` yields from `current`, as the store operation for it says.
pub open spec fn request_outcome(current: SnapshotView, request: StoreRequest) -> Result<
    SnapshotView,
    StoreErrorView,
> {
    match request {
        StoreRequest::Replace { expected, config } => replace_outcome(current, expected, config),
        StoreRequest::Pin { expected, id, anchor } => pin_outcome(current, expected, id, anchor),
        StoreRequest::Unpin { expected, id } => unpin_outcome(current, expected, id),
        StoreRequest::Move { expected, id, anchor } => move_outcome(current, expected, id, anchor),
    }
}

/// The snapshot after `requests`, made in order from `current`.
pub open spec fn after_requests(current: SnapshotView, requests: Seq<StoreRequest>) -> SnapshotView
    decreases requests.len(),
{
    if requests.len() == 0 {
        current
    } else {
        after_requests(after(current, request_outcome(current, requests[0])), requests.drop_first())
    }
}

/// How many of `requests`, made in order from `current`, were accepted.
pub open spec fn accepted_count(current: SnapshotView, requests: Seq<StoreRequest>) -> nat
    decreases requests.len(),
{
    if requests.len() == 0 {
        0
    } else {
        (if request_outcome(current, requests[0]) is Ok {
            1nat
        } else {
            0nat
        }) + accepted_count(after(current, request_outcome(current, requests[0])), requests.drop_first())
    }
}

/// Over any sequence of requests the revision rises by exactly one for each accepted
/// change and not at all for a refused one, and the configuration stays valid.
pub proof fn lemma_revision_counts_accepted_changes(
    current: SnapshotView,
    requests: Seq<StoreRequest>,
)
    requires
        config_valid(current.config),
        current.revision + requests.len() <= u64::MAX,
    ensures
        after_requests(current, requests).revision == current.revision + accepted_count(
            current,
            requests,
        ),
        config_valid(after_requests(current, requests).config),
        accepted_count(current, requests) <= requests.len(),
    decreases requests.len(),
{
    if requests.len() > 0 {
        let request = requests[0];
        match request {
            StoreRequest::Replace { expected, config } => {
                lemma_accepted_changes_advance_revision(current, expected, config, Seq::empty(), None);
            },
            StoreRequest::Pin { expected, id, anchor } => {
                lemma_accepted_changes_advance_revision(current, expected, current.config, id, anchor);
            },
            StoreRequest::Unpin { expected, id } => {
                lemma_accepted_changes_advance_revision(current, expected, current.config, id, None);
            },
            StoreRequest::Move { expected, id, anchor } => {
                lemma_accepted_changes_advance_revision(current, expected, current.config, id, anchor);
            },
        }
        let next = after(current, request_outcome(current, request));
        lemma_revision_counts_accepted_changes(next, requests.drop_first());
    }
}

/// The adapter registry after `reports` (each an adapter and the status it gave, by
/// registering or by an update), starting from `registry`: supported adapters are
/// recorded, others refused.
pub open spec fn registry_after(
    registry: Map<Seq<char>, AdapterStatusView>,
    reports: Seq<(Seq<char>, AdapterStatusView)>,
) -> Map<Seq<char>, AdapterStatusView>
    decreases reports.len(),
{
    if reports.len() == 0 {
        registry
    } else {
        let before = registry_after(registry, reports.drop_last());
        let (id, status) = reports.last();
        if supported_adapter(id) {
            before.insert(id, status)
        } else {
            before
        }
    }
}

/// The last status `reports` give for `id`.
pub open spec fn latest_status(reports: Seq<(Seq<char>, AdapterStatusView)>, id: Seq<char>) -> Option<
    AdapterStatusView,
>
    decreases reports.len(),
{
    if reports.len() == 0 {
        None
    } else if reports.last().0 == id {
        Some(reports.last().1)
    } else {
        latest_status(reports.drop_last(), id)
    }
}

/// Starting from the empty registry of a new service, the registry holds exactly the
/// supported adapters that reported, each with the latest status it gave.
pub proof fn lemma_registry_holds_latest_status(
    reports: Seq<(Seq<char>, AdapterStatusView)>,
    id: Seq<char>,
)
    ensures
        registry_after(Map::empty(), reports).contains_key(id) <==> (supported_adapter(id)
            && latest_status(reports, id) is Some),
        registry_after(Map::empty(), reports).contains_key(id) ==> registry_after(
            Map::empty(),
            reports,
        )[id] == latest_status(reports, id)->0,
    decreases reports.len(),
{
    if reports.len() > 0 {
        lemma_registry_holds_latest_status(reports.drop_last(), id);
    }
}

/// A lookup finds the first candidate, in search order, answered as a regular file, and
/// finds nothing exactly when every answered candidate was answered "no".
pub proof fn lemma_lookup_finds_first_existing(
    candidates: Seq<Seq<char>>,
    answers: Seq<bool>,
    k: int,
)
    requires
        answers.len() <= candidates.len(),
    ensures
        0 <= k < answers.len() && answers[k] && (forall|j: int| 0 <= j < k ==> !answers[j])
            ==> first_existing(candidates, answers) == Some(candidates[k]),
        first_existing(candidates, answers) is None <==> forall|j: int|
            0 <= j < answers.len() ==> !answers[j],
    decreases answers.len(),
{
    if answers.len() > 0 {
        lemma_lookup_finds_first_existing(candidates.drop_first(), answers.drop_first(), k - 1);
        if !answers[0] {
            assert forall|j: int| 0 <= j < answers.len() && (forall|i: int| 0 <= i < answers.drop_first().len() ==> !answers.drop_first()[i]) implies !answers[j] by {
                if j > 0 {
                    assert(answers[j] == answers.drop_first()[j - 1]);
                }
            }
            if first_existing(candidates, answers) is None {
                assert forall|i: int| 0 <= i < answers.drop_first().len() implies !answers.drop_first()[i] by {}
            }
            if 0 < k < answers.len() && answers[k] && (forall|j: int| 0 <= j < k ==> !answers[j]) {
                assert forall|j: int| 0 <= j < k - 1 implies !answers.drop_first()[j] by {
                    assert(answers.drop_first()[j] == answers[j + 1]);
                }
            }
        }
    }
}

/// The service pins a launcher only when the catalog reported that very launcher
/// installed, and pinning adds no launcher but that one.
pub proof fn lemma_only_reported_launchers_are_pinned(
    current: SnapshotView,
    installed: bool,
    expected: u64,
    id: Seq<char>,
    anchor: Option<Seq<char>>,
)
    ensures
        !installed ==> answered_pin_outcome(current, installed, expected, id, anchor) == Err::<
            SnapshotView,
            crate::service::ServiceErrorView,
        >(crate::service::ServiceErrorView::UnknownDesktopEntry(id)),
        answered_pin_outcome(current, installed, expected, id, anchor) matches Ok(next) ==> {
            &&& installed
            &&& next.config.favorites.contains(id)
            &&& forall|f: Seq<char>|
                #[trigger] next.config.favorites.contains(f) ==> f == id
                    || current.config.favorites.contains(f)
        },
{
    if installed && pin_outcome(current, expected, id, anchor) is Ok {
        let rest = without(current.config.favorites, id);
        let k = match anchor {
            Some(a) => first_position(rest, a),
            None => rest.len() as int,
        };
        if anchor is Some {
            let a = anchor->0;
            let q = choose|q: int| 0 <= q < rest.len() && rest[q] == a;
            let r = first_index_of(rest, a, q);
            lemma_first_position_unique(rest, a, r);
        } else {
            assert(rest.insert(rest.len() as int, id) =~= rest.push(id));
        }
        let next = pin_outcome(current, expected, id, anchor)->Ok_0;
        rest.insert_ensures(k, id);
        assert(next.config.favorites[k] == id);
        assert forall|f: Seq<char>| #[trigger] next.config.favorites.contains(f) implies f == id
            || current.config.favorites.contains(f) by {
            let i = choose|i: int| 0 <= i < next.config.favorites.len() && next.config.favorites[i] == f;
            if i != k {
                let r = if i < k { i } else { i - 1 };
                assert(next.config.favorites[i] == rest[r]);
                assert(rest.contains(f));
                lemma_without_contains(current.config.favorites, id, f);
            }
        }
    }
}

/// A replacement (or an import) goes through only when the catalog reported every one
/// of the new favorites installed.
pub proof fn lemma_replacement_needs_every_favorite_installed<C: AppCatalog>(
    catalog: C,
    current: SnapshotView,
    expected: u64,
    config: ConfigView,
    answers: Seq<bool>,
)
    requires
        config_valid(config) ==> catalog_answers(catalog, config.favorites, answers),
    ensures
        answered_replace_outcome(current, expected, config, answers) is Ok ==> {
            &&& answers.len() == config.favorites.len()
            &&& forall|j: int|
                0 <= j < config.favorites.len() ==> catalog_reported(
                    catalog,
                    #[trigger] config.favorites[j],
                    true,
                )
        },
{
    if answered_replace_outcome(current, expected, config, answers) is Ok {
        let f = config.favorites;
        lemma_no_missing_means_all_yes(f, answers);
        if answers.len() < f.len() {
            assert(!answers[answers.len() - 1]);
        }
        assert forall|j: int| 0 <= j < f.len() implies catalog_reported(catalog, #[trigger] f[j], true) by {
            assert(answers[j]);
        }
    }
}

/// When nothing is answered missing, every answer was "yes".
proof fn lemma_no_missing_means_all_yes(favorites: Seq<Seq<char>>, answers: Seq<bool>)
    requires
        answers.len() <= favorites.len(),
        first_missing(favorites, answers) is None,
    ensures
        forall|j: int| 0 <= j < answers.len() ==> answers[j],
    decreases answers.len(),
{
    if answers.len() > 0 {
        lemma_no_missing_means_all_yes(favorites.drop_first(), answers.drop_first());
        assert forall|j: int| 0 <= j < answers.len() implies answers[j] by {
            if j > 0 {
                assert(answers[j] == answers.drop_first()[j - 1]);
            }
        }
    }
}

/// Saving the settings window unchanged keeps the configuration: applying the form
/// that shows a valid configuration gives back every setting, each choice in the row it
/// is shown in; only the connector entries can be rewritten (trimmed, and the desktops'
/// own entries moved last), and a configuration without connector entries comes back
/// whole.
pub proof fn lemma_unchanged_form_keeps_configuration(form: SettingsForm, config: ConfigView)
    requires
        form_shows(form, config),
        config_valid(config),
    ensures
        form_applied(form, config) == (ConfigView {
            display: DisplayConfigView {
                connectors: form_applied(form, config).display.connectors,
                ..config.display
            },
            ..config
        }),
        config.display.connectors.len() == 0 ==> form_applied(form, config) == config,
{
    reveal_strlit("system");
    let applied = form_applied(form, config);
    match config.appearance.accent {
        AccentView::System => {
            assert(eq_ignore_ascii_case("system"@, "system"@));
        },
        AccentView::Custom(color) => {
            assert(color.len() == 7);
            assert(!eq_ignore_ascii_case(color, "system"@));
        },
    }
    assert(applied.geometry == config.geometry);
    assert(applied.behavior == config.behavior);
    assert(applied.appearance == config.appearance);
    if config.display.connectors.len() == 0 {
        let empty = Seq::<char>::empty();
        assert(trimmed(empty) =~= empty);
        assert(applied.display.connectors =~= config.display.connectors);
    }
}

/// Plasma's alignment of the dock panel: along a horizontal edge Start is Plasma's
/// "left" and End its "right"; along a vertical edge, which Plasma counts from the other
/// end, they swap. Start and End never give the same panel alignment.
pub proof fn lemma_panel_alignment_follows_the_edge(geometry: Geometry)
    ensures
        (geometry.edge == Edge::Top || geometry.edge == Edge::Bottom) ==> {
            &&& geometry.alignment == Alignment::Start ==> alignment_name(geometry) == "left"@
            &&& geometry.alignment == Alignment::End ==> alignment_name(geometry) == "right"@
        },
        (geometry.edge == Edge::Left || geometry.edge == Edge::Right) ==> {
            &&& geometry.alignment == Alignment::Start ==> alignment_name(geometry) == "right"@
            &&& geometry.alignment == Alignment::End ==> alignment_name(geometry) == "left"@
        },
        geometry.alignment == Alignment::Center ==> alignment_name(geometry) == "center"@,
        alignment_name(Geometry { alignment: Alignment::Start, ..geometry }) != alignment_name(
            Geometry { alignment: Alignment::End, ..geometry },
        ),
{
    reveal_strlit("left");
    reveal_strlit("right");
    assert("left"@.len() != "right"@.len());
}

/// The Plasma activation script places a Start-aligned dock at the left end of a top or
/// bottom edge and at Plasma's "right" end of a left or right edge, and an End-aligned
/// one the other way round.
pub proof fn lemma_activation_script_aligns_panel(geometry: Geometry, visibility: Visibility)
    ensures
        (geometry.edge == Edge::Top || geometry.edge == Edge::Bottom) ==> {
            &&& geometry.alignment == Alignment::Start ==> contains_text(
                activation_text(geometry, visibility),
                "panel.alignment = \"left\";"@,
            )
            &&& geometry.alignment == Alignment::End ==> contains_text(
                activation_text(geometry, visibility),
                "panel.alignment = \"right\";"@,
            )
        },
        (geometry.edge == Edge::Left || geometry.edge == Edge::Right) ==> {
            &&& geometry.alignment == Alignment::Start ==> contains_text(
                activation_text(geometry, visibility),
                "panel.alignment = \"right\";"@,
            )
            &&& geometry.alignment == Alignment::End ==> contains_text(
                activation_text(geometry, visibility),
                "panel.alignment = \"left\";"@,
            )
        },
        geometry.alignment == Alignment::Center ==> contains_text(
            activation_text(geometry, visibility),
            "panel.alignment = \"center\";"@,
        ),
{
    lemma_activation_sets_alignment(geometry, visibility);
    lemma_panel_alignment_follows_the_edge(geometry);
    reveal_strlit("panel.alignment = \"");
    reveal_strlit("\";");
    reveal_strlit("left");
    reveal_strlit("right");
    reveal_strlit("center");
    reveal_strlit("panel.alignment = \"left\";");
    reveal_strlit("panel.alignment = \"right\";");
    reveal_strlit("panel.alignment = \"center\";");
    assert("panel.alignment = \""@ + "left"@ + "\";"@ =~= "panel.alignment = \"left\";"@);
    assert("panel.alignment = \""@ + "right"@ + "\";"@ =~= "panel.alignment = \"right\";"@);
    assert("panel.alignment = \""@ + "center"@ + "\";"@ =~= "panel.alignment = \"center\";"@);
}

} // verus!
