//! What holds of the orchestrator across its operations, proved from the
//! contracts of the operations alone.

use crate::client::{
    connected_all, fresh, position_of, reconnected, routing_error, seeded, shut_down,
    status_snapshot, tracked_with, tracks, well_formed, BackendView, ClientErrorView, StatusView,
};
use crate::config::{enabled_of, ServerConfigView};
use vstd::prelude::*;

verus! {

/// No two configured backends share a name, as in any map keyed by name.
pub open spec fn distinct_names(servers: Seq<(Seq<char>, ServerConfigView)>) -> bool {
    forall|i: int, j: int|
        0 <= i < j < servers.len() ==> (#[trigger] servers[i]).0 != (#[trigger] servers[j]).0
}

/// Tracking backends of different names, with nothing tracked before,
/// tracks each of them once, in order.
proof fn lemma_seeded_from_nothing(servers: Seq<(Seq<char>, ServerConfigView)>)
    requires
        distinct_names(servers),
    ensures
        seeded(Seq::empty(), servers) == servers.map_values(
            |entry: (Seq<char>, ServerConfigView)| fresh(entry.0, entry.1),
        ),
    decreases servers.len(),
{
    let as_fresh = |entry: (Seq<char>, ServerConfigView)| fresh(entry.0, entry.1);
    if servers.len() == 0 {
        assert(seeded(Seq::empty(), servers) =~= servers.map_values(as_fresh));
    } else {
        let head = servers.drop_last();
        assert forall|i: int, j: int| 0 <= i < j < head.len() implies (#[trigger] head[i]).0 != (
        #[trigger] head[j]).0 by {
            assert(head[i] == servers[i] && head[j] == servers[j]);
        }
        lemma_seeded_from_nothing(head);
        let prior = seeded(Seq::empty(), head);
        let last = servers.last();
        assert(!tracks(prior, last.0)) by {
            if tracks(prior, last.0) {
                let k = position_of(prior, last.0);
                assert(prior[k].name == head[k].0);
                assert(head[k] == servers[k]);
                assert(servers[servers.len() - 1] == last);
            }
        }
        assert(seeded(Seq::empty(), servers) =~= servers.map_values(as_fresh));
    }
}

/// The enabled backends of a configuration are backends of it, none of them
/// disabled, and no two of them share a name where no two configured
/// backends do.
proof fn lemma_enabled_of(servers: Seq<(Seq<char>, ServerConfigView)>)
    requires
        distinct_names(servers),
    ensures
        distinct_names(enabled_of(servers)),
        forall|k: int|
            0 <= k < enabled_of(servers).len() ==> !(#[trigger] enabled_of(
                servers,
            )[k]).1.is_disabled() && servers.contains(enabled_of(servers)[k]),
    decreases servers.len(),
{
    let keep = |entry: (Seq<char>, ServerConfigView)| !entry.1.is_disabled();
    let enabled = enabled_of(servers);
    assert forall|k: int| 0 <= k < enabled.len() implies !(#[trigger] enabled[k]).1.is_disabled()
        && servers.contains(enabled[k]) by {
        servers.lemma_filter_pred(keep, k);
        assert(enabled.contains(enabled[k]));
        servers.lemma_filter_contains_rev(keep, enabled[k]);
    }
    if servers.len() == 0 {
        servers.lemma_filter_len(keep);
    } else {
        let head = servers.drop_last();
        let last = servers.last();
        assert(servers =~= head.push(last));
        assert forall|i: int, j: int| 0 <= i < j < head.len() implies (#[trigger] head[i]).0 != (
        #[trigger] head[j]).0 by {
            assert(head[i] == servers[i] && head[j] == servers[j]);
        }
        lemma_enabled_of(head);
        head.lemma_filter_push(last, keep);
        let prior = enabled_of(head);
        assert forall|i: int, j: int| 0 <= i < j < enabled.len() implies (#[trigger] enabled[i]).0
            != (#[trigger] enabled[j]).0 by {
            if j == prior.len() {
                assert(enabled[j] == last);
                assert(enabled[i] == prior[i]);
                assert(head.contains(prior[i]));
                let m = choose|m: int| 0 <= m < head.len() && head[m] == prior[i];
                assert(servers[m] == head[m]);
                assert(servers[servers.len() - 1] == last);
            } else {
                assert(enabled[i] == prior[i] && enabled[j] == prior[j]);
            }
        }
    }
}

/// Initializing an orchestrator that tracks nothing yet leaves it tracking
/// exactly the enabled backends of its configuration, in configured order,
/// each of them settled. A disabled backend is not tracked.
pub proof fn law_initialize_tracks_enabled(
    servers: Seq<(Seq<char>, ServerConfigView)>,
    after: Seq<BackendView>,
)
    requires
        distinct_names(servers),
        connected_all(seeded(Seq::empty(), enabled_of(servers)), after),
    ensures
        after.len() == enabled_of(servers).len(),
        forall|i: int|
            0 <= i < after.len() ==> (#[trigger] after[i]).name == enabled_of(servers)[i].0
                && after[i].config == enabled_of(servers)[i].1 && !after[i].config.is_disabled(),
        forall|j: int|
            0 <= j < servers.len() && (#[trigger] servers[j]).1.is_disabled() ==> !tracks(
                after,
                servers[j].0,
            ),
{
    let enabled = enabled_of(servers);
    lemma_enabled_of(servers);
    lemma_seeded_from_nothing(enabled);
    let seeds = seeded(Seq::empty(), enabled);
    assert forall|i: int| 0 <= i < after.len() implies (#[trigger] after[i]).name == enabled[i].0
        && after[i].config == enabled[i].1 && !after[i].config.is_disabled() by {
        assert(seeds[i] == fresh(enabled[i].0, enabled[i].1));
    }
    assert forall|j: int| 0 <= j < servers.len() && (#[trigger] servers[j]).1.is_disabled()
        implies !tracks(after, servers[j].0) by {
        if tracks(after, servers[j].0) {
            let k = position_of(after, servers[j].0);
            assert(after[k].name == enabled[k].0);
            assert(servers.contains(enabled[k]));
            let m = choose|m: int| 0 <= m < servers.len() && servers[m] == enabled[k];
            assert(!servers[m].1.is_disabled());
            assert(m != j);
            if m < j {
                assert(servers[m].0 != servers[j].0);
            } else {
                assert(servers[j].0 != servers[m].0);
            }
        }
    }
}

/// Once connecting has returned, no backend is disconnected or still
/// connecting, provided none was connecting before: each of them is
/// connected or has failed, and there are as many as before.
pub proof fn law_connect_all_settles(before: Seq<BackendView>, after: Seq<BackendView>)
    requires
        connected_all(before, after),
        forall|i: int| 0 <= i < before.len() ==> !((#[trigger] before[i]).status is Connecting),
    ensures
        after.len() == before.len(),
        forall|i: int|
            0 <= i < after.len() ==> (#[trigger] after[i]).status is Connected
                || after[i].status is Failed,
{
    assert forall|i: int| 0 <= i < after.len() implies (#[trigger] after[i]).status is Connected
        || after[i].status is Failed by {
        assert(!(before[i].status is Connecting));
    }
}

/// A request that names a backend which is not tracked is refused with
/// `NotFound`, whatever the tracked backends are and whatever their
/// statuses.
pub proof fn law_unknown_backend_not_found(backends: Seq<BackendView>, name: Seq<char>)
    requires
        !tracks(backends, name),
    ensures
        routing_error(backends, name) == Some(ClientErrorView::NotFound(name)),
{
}

/// A request that names a tracked backend which has failed or is
/// disconnected is refused with `NotConnected`.
pub proof fn law_unconnected_backend_not_connected(backends: Seq<BackendView>, i: int)
    requires
        well_formed(backends),
        0 <= i < backends.len(),
        backends[i].status is Failed || backends[i].status is Disconnected,
    ensures
        routing_error(backends, backends[i].name) == Some(
            ClientErrorView::NotConnected(backends[i].name),
        ),
{
    let name = backends[i].name;
    assert(tracks(backends, name));
    let k = position_of(backends, name);
    assert(k == i) by {
        if k < i {
            assert(backends[k].name != backends[i].name);
        } else if i < k {
            assert(backends[i].name != backends[k].name);
        }
    }
}

/// Reconnecting a connected backend whose new session cannot be acquired
/// leaves it failed, with the very reason that the call returns, and
/// without a session: the one it had is gone.
pub proof fn law_failed_reconnect_detaches(
    before: Seq<BackendView>,
    after: Seq<BackendView>,
    i: int,
    failure: ClientErrorView,
)
    requires
        well_formed(before),
        0 <= i < before.len(),
        before[i].status is Connected,
        reconnected(before, after, before[i].name, Some(failure)),
    ensures
        after.len() == before.len(),
        !after[i].attached,
        after[i].status == StatusView::Failed(failure.message()),
        failure is Acquisition,
{
    let name = before[i].name;
    assert(tracks(before, name));
    let k = position_of(before, name);
    assert(k == i) by {
        if k < i {
            assert(before[k].name != before[i].name);
        } else if i < k {
            assert(before[i].name != before[k].name);
        }
    }
}

/// After a shutdown the status of every tracked backend reads
/// `Disconnected`, whatever it was before, and the same backends are listed
/// in the same order.
pub proof fn law_shutdown_disconnects_all(before: Seq<BackendView>, after: Seq<BackendView>)
    requires
        shut_down(before, after),
    ensures
        status_snapshot(after).len() == before.len(),
        forall|i: int|
            0 <= i < before.len() ==> #[trigger] status_snapshot(after)[i] == (
                before[i].name,
                StatusView::Disconnected,
            ),
{
    assert forall|i: int| 0 <= i < before.len() implies #[trigger] status_snapshot(after)[i] == (
        before[i].name,
        StatusView::Disconnected,
    ) by {
        assert(after[i].name == before[i].name);
        assert(after[i].status is Disconnected);
    }
}


/// Shutting down twice is shutting down once: the second time changes
/// nothing.
pub proof fn law_shutdown_is_idempotent(
    before: Seq<BackendView>,
    once: Seq<BackendView>,
    twice: Seq<BackendView>,
)
    requires
        shut_down(before, once),
        shut_down(once, twice),
    ensures
        twice == once,
{
    assert forall|i: int| 0 <= i < once.len() implies twice[i] == once[i] by {
        assert(twice[i].name == once[i].name && twice[i].config == once[i].config);
        assert(once[i].status is Disconnected && twice[i].status is Disconnected);
    }
    assert(twice =~= once);
}

/// Tracking more backends drops none of those tracked before.
pub proof fn law_seeding_keeps_tracked(
    backends: Seq<BackendView>,
    servers: Seq<(Seq<char>, ServerConfigView)>,
    name: Seq<char>,
)
    requires
        tracks(backends, name),
    ensures
        tracks(seeded(backends, servers), name),
        seeded(backends, servers).len() >= backends.len(),
    decreases servers.len(),
{
    if servers.len() > 0 {
        law_seeding_keeps_tracked(backends, servers.drop_last(), name);
        let prior = seeded(backends, servers.drop_last());
        let last = servers.last();
        let after = tracked_with(prior, last.0, last.1);
        let k = position_of(prior, name);
        if tracks(prior, last.0) {
            let at = position_of(prior, last.0);
            if at == k {
                assert(after[k].name == name);
            } else {
                assert(after[k] == prior[k]);
            }
        } else {
            assert(after[k] == prior[k]);
        }
        assert(after[k].name == name);
    }
}

/// Connecting, reconnecting and shutting down drop no backend and add
/// none: the same names stand in the same order.
pub proof fn law_backends_persist(
    before: Seq<BackendView>,
    after: Seq<BackendView>,
    name: Seq<char>,
    failure: Option<ClientErrorView>,
)
    requires
        connected_all(before, after) || shut_down(before, after) || reconnected(
            before,
            after,
            name,
            failure,
        ),
    ensures
        after.len() == before.len(),
        forall|i: int| 0 <= i < before.len() ==> (#[trigger] after[i]).name == before[i].name,
{
    assert forall|i: int| 0 <= i < before.len() implies (#[trigger] after[i]).name
        == before[i].name by {
        if connected_all(before, after) {
            assert(crate::client::settled_from(before[i], after[i]));
        }
    }
}

} // verus!
