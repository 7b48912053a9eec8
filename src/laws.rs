//! Properties of the whole: what a subscriber receives, how pages of changes
//! close, what the migration log returns, and what the permission model
//! grants at its extremes.
use crate::changes_iter::{last_version, takes, total_size, CHANGE_BUFFER_SIZE};
use crate::database::may_apply;
use crate::migrate::{later, Migration};
use crate::permissions::DatabasePermissions;
use crate::stream::{forwards, in_commit_order, next_cutoff, sent};
use crate::value::Changeset;
use vstd::prelude::*;

verus! {

/// A live change follows every change of the catch-up: the catch-up read up
/// to `last`, and live changes start after it.
pub proof fn lemma_live_after_catch_up(
    permissions: DatabasePermissions,
    site_id: Seq<u8>,
    last: i64,
    caught_up: Changeset,
    live: Changeset,
)
    requires
        caught_up.spec_db_version() <= last,
        forwards(permissions, site_id, last + 1, live),
    ensures
        live.spec_db_version() > caught_up.spec_db_version(),
{
}

/// Two streams at the same cutoff whose permissions agree on every table
/// send the same changes of sites other than their own.
pub proof fn lemma_agreeing_permissions(
    a: DatabasePermissions,
    b: DatabasePermissions,
    site_a: Seq<u8>,
    site_b: Seq<u8>,
    cutoff: int,
    cs: Changeset,
)
    requires
        forall|t: Seq<char>| a.can_read_table(t) == b.can_read_table(t),
        cs.spec_site_id() != site_a,
        cs.spec_site_id() != site_b,
    ensures
        forwards(a, site_a, cutoff, cs) == forwards(b, site_b, cutoff, cs),
{
    assert(a.can_read_table(cs.spec_table()) == b.can_read_table(cs.spec_table()));
}

/// A stream never sends a change back to the site it came from.
pub proof fn lemma_no_echo(
    permissions: DatabasePermissions,
    site_id: Seq<u8>,
    cutoff: int,
    changes: Seq<Changeset>,
)
    ensures
        forall|k: int|
            0 <= k < sent(permissions, site_id, cutoff, changes).len() ==> (#[trigger] sent(
                permissions,
                site_id,
                cutoff,
                changes,
            )[k]).spec_site_id() != site_id,
{
    lemma_sent_in_order(permissions, site_id, cutoff, changes);
}

/// Every change a stream sends passes the stream's first cutoff, carries a
/// version not below it, and comes from another site; the versions sent
/// never decrease.
pub proof fn lemma_sent_in_order(
    permissions: DatabasePermissions,
    site_id: Seq<u8>,
    cutoff: int,
    changes: Seq<Changeset>,
)
    ensures
        forall|k: int|
            0 <= k < sent(permissions, site_id, cutoff, changes).len() ==> forwards(
                permissions,
                site_id,
                cutoff,
                #[trigger] sent(permissions, site_id, cutoff, changes)[k],
            ),
        in_commit_order(sent(permissions, site_id, cutoff, changes)),
    decreases changes.len(),
{
    if changes.len() > 0 {
        let next = next_cutoff(permissions, site_id, cutoff, changes[0]);
        let rest = sent(permissions, site_id, next, changes.drop_first());
        lemma_sent_in_order(permissions, site_id, next, changes.drop_first());
        let all = sent(permissions, site_id, cutoff, changes);
        if forwards(permissions, site_id, cutoff, changes[0]) {
            assert(all == seq![changes[0]] + rest);
            assert forall|k: int| 0 <= k < all.len() implies forwards(
                permissions,
                site_id,
                cutoff,
                #[trigger] all[k],
            ) by {
                if k > 0 {
                    assert(all[k] == rest[k - 1]);
                    assert(forwards(permissions, site_id, next, rest[k - 1]));
                }
            }
            assert forall|i: int, j: int| 0 <= i <= j < all.len() implies all[i].spec_db_version()
                <= all[j].spec_db_version() by {
                if i == 0 && j > 0 {
                    assert(all[j] == rest[j - 1]);
                    assert(forwards(permissions, site_id, next, rest[j - 1]));
                } else if i > 0 {
                    assert(all[i] == rest[i - 1]);
                    assert(all[j] == rest[j - 1]);
                }
            }
        } else {
            assert(all == rest);
        }
    }
}

/// Streams whose permissions agree on every table, at the same site and
/// cutoff, send the same changes for the same changes reaching them.
pub proof fn lemma_sent_agree(
    a: DatabasePermissions,
    b: DatabasePermissions,
    site_id: Seq<u8>,
    cutoff: int,
    changes: Seq<Changeset>,
)
    requires
        forall|t: Seq<char>| #[trigger] a.can_read_table(t) == b.can_read_table(t),
    ensures
        sent(a, site_id, cutoff, changes) == sent(b, site_id, cutoff, changes),
    decreases changes.len(),
{
    if changes.len() > 0 {
        assert(a.can_read_table(changes[0].spec_table()) == b.can_read_table(changes[0].spec_table()));
        lemma_sent_agree(
            a,
            b,
            site_id,
            next_cutoff(a, site_id, cutoff, changes[0]),
            changes.drop_first(),
        );
    }
}

/// Where the changes reach a stream in commit order, each change that
/// passes the stream's first cutoff is sent.
pub proof fn lemma_sent_complete(
    permissions: DatabasePermissions,
    site_id: Seq<u8>,
    cutoff: int,
    changes: Seq<Changeset>,
    i: int,
)
    requires
        in_commit_order(changes),
        0 <= i < changes.len(),
        forwards(permissions, site_id, cutoff, changes[i]),
    ensures
        sent(permissions, site_id, cutoff, changes).contains(changes[i]),
    decreases changes.len(),
{
    let all = sent(permissions, site_id, cutoff, changes);
    let next = next_cutoff(permissions, site_id, cutoff, changes[0]);
    let rest = sent(permissions, site_id, next, changes.drop_first());
    if i == 0 {
        assert(all[0] == changes[0]);
    } else {
        assert(changes.drop_first()[i - 1] == changes[i]);
        assert(changes[0].spec_db_version() <= changes[i].spec_db_version());
        assert(forwards(permissions, site_id, next, changes.drop_first()[i - 1]));
        lemma_sent_complete(permissions, site_id, next, changes.drop_first(), i - 1);
        let k = choose|k: int| 0 <= k < rest.len() && rest[k] == changes[i];
        if forwards(permissions, site_id, cutoff, changes[0]) {
            assert(all[k + 1] == rest[k]);
        } else {
            assert(all == rest);
        }
    }
}

/// A stream opened at baseline `baseline` for site `site_id`, reached by
/// changes in commit order, sends a change of another site exactly when the
/// caller may read its table and its version is above the baseline.
pub proof fn lemma_delivered_exactly(
    permissions: DatabasePermissions,
    site_id: Seq<u8>,
    baseline: i64,
    changes: Seq<Changeset>,
    cs: Changeset,
)
    requires
        in_commit_order(changes),
        changes.contains(cs),
        cs.spec_site_id() != site_id,
    ensures
        sent(permissions, site_id, baseline + 1, changes).contains(cs) <==> (
        permissions.can_read_table(cs.spec_table()) && cs.spec_db_version() > baseline),
{
    let all = sent(permissions, site_id, baseline + 1, changes);
    lemma_sent_in_order(permissions, site_id, baseline + 1, changes);
    if all.contains(cs) {
        let k = choose|k: int| 0 <= k < all.len() && all[k] == cs;
        assert(forwards(permissions, site_id, baseline + 1, all[k]));
    }
    if permissions.can_read_table(cs.spec_table()) && cs.spec_db_version() > baseline {
        let i = choose|i: int| 0 <= i < changes.len() && changes[i] == cs;
        lemma_sent_complete(permissions, site_id, baseline + 1, changes, i);
    }
}

/// What the catch-up query of a stream selects: a row past the baseline,
/// of a table the caller may read, from another site.
pub open spec fn selected(
    permissions: DatabasePermissions,
    site_id: Seq<u8>,
    baseline: i64,
    cs: Changeset,
) -> bool {
    &&& permissions.can_read_table(cs.spec_table())
    &&& cs.spec_db_version() > baseline
    &&& cs.spec_site_id() != site_id
}

/// The changes a whole stream sends: the catch-up rows, then what the live
/// phase sends from the version after the last catch-up row on.
pub open spec fn stream_output(
    permissions: DatabasePermissions,
    site_id: Seq<u8>,
    baseline: i64,
    catch_up: Seq<Changeset>,
    live: Seq<Changeset>,
) -> Seq<Changeset> {
    catch_up + sent(permissions, site_id, last_version(catch_up, baseline) + 1, live)
}

/// Over a whole stream, catch-up and live phase together, every change sent
/// is of a table the caller may read, above the baseline and from another
/// site, and the versions sent never decrease; the catch-up rows are what
/// its query selects, in commit order.
pub proof fn lemma_whole_stream(
    permissions: DatabasePermissions,
    site_id: Seq<u8>,
    baseline: i64,
    catch_up: Seq<Changeset>,
    live: Seq<Changeset>,
)
    requires
        in_commit_order(catch_up),
        forall|k: int|
            0 <= k < catch_up.len() ==> selected(permissions, site_id, baseline, #[trigger] catch_up[k]),
    ensures
        in_commit_order(stream_output(permissions, site_id, baseline, catch_up, live)),
        forall|k: int|
            0 <= k < stream_output(permissions, site_id, baseline, catch_up, live).len() ==> selected(
                permissions,
                site_id,
                baseline,
                #[trigger] stream_output(permissions, site_id, baseline, catch_up, live)[k],
            ),
{
    let last = last_version(catch_up, baseline);
    let tail = sent(permissions, site_id, last + 1, live);
    let out = stream_output(permissions, site_id, baseline, catch_up, live);
    lemma_sent_in_order(permissions, site_id, last + 1, live);
    assert(last >= baseline) by {
        if catch_up.len() > 0 {
            assert(selected(permissions, site_id, baseline, catch_up[catch_up.len() - 1]));
        }
    }
    assert forall|k: int| 0 <= k < out.len() implies selected(
        permissions,
        site_id,
        baseline,
        #[trigger] out[k],
    ) by {
        if k >= catch_up.len() {
            assert(out[k] == tail[k - catch_up.len()]);
            assert(forwards(permissions, site_id, last + 1, tail[k - catch_up.len()]));
        } else {
            assert(out[k] == catch_up[k]);
        }
    }
    assert forall|i: int, j: int| 0 <= i <= j < out.len() implies out[i].spec_db_version()
        <= out[j].spec_db_version() by {
        if j < catch_up.len() {
            assert(out[i] == catch_up[i]);
            assert(out[j] == catch_up[j]);
        } else if i >= catch_up.len() {
            assert(out[i] == tail[i - catch_up.len()]);
            assert(out[j] == tail[j - catch_up.len()]);
        } else {
            assert(out[i] == catch_up[i]);
            assert(out[j] == tail[j - catch_up.len()]);
            assert(forwards(permissions, site_id, last + 1, tail[j - catch_up.len()]));
            assert(catch_up[i].spec_db_version() <= catch_up[catch_up.len() - 1].spec_db_version());
        }
    }
}

/// Two whole streams at the same site and baseline, whose permissions agree
/// on every table and whose catch-up queries returned the same rows, send
/// the same changes for the same live changes.
pub proof fn lemma_whole_streams_agree(
    a: DatabasePermissions,
    b: DatabasePermissions,
    site_id: Seq<u8>,
    baseline: i64,
    catch_up: Seq<Changeset>,
    live: Seq<Changeset>,
)
    requires
        forall|t: Seq<char>| #[trigger] a.can_read_table(t) == b.can_read_table(t),
    ensures
        stream_output(a, site_id, baseline, catch_up, live) == stream_output(
            b,
            site_id,
            baseline,
            catch_up,
            live,
        ),
{
    lemma_sent_agree(a, b, site_id, last_version(catch_up, baseline) + 1, live);
}

/// With full access every row of a change log may be applied, so the rows
/// read from one database can all be applied to another.
pub proof fn lemma_full_access_applies_all(changes: Seq<Changeset>)
    ensures
        forall|i: int|
            0 <= i < changes.len() ==> may_apply(DatabasePermissions::Full, #[trigger] changes[i]),
{
}

/// The migrations past a version are none exactly when no migration of the
/// log has a higher version.
pub proof fn lemma_migrations_empty(log: Seq<Migration>, since: i64)
    ensures
        later(log, since).len() == 0 <==> !exists|i: int|
            0 <= i < log.len() && (#[trigger] log[i]).version > since,
    decreases log.len(),
{
    if log.len() > 0 {
        lemma_migrations_empty(log.drop_last(), since);
        if later(log, since).len() == 0 {
            assert forall|i: int| 0 <= i < log.len() implies !((#[trigger] log[i]).version > since) by {
                if i < log.len() - 1 {
                    assert(log.drop_last()[i] == log[i]);
                }
            }
        } else if later(log.drop_last(), since).len() != 0 {
            let i = choose|i: int|
                0 <= i < log.drop_last().len() && (#[trigger] log.drop_last()[i]).version > since;
            assert(log[i] == log.drop_last()[i]);
        } else {
            assert(log[log.len() - 1].version > since);
        }
    }
}

/// A page over budget whose next row starts a later commit is closed, and
/// that row opens the next page, which reads past the last version taken.
pub proof fn lemma_page_closes_at_commit_boundary(
    rows: Seq<Changeset>,
    cursor: i64,
    next: Changeset,
)
    requires
        total_size(rows) > CHANGE_BUFFER_SIZE,
        next.spec_db_version() > last_version(rows, cursor),
    ensures
        !takes(rows, cursor, next),
        takes(Seq::empty(), last_version(rows, cursor), next),
{
}

/// A page never closes before a row of the commit it is in.
pub proof fn lemma_commit_not_split(rows: Seq<Changeset>, cursor: i64, next: Changeset)
    requires
        rows.len() > 0,
        next.spec_db_version() == rows.last().spec_db_version(),
    ensures
        takes(rows, cursor, next),
{
}

/// Full access grants every table everything; the empty permissions grant
/// nothing.
pub proof fn lemma_permission_extremes(p: DatabasePermissions, t: Seq<char>)
    ensures
        p is Full ==> p.can_read_table(t) && p.can_insert_table(t) && p.can_update_table(t)
            && p.can_delete_table(t) && p.has_full_table(t),
        p.no_rights() ==> !p.can_read_table(t) && !p.can_insert_table(t) && !p.can_update_table(t)
            && !p.can_delete_table(t) && !p.has_full_table(t),
{
}

} // verus!
