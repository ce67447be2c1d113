use vstd::prelude::*;

use crate::error::PortError;
use crate::event::{PortEvent, Timestruct, PORT_ALERT_UPDATE, PORT_SOURCE_ALERT, PORT_SOURCE_USER};
use crate::model::{
    alert_pos, alerts_unique, has_alert, is_alert, mask_allowed, registrable, timeout_is_valid,
    PortsModel,
};

verus! {

/// Associating a key and then dissociating it leaves the table without that key
/// (and otherwise as it was); a second dissociation fails with `NotFound`.
pub proof fn associate_then_dissociate(
    s: PortsModel,
    h: i32,
    source: i32,
    object: usize,
    mask: i32,
    user: usize,
)
    requires
        s.wf(),
        s.valid_handle(h),
        registrable(source),
        mask_allowed(source, mask),
    ensures
        ({
            let (s1, r1) = s.associate_next(h, source, object, mask, user);
            let (s2, r2) = s1.dissociate_next(h, source, object);
            let (s3, r3) = s2.dissociate_next(h, source, object);
            &&& r1 is Ok ==> r2 is Ok
            &&& !s2.port(h).table.contains_key((source, object))
            &&& s2.port(h).table == s.port(h).table.remove((source, object))
            &&& r3 == Err::<(), PortError>(PortError::NotFound)
        }),
{
    let k = (source, object);
    let (s1, r1) = s.associate_next(h, source, object, mask, user);
    let (s2, r2) = s1.dissociate_next(h, source, object);
    if r1 is Ok {
        assert(s1.port(h).table == s.port(h).table.insert(k, (mask, user)));
        assert(s2.port(h).table =~= s.port(h).table.remove(k));
    } else {
        assert(s2.port(h).table =~= s.port(h).table.remove(k));
    }
}

/// Associating a key again replaces its mask and payload rather than merging
/// them, and a later delivery reflects only the new mask and payload.
pub proof fn reassociate_replaces(
    s: PortsModel,
    h: i32,
    source: i32,
    object: usize,
    mask1: i32,
    user1: usize,
    mask2: i32,
    user2: usize,
    fired: i32,
)
    requires
        s.wf(),
        s.valid_handle(h),
        registrable(source),
        mask_allowed(source, mask1),
        mask_allowed(source, mask2),
    ensures
        ({
            let (s1, r1) = s.associate_next(h, source, object, mask1, user1);
            let (s2, r2) = s1.associate_next(h, source, object, mask2, user2);
            let (s3, r3) = s2.deliver_next(h, source, object, fired);
            r1 is Ok ==> {
                &&& r2 is Ok
                &&& s2.port(h).table == s.port(h).table.insert((source, object), (mask2, user2))
                &&& fired & mask2 == 0 ==> r3 == Ok::<bool, PortError>(false) && s3 == s2
                &&& fired & mask2 != 0 && s.port(h).queue.len() < s.capacity ==> {
                    &&& r3 == Ok::<bool, PortError>(true)
                    &&& s3.port(h).queue == s.port(h).queue.push(
                        PortEvent {
                            portev_events: fired & mask2,
                            portev_source: source as u16,
                            portev_object: object,
                            portev_user: user2,
                        },
                    )
                }
            }
        }),
{
    let k = (source, object);
    let (s1, r1) = s.associate_next(h, source, object, mask1, user1);
    if r1 is Ok {
        assert(s1.port(h).table.contains_key(k));
        assert(s.port(h).table.insert(k, (mask1, user1)).insert(k, (mask2, user2)) =~= s.port(
            h,
        ).table.insert(k, (mask2, user2)));
    }
}

/// A zero timeout never waits: on an empty queue `get` fails with `TimedOut` and
/// takes nothing; with a record queued it returns the oldest one at once.
pub proof fn zero_timeout_get(s: PortsModel, h: i32, t: Timestruct)
    requires
        s.wf(),
        s.valid_handle(h),
        t.spec_is_zero(),
    ensures
        ({
            let (s1, r) = s.get_next(h, Some(t));
            &&& s.port(h).queue.len() == 0 ==> r == Err::<Option<PortEvent>, PortError>(
                PortError::TimedOut,
            ) && s1 == s
            &&& s.port(h).queue.len() > 0 ==> r == Ok::<Option<PortEvent>, PortError>(
                Some(s.port(h).queue[0]),
            ) && s1.port(h).queue == s.port(h).queue.drop_first()
        }),
{
}

/// With no timeout and nothing queued, `get` asks the caller to wait and changes
/// nothing. A `send` or an `alert` then makes the next `get` return that record;
/// a `close` makes it fail with `BadHandle` instead of waiting again.
pub proof fn waiting_get_wakes(s: PortsModel, h: i32, events: i32, user: usize)
    requires
        s.wf(),
        s.valid_handle(h),
        s.port(h).queue.len() == 0,
        s.capacity > 0,
    ensures
        ({
            let (s1, r1) = s.get_next(h, None);
            &&& r1 == Ok::<Option<PortEvent>, PortError>(None) && s1 == s
            &&& s1.send_next(h, events, user).0.get_next(h, None).1 == Ok::<
                Option<PortEvent>,
                PortError,
            >(
                Some(
                    PortEvent {
                        portev_events: events,
                        portev_source: PORT_SOURCE_USER as u16,
                        portev_object: 0,
                        portev_user: user,
                    },
                ),
            )
            &&& s1.alert_next(h, PORT_ALERT_UPDATE, events, user).0.get_next(h, None).1 == Ok::<
                Option<PortEvent>,
                PortError,
            >(
                Some(
                    PortEvent {
                        portev_events: events,
                        portev_source: PORT_SOURCE_ALERT as u16,
                        portev_object: 0,
                        portev_user: user,
                    },
                ),
            )
            &&& s1.close_next(h).0.get_next(h, None).1 == Err::<Option<PortEvent>, PortError>(
                PortError::BadHandle,
            )
        }),
{
    assert(!has_alert(s.port(h).queue));
}

/// Two "update" alerts before any retrieval leave one alert record, not two, and
/// its events are the union of both calls' events.
pub proof fn update_alerts_merge(s: PortsModel, h: i32, events1: i32, user1: usize, events2: i32, user2: usize)
    requires
        s.wf(),
        s.valid_handle(h),
        !has_alert(s.port(h).queue),
        s.port(h).queue.len() < s.capacity,
    ensures
        ({
            let (s1, r1) = s.alert_next(h, PORT_ALERT_UPDATE, events1, user1);
            let (s2, r2) = s1.alert_next(h, PORT_ALERT_UPDATE, events2, user2);
            let q = s2.port(h).queue;
            &&& r1 is Ok && r2 is Ok
            &&& q.len() == s.port(h).queue.len() + 1
            &&& exists|i: int|
                0 <= i < q.len() && is_alert(q[i]) && q[i].portev_events == events1 | events2
                    && forall|j: int| 0 <= j < q.len() && is_alert(#[trigger] q[j]) ==> j == i
        }),
{
    let q0 = s.port(h).queue;
    let (s1, r1) = s.alert_next(h, PORT_ALERT_UPDATE, events1, user1);
    let q1 = s1.port(h).queue;
    let n = q0.len() as int;
    assert(q1[n] == s1.port(h).queue[n]);
    assert(is_alert(q1[n]));
    assert(alerts_unique(q1)) by {
        assert forall|a: int, b: int|
            0 <= a < q1.len() && 0 <= b < q1.len() && is_alert(q1[a]) && is_alert(q1[b]) implies a
            == b by {
            if a < n {
                assert(q1[a] == q0[a]);
            }
            if b < n {
                assert(q1[b] == q0[b]);
            }
        }
    }
    assert(has_alert(q1));
    assert(alert_pos(q1) == n);
    let (s2, r2) = s1.alert_next(h, PORT_ALERT_UPDATE, events2, user2);
    let q = s2.port(h).queue;
    assert forall|j: int| 0 <= j < q.len() && is_alert(#[trigger] q[j]) implies j == n by {
        if j != n {
            assert(q[j] == q1[j]);
        }
    }
    assert(is_alert(q[n]) && q[n].portev_events == events1 | events2);
}

/// What `send_many` leaves unchanged: the number of ports, which are open, and
/// every port that it does not target.
pub proof fn send_many_frame(s: PortsModel, hs: Seq<i32>, events: i32, user: usize, g: i32)
    ensures
        ({
            let s1 = s.send_many_next(hs, events, user).0;
            &&& s1.ports.len() == s.ports.len()
            &&& s1.capacity == s.capacity
            &&& 0 <= g < s.ports.len() ==> s1.port(g).open == s.port(g).open
            &&& 0 <= g < s.ports.len() && (forall|i: int| 0 <= i < hs.len() ==> hs[i] != g) ==> s1.port(g)
                == s.port(g)
        }),
    decreases hs.len(),
{
    if hs.len() > 0 {
        send_many_frame(s, hs.drop_last(), events, user, g);
        if forall|i: int| 0 <= i < hs.len() ==> hs[i] != g {
            assert forall|i: int| 0 <= i < hs.drop_last().len() implies hs.drop_last()[i] != g by {
                assert(hs.drop_last()[i] == hs[i]);
            }
        }
    }
}

/// `send_many` to distinct handles reports each one on its own: success for every
/// open port with room in its queue, `BadHandle` for every other handle, and a
/// failure never stops the sends that follow it.
pub proof fn send_many_reports_each(s: PortsModel, hs: Seq<i32>, events: i32, user: usize)
    requires
        forall|i: int, j: int| 0 <= i < j < hs.len() ==> hs[i] != hs[j],
        forall|i: int|
            0 <= i < hs.len() && s.valid_handle(#[trigger] hs[i]) ==> s.port(hs[i]).queue.len()
                < s.capacity,
    ensures
        ({
            let rs = s.send_many_next(hs, events, user).1;
            &&& rs.len() == hs.len()
            &&& forall|i: int|
                0 <= i < hs.len() ==> #[trigger] rs[i] == (if s.valid_handle(hs[i]) {
                    Ok::<(), PortError>(())
                } else {
                    Err::<(), PortError>(PortError::BadHandle)
                })
        }),
    decreases hs.len(),
{
    if hs.len() > 0 {
        let hp = hs.drop_last();
        let g = hs.last();
        assert forall|i: int|
            0 <= i < hp.len() && s.valid_handle(#[trigger] hp[i]) implies s.port(hp[i]).queue.len()
            < s.capacity by {
            assert(hp[i] == hs[i]);
        }
        send_many_reports_each(s, hp, events, user);
        send_many_frame(s, hp, events, user, g);
        assert forall|i: int| 0 <= i < hp.len() implies hp[i] != g by {
            assert(hp[i] == hs[i]);
        }
        let rs = s.send_many_next(hs, events, user).1;
        let rp = s.send_many_next(hp, events, user).1;
        assert forall|i: int| 0 <= i < hs.len() implies #[trigger] rs[i] == (if s.valid_handle(hs[i]) {
            Ok::<(), PortError>(())
        } else {
            Err::<(), PortError>(PortError::BadHandle)
        }) by {
            if i < hp.len() {
                assert(rs[i] == rp[i]);
                assert(hp[i] == hs[i]);
            }
        }
    }
}

/// When no more than `max` records are ready, `get_many` returns all of them, in
/// order, and leaves the queue empty: it does not wait to fill `max`.
pub proof fn get_many_takes_all_ready(s: PortsModel, h: i32, max: u32, timeout: Option<Timestruct>)
    requires
        s.wf(),
        s.valid_handle(h),
        timeout_is_valid(timeout),
        0 < s.port(h).queue.len() <= max,
    ensures
        ({
            let (s1, r) = s.get_many_next(h, max, timeout);
            &&& r == Ok::<Seq<PortEvent>, PortError>(s.port(h).queue)
            &&& s1.port(h).queue.len() == 0
        }),
{
    let q = s.port(h).queue;
    assert(q.take(q.len() as int) =~= q);
}

} // verus!
