use vstd::prelude::*;

use crate::error::PortError;
use crate::event::{
    PortEvent, Timestruct, FILE_EVENTS, PORT_ALERT_SET, PORT_ALERT_UPDATE, PORT_SOURCE_AIO,
    PORT_SOURCE_ALERT, PORT_SOURCE_FD, PORT_SOURCE_FILE, PORT_SOURCE_MQ, PORT_SOURCE_TIMER,
    PORT_SOURCE_USER,
};
use crate::model::{
    is_one_shot,
    alert_pos, alerts_unique, timeout_is_valid, timeout_is_zero, has_alert, is_alert, registrable, release,
    PortModel, PortsModel,
};
use crate::table::{
    find_entry, keys_unique, lemma_table_contains, lemma_table_len, lemma_table_push,
    lemma_table_remove, lemma_table_update, lemma_table_value, table_map, Association,
};

verus! {

/// One port: its association table and its queue of records not yet retrieved.
struct Port {
    open: bool,
    table: Vec<Association>,
    queue: Vec<PortEvent>,
}

impl View for Port {
    type V = PortModel;

    closed spec fn view(&self) -> PortModel {
        PortModel { open: self.open, table: table_map(self.table@), queue: self.queue@ }
    }
}

impl Port {
    closed spec fn inv(&self, capacity: nat) -> bool {
        &&& keys_unique(self.table@)
        &&& forall|i: int| 0 <= i < self.table@.len() ==> registrable(#[trigger] self.table@[i].source)
        &&& self.table@.len() <= capacity
        &&& self.queue@.len() <= capacity
        &&& alerts_unique(self.queue@)
        &&& !self.open ==> self.table@.len() == 0 && self.queue@.len() == 0
    }

    proof fn lemma_inv(&self, capacity: nat)
        requires
            self.inv(capacity),
        ensures
            self@.wf(capacity),
            self@.table.len() == self.table@.len(),
    {
        lemma_table_len(self.table@);
        if !self.open {
            assert(self@.queue =~= Seq::<PortEvent>::empty());
            assert(self@.table =~= Map::<(i32, usize), (i32, usize)>::empty());
        }
    }

    fn new(open: bool) -> (r: Port)
        ensures
            r.inv(0),
            r@ == (if open { PortModel::fresh() } else { PortModel::closed() }),
    {
        let r = Port { open, table: Vec::new(), queue: Vec::new() };
        assert(r@.queue =~= Seq::<PortEvent>::empty());
        r
    }

    /// Insert or replace the entry for `(source, object)`; false, with nothing
    /// changed, when the key is new and the table is full.
    fn associate(&mut self, capacity: usize, source: i32, object: usize, mask: i32, user: usize) -> (r: bool)
        requires
            old(self).inv(capacity as nat),
            registrable(source),
            old(self).open,
        ensures
            final(self).inv(capacity as nat),
            r == (old(self)@.table.contains_key((source, object)) || old(self)@.table.len() < capacity),
            final(self)@ == (if r {
                old(self)@.with_table(old(self)@.table.insert((source, object), (mask, user)))
            } else {
                old(self)@
            }),
    {
        proof {
            self.lemma_inv(capacity as nat);
            lemma_table_contains(self.table@, (source, object));
        }
        let a = Association { source, object, events: mask, user };
        match find_entry(&self.table, source, object) {
            Some(i) => {
                proof {
                    lemma_table_update(self.table@, i as int, a);
                }
                self.table.set(i, a);
                true
            },
            None => {
                if self.table.len() >= capacity {
                    return false;
                }
                proof {
                    lemma_table_push(self.table@, a);
                }
                self.table.push(a);
                assert(keys_unique(self.table@));
                true
            },
        }
    }

    /// Remove the entry for `(source, object)`; false when there is none.
    fn dissociate(&mut self, capacity: usize, source: i32, object: usize) -> (r: bool)
        requires
            old(self).inv(capacity as nat),
        ensures
            final(self).inv(capacity as nat),
            r == old(self)@.table.contains_key((source, object)),
            final(self)@ == (if r {
                old(self)@.with_table(old(self)@.table.remove((source, object)))
            } else {
                old(self)@
            }),
    {
        proof {
            lemma_table_contains(self.table@, (source, object));
        }
        match find_entry(&self.table, source, object) {
            Some(i) => {
                proof {
                    lemma_table_remove(self.table@, i as int);
                }
                self.table.remove(i);
                assert forall|j: int| 0 <= j < self.table@.len() implies registrable(
                    #[trigger] self.table@[j].source,
                ) by {
                    let k = if j < i { j } else { j + 1 };
                    assert(self.table@[j] == old(self).table@[k]);
                }
                true
            },
            None => false,
        }
    }

    /// The mask and payload registered for `(source, object)`, if any.
    fn lookup(&self, capacity: usize, source: i32, object: usize) -> (r: Option<(i32, usize)>)
        requires
            self.inv(capacity as nat),
        ensures
            r == (if self@.table.contains_key((source, object)) {
                Some(self@.table[(source, object)])
            } else {
                None::<(i32, usize)>
            }),
            r is Some ==> registrable(source),
    {
        proof {
            lemma_table_contains(self.table@, (source, object));
        }
        match find_entry(&self.table, source, object) {
            Some(i) => {
                proof {
                    lemma_table_value(self.table@, i as int);
                }
                Some((self.table[i].events, self.table[i].user))
            },
            None => None,
        }
    }

    /// Append `e` to the queue; false, with nothing changed, when it is full.
    fn post(&mut self, capacity: usize, e: PortEvent) -> (r: bool)
        requires
            old(self).inv(capacity as nat),
            old(self).open,
            !is_alert(e),
        ensures
            final(self).inv(capacity as nat),
            r == (old(self)@.queue.len() < capacity),
            final(self)@ == (if r { old(self)@.with_queue(old(self)@.queue.push(e)) } else { old(self)@ }),
    {
        if self.queue.len() >= capacity {
            return false;
        }
        self.queue.push(e);
        proof {
            assert forall|i: int, j: int|
                0 <= i < self.queue@.len() && 0 <= j < self.queue@.len() && is_alert(self.queue@[i])
                    && is_alert(self.queue@[j]) implies i == j by {
                if i < old(self).queue@.len() && j < old(self).queue@.len() {
                    assert(self.queue@[i] == old(self).queue@[i]);
                    assert(self.queue@[j] == old(self).queue@[j]);
                }
            }
        }
        true
    }

    /// The position of the pending alert record, if any.
    fn find_alert(&self) -> (r: Option<usize>)
        ensures
            match r {
                Some(i) => i < self.queue@.len() && is_alert(self.queue@[i as int]),
                None => !has_alert(self.queue@),
            },
    {
        let mut i: usize = 0;
        while i < self.queue.len()
            invariant
                i <= self.queue@.len(),
                forall|j: int| 0 <= j < i ==> !is_alert(#[trigger] self.queue@[j]),
            decreases self.queue@.len() - i,
        {
            if self.queue[i].portev_source == PORT_SOURCE_ALERT as u16 {
                return Some(i);
            }
            i = i + 1;
        }
        None
    }

    /// Retrieve the first `n` records, in queue order, and drop the association of
    /// each one that comes from a one-shot source.
    fn take(&mut self, capacity: usize, n: usize) -> (r: Vec<PortEvent>)
        requires
            old(self).inv(capacity as nat),
            1 <= n <= old(self).queue@.len(),
        ensures
            final(self).inv(capacity as nat),
            r@ == old(self)@.queue.take(n as int),
            final(self)@ == (PortModel {
                open: old(self)@.open,
                table: release(old(self)@.table, r@),
                queue: old(self)@.queue.skip(n as int),
            }),
    {
        let ghost q = self.queue@;
        let ghost t = self@.table;
        let mut r: Vec<PortEvent> = Vec::new();
        let mut k: usize = 0;
        while k < n
            invariant
                self.inv(capacity as nat),
                self.open == old(self).open,
                k <= n <= q.len(),
                r@ == q.take(k as int),
                self.queue@ == q.skip(k as int),
                self@.table == release(t, r@),
            decreases n - k,
        {
            let e = self.queue.remove(0);
            proof {
                assert(self.queue@ =~= q.skip(k + 1));
                let s = self.queue@;
                assert forall|a: int, b: int|
                    0 <= a < s.len() && 0 <= b < s.len() && is_alert(s[a]) && is_alert(s[b]) implies a
                    == b by {
                    assert(s[a] == q.skip(k as int)[a + 1]);
                    assert(s[b] == q.skip(k as int)[b + 1]);
                }
            }
            let ghost before = self@.table;
            if is_one_shot(e.portev_source as i32) {
                let gone = self.dissociate(capacity, e.portev_source as i32, e.portev_object);
                proof {
                    if !gone {
                        assert(before.remove((e.portev_source as i32, e.portev_object)) =~= before);
                    }
                }
            }
            r.push(e);
            proof {
                assert(r@.drop_last() =~= q.take(k as int));
                assert(r@ =~= q.take(k + 1));
            }
            k = k + 1;
        }
        r
    }
}

/// A set of event ports, addressed by integer handles. Handles are never reused:
/// once closed, a handle stays invalid.
pub struct Ports {
    ports: Vec<Port>,
    max_ports: usize,
    capacity: usize,
}

impl View for Ports {
    type V = PortsModel;

    closed spec fn view(&self) -> PortsModel {
        PortsModel {
            ports: self.ports@.map_values(|p: Port| p@),
            max_ports: self.max_ports as nat,
            capacity: self.capacity as nat,
        }
    }
}

impl Ports {
    /// The internal invariant: every port keeps its table free of duplicate keys
    /// and within capacity, and handles fit in an `i32`.
    pub closed spec fn wf(&self) -> bool {
        &&& self.ports@.len() <= self.max_ports <= i32::MAX
        &&& forall|i: int|
            0 <= i < self.ports@.len() ==> #[trigger] self.ports@[i].inv(self.capacity as nat)
    }

    /// The invariant keeps the model well formed, which the laws ask of it.
    pub proof fn lemma_wf(&self)
        requires
            self.wf(),
        ensures
            self@.wf(),
    {
        assert forall|i: int| 0 <= i < self@.ports.len() implies #[trigger] self@.ports[i].wf(
            self@.capacity,
        ) by {
            self.ports@[i].lemma_inv(self.capacity as nat);
        }
    }

    /// No ports yet; at most `max_ports` handles will be handed out (no more than
    /// `i32::MAX`, as handles are `i32`), and each table and each queue holds at
    /// most `capacity` entries.
    pub fn new(max_ports: usize, capacity: usize) -> (r: Ports)
        ensures
            r.wf(),
            r@.ports == Seq::<PortModel>::empty(),
            r@.max_ports == (if max_ports <= i32::MAX as usize { max_ports } else { i32::MAX as usize }),
            r@.capacity == capacity,
    {
        let max_ports = if max_ports <= i32::MAX as usize { max_ports } else { i32::MAX as usize };
        let r = Ports { ports: Vec::new(), max_ports, capacity };
        assert(r@.ports =~= Seq::<PortModel>::empty());
        r
    }

    fn handle_ok(&self, h: i32) -> (r: bool)
        ensures
            r == self@.valid_handle(h),
    {
        h >= 0 && (h as usize) < self.ports.len() && self.ports[h as usize].open
    }

    /// Open a new port with an empty table and an empty queue.
    pub fn create(&mut self) -> (r: Result<i32, PortError>)
        requires
            old(self).wf(),
        ensures
            final(self).wf(),
            (final(self)@, r) == old(self)@.create_next(),
    {
        if self.ports.len() >= self.max_ports {
            return Err(PortError::TooManyHandles);
        }
        let h = self.ports.len() as i32;
        let p = Port::new(true);
        self.ports.push(p);
        assert(self@.ports =~= old(self)@.ports.push(PortModel::fresh()));
        Ok(h)
    }

    /// Close a port: its table and queue are dropped, and every later operation on
    /// the handle fails with a bad handle, a second close included.
    pub fn close(&mut self, h: i32) -> (r: Result<(), PortError>)
        requires
            old(self).wf(),
        ensures
            final(self).wf(),
            (final(self)@, r) == old(self)@.close_next(h),
    {
        if !self.handle_ok(h) {
            return Err(PortError::BadHandle);
        }
        let p = Port::new(false);
        self.ports.set(h as usize, p);
        assert(self@.ports =~= old(self)@.ports.update(h as int, PortModel::closed()));
        Ok(())
    }

    /// Register interest in `object` of `source`, with the watch mask `mask` and
    /// the payload `user`. An existing entry for the same key is replaced.
    pub fn associate(&mut self, h: i32, source: i32, object: usize, mask: i32, user: usize) -> (r: Result<(), PortError>)
        requires
            old(self).wf(),
        ensures
            final(self).wf(),
            (final(self)@, r) == old(self)@.associate_next(h, source, object, mask, user),
    {
        if !self.handle_ok(h) {
            return Err(PortError::BadHandle);
        }
        if !(source == PORT_SOURCE_AIO || source == PORT_SOURCE_TIMER || source == PORT_SOURCE_FD
            || source == PORT_SOURCE_MQ || source == PORT_SOURCE_FILE) {
            return Err(PortError::NotSupported);
        }
        if !(source != PORT_SOURCE_FILE || mask & !FILE_EVENTS == 0) {
            return Err(PortError::InvalidArgument);
        }
        let hi = h as usize;
        let capacity = self.capacity;
        proof {
            self.ports@[hi as int].lemma_inv(capacity as nat);
        }
        if !self.ports[hi].associate(capacity, source, object, mask, user) {
            assert(self@.ports =~= old(self)@.ports);
            return Err(PortError::OutOfMemory);
        }
        assert(self@.ports =~= old(self)@.ports.update(h as int, self.ports@[hi as int]@));
        Ok(())
    }

    /// Withdraw the interest registered for `object` of `source`.
    pub fn dissociate(&mut self, h: i32, source: i32, object: usize) -> (r: Result<(), PortError>)
        requires
            old(self).wf(),
        ensures
            final(self).wf(),
            (final(self)@, r) == old(self)@.dissociate_next(h, source, object),
    {
        if !self.handle_ok(h) {
            return Err(PortError::BadHandle);
        }
        let hi = h as usize;
        let capacity = self.capacity;
        if !self.ports[hi].dissociate(capacity, source, object) {
            assert(self@.ports =~= old(self)@.ports);
            return Err(PortError::NotFound);
        }
        assert(self@.ports =~= old(self)@.ports.update(h as int, self.ports@[hi as int]@));
        Ok(())
    }

    /// The hook through which a source reports that `fired` happened on `object`:
    /// a record is queued only while an association for `(source, object)` stands,
    /// with the fired events that it watches and its payload.
    pub fn deliver(&mut self, h: i32, source: i32, object: usize, fired: i32) -> (r: Result<bool, PortError>)
        requires
            old(self).wf(),
        ensures
            final(self).wf(),
            (final(self)@, r) == old(self)@.deliver_next(h, source, object, fired),
    {
        if !self.handle_ok(h) {
            return Err(PortError::BadHandle);
        }
        let hi = h as usize;
        let capacity = self.capacity;
        let (mask, user) = match self.ports[hi].lookup(capacity, source, object) {
            Some(entry) => entry,
            None => {
                return Err(PortError::NotFound);
            },
        };
        let events = fired & mask;
        if events == 0 {
            return Ok(false);
        }
        let e = PortEvent { portev_events: events, portev_source: source as u16, portev_object: object, portev_user: user };
        assert(!is_alert(e)) by {
            assert(registrable(source));
        }
        if !self.ports[hi].post(capacity, e) {
            assert(self@.ports =~= old(self)@.ports);
            return Err(PortError::WouldBlock);
        }
        assert(self@.ports =~= old(self)@.ports.update(h as int, self.ports@[hi as int]@));
        Ok(true)
    }

    /// Queue a user record with `events` and `user`; each call adds a record of its own.
    pub fn send(&mut self, h: i32, events: i32, user: usize) -> (r: Result<(), PortError>)
        requires
            old(self).wf(),
        ensures
            final(self).wf(),
            (final(self)@, r) == old(self)@.send_next(h, events, user),
    {
        if !self.handle_ok(h) {
            return Err(PortError::BadHandle);
        }
        let hi = h as usize;
        let capacity = self.capacity;
        let e = PortEvent {
            portev_events: events,
            portev_source: PORT_SOURCE_USER as u16,
            portev_object: 0,
            portev_user: user,
        };
        if !self.ports[hi].post(capacity, e) {
            assert(self@.ports =~= old(self)@.ports);
            return Err(PortError::WouldBlock);
        }
        assert(self@.ports =~= old(self)@.ports.update(h as int, self.ports@[hi as int]@));
        Ok(())
    }

    /// `send` to every handle of `hs`, in order, whatever the earlier ones gave:
    /// one outcome per handle.
    pub fn send_many(&mut self, hs: &Vec<i32>, events: i32, user: usize) -> (r: Vec<Result<(), PortError>>)
        requires
            old(self).wf(),
        ensures
            final(self).wf(),
            (final(self)@, r@) == old(self)@.send_many_next(hs@, events, user),
            r@.len() == hs@.len(),
            forall|i: int|
                0 <= i < hs@.len() ==> (#[trigger] r@[i] == Err::<(), PortError>(PortError::BadHandle)
                    <==> !old(self)@.valid_handle(hs@[i])),
    {
        let mut r: Vec<Result<(), PortError>> = Vec::new();
        let mut i: usize = 0;
        while i < hs.len()
            invariant
                self.wf(),
                i <= hs@.len(),
                (self@, r@) == old(self)@.send_many_next(hs@.take(i as int), events, user),
                r@.len() == i,
                self@.ports.len() == old(self)@.ports.len(),
                forall|k: int| 0 <= k < self@.ports.len() ==> #[trigger] self@.ports[k].open == old(self)@.ports[k].open,
                forall|j: int|
                    0 <= j < i ==> (#[trigger] r@[j] == Err::<(), PortError>(PortError::BadHandle)
                        <==> !old(self)@.valid_handle(hs@[j])),
            decreases hs@.len() - i,
        {
            let o = self.send(hs[i], events, user);
            r.push(o);
            assert(hs@.take(i + 1).drop_last() =~= hs@.take(i as int));
            i = i + 1;
        }
        assert(hs@.take(hs@.len() as int) =~= hs@);
        r
    }

    /// Post the port's alert. With `PORT_ALERT_SET` it replaces any pending alert;
    /// with `PORT_ALERT_UPDATE` it merges `events` into it. At most one alert
    /// record is ever pending.
    pub fn alert(&mut self, h: i32, flags: i32, events: i32, user: usize) -> (r: Result<(), PortError>)
        requires
            old(self).wf(),
        ensures
            final(self).wf(),
            (final(self)@, r) == old(self)@.alert_next(h, flags, events, user),
    {
        if !self.handle_ok(h) {
            return Err(PortError::BadHandle);
        }
        if flags != PORT_ALERT_SET && flags != PORT_ALERT_UPDATE {
            return Err(PortError::InvalidArgument);
        }
        let hi = h as usize;
        let capacity = self.capacity;
        let fresh = PortEvent {
            portev_events: events,
            portev_source: PORT_SOURCE_ALERT as u16,
            portev_object: 0,
            portev_user: user,
        };
        match self.ports[hi].find_alert() {
            Some(i) => {
                let ghost q = self.ports@[hi as int].queue@;
                assert(self.ports@[hi as int].inv(capacity as nat));
                assert(alerts_unique(q));
                assert(has_alert(q)) by {
                    assert(is_alert(q[i as int]));
                }
                let old_e = self.ports[hi].queue[i];
                let merged = if flags == PORT_ALERT_SET {
                    fresh
                } else {
                    PortEvent { portev_events: old_e.portev_events | events, ..old_e }
                };
                let port = &mut self.ports[hi];
                port.queue.set(i, merged);
                proof {
                    assert(alert_pos(q) == i as int);
                    assert forall|a: int, b: int|
                        0 <= a < port.queue@.len() && 0 <= b < port.queue@.len()
                            && is_alert(port.queue@[a]) && is_alert(port.queue@[b]) implies a == b by {
                        assert(a != i ==> port.queue@[a] == q[a]);
                        assert(b != i ==> port.queue@[b] == q[b]);
                        assert(is_alert(q[i as int]));
                    }
                }
            },
            None => {
                assert(self.ports@[hi as int].inv(capacity as nat));
                let port = &mut self.ports[hi];
                if port.queue.len() >= capacity {
                    assert(self@.ports =~= old(self)@.ports);
                    return Err(PortError::WouldBlock);
                }
                port.queue.push(fresh);
                proof {
                    let q = old(self).ports@[hi as int].queue@;
                    assert forall|a: int, b: int|
                        0 <= a < port.queue@.len() && 0 <= b < port.queue@.len()
                            && is_alert(port.queue@[a]) && is_alert(port.queue@[b]) implies a == b by {
                        if a < q.len() {
                            assert(port.queue@[a] == q[a]);
                        }
                        if b < q.len() {
                            assert(port.queue@[b] == q[b]);
                        }
                    }
                }
            },
        }
        assert(self@.ports =~= old(self)@.ports.update(h as int, self.ports@[hi as int]@));
        Ok(())
    }

    /// The checks that every retrieval makes first: a timeout that is given must be
    /// valid, and an empty queue under a zero timeout gives `TimedOut`. `Ok(ready)`
    /// tells whether a record waits.
    fn check_wait(&mut self, h: i32, timeout: Option<Timestruct>) -> (r: Result<bool, PortError>)
        requires
            old(self).wf(),
            old(self)@.valid_handle(h),
        ensures
            final(self).wf(),
            match r {
                Ok(ready) => final(self)@ == old(self)@ && timeout_is_valid(timeout) && ready == (
                old(self)@.port(h).queue.len() > 0) && (!ready ==> !timeout_is_zero(timeout)),
                Err(e) => final(self)@ == old(self)@ && (if !timeout_is_valid(timeout) {
                    e == PortError::InvalidArgument
                } else {
                    e == PortError::TimedOut && old(self)@.port(h).queue.len() == 0 && timeout_is_zero(
                        timeout,
                    )
                }),
            },
    {
        let zero = match timeout {
            Some(t) => {
                if !t.is_valid_timeout() {
                    return Err(PortError::InvalidArgument);
                }
                t.is_zero()
            },
            None => false,
        };
        if self.ports[h as usize].queue.len() > 0 {
            return Ok(true);
        }
        if zero {
            return Err(PortError::TimedOut);
        }
        Ok(false)
    }

    /// Retrieve one record, the oldest; retrieving a record of a one-shot source
    /// consumes its association. With nothing ready, a zero timeout fails with
    /// `TimedOut` and any other timeout gives `Ok(None)`: the caller is to wait
    /// for a `send`, an `alert`, a delivery or a `close` and try again.
    pub fn get(&mut self, h: i32, timeout: Option<Timestruct>) -> (r: Result<Option<PortEvent>, PortError>)
        requires
            old(self).wf(),
        ensures
            final(self).wf(),
            (final(self)@, r) == old(self)@.get_next(h, timeout),
    {
        if !self.handle_ok(h) {
            return Err(PortError::BadHandle);
        }
        match self.check_wait(h, timeout) {
            Err(e) => {
                return Err(e);
            },
            Ok(false) => {
                return Ok(None);
            },
            Ok(true) => {},
        }
        let hi = h as usize;
        let capacity = self.capacity;
        assert(self.ports@[hi as int].inv(capacity as nat));
        let got = self.ports[hi].take(capacity, 1);
        let e = got[0];
        proof {
            let q = old(self)@.port(h).queue;
            assert(got@ =~= seq![e]);
            assert(q.skip(1) =~= q.drop_first());
        }
        assert(self@.ports =~= old(self)@.ports.update(h as int, self.ports@[hi as int]@));
        Ok(Some(e))
    }

    /// Retrieve up to `max` records, oldest first, without waiting for more once
    /// one is ready: `min(max, ready)` of them. With nothing ready it answers as
    /// `get` does, an empty vector standing for "wait".
    pub fn get_many(&mut self, h: i32, max: u32, timeout: Option<Timestruct>) -> (r: Result<Vec<PortEvent>, PortError>)
        requires
            old(self).wf(),
        ensures
            final(self).wf(),
            (final(self)@, match r {
                Ok(v) => Ok(v@),
                Err(e) => Err(e),
            }) == old(self)@.get_many_next(h, max, timeout),
            old(self)@.valid_handle(h) && timeout_is_valid(timeout) && max > 0 && old(self)@.port(
                h,
            ).queue.len() > 0 ==> r is Ok,
            r is Ok ==> r->Ok_0@.len() == (if max < old(self)@.port(h).queue.len() {
                max as int
            } else {
                old(self)@.port(h).queue.len() as int
            }),
    {
        if !self.handle_ok(h) {
            return Err(PortError::BadHandle);
        }
        if max == 0 {
            return Err(PortError::InvalidArgument);
        }
        match self.check_wait(h, timeout) {
            Err(e) => {
                return Err(e);
            },
            Ok(false) => {
                return Ok(Vec::new());
            },
            Ok(true) => {},
        }
        let hi = h as usize;
        let capacity = self.capacity;
        assert(self.ports@[hi as int].inv(capacity as nat));
        let len = self.ports[hi].queue.len();
        let n: usize = if (max as usize) < len { max as usize } else { len };
        let got = self.ports[hi].take(capacity, n);
        assert(self@.ports =~= old(self)@.ports.update(h as int, self.ports@[hi as int]@));
        Ok(got)
    }
}

} // verus!
