use vstd::prelude::*;

use crate::error::PortError;
use crate::event::{
    PortEvent, Timestruct, FILE_EVENTS, PORT_ALERT_SET, PORT_ALERT_UPDATE, PORT_SOURCE_AIO,
    PORT_SOURCE_ALERT, PORT_SOURCE_FD, PORT_SOURCE_FILE, PORT_SOURCE_MQ, PORT_SOURCE_TIMER,
    PORT_SOURCE_USER,
};
use crate::table::TableModel;

verus! {

/// Sources that can be associated. The user and alert sources are only ever
/// targeted directly, by `send` and `alert`.
pub open spec fn registrable(source: i32) -> bool {
    source == PORT_SOURCE_AIO || source == PORT_SOURCE_TIMER || source == PORT_SOURCE_FD
        || source == PORT_SOURCE_MQ || source == PORT_SOURCE_FILE
}

/// Whether retrieving a record of `source` consumes its association.
pub fn is_one_shot(source: i32) -> (r: bool)
    ensures
        r == one_shot(source),
{
    source == PORT_SOURCE_FD || source == PORT_SOURCE_FILE
}

/// Whether `mask` may be watched on `source`: a file association may ask only for
/// file watch and file exception events.
pub open spec fn mask_allowed(source: i32, mask: i32) -> bool {
    source != PORT_SOURCE_FILE || mask & !FILE_EVENTS == 0
}

/// One-shot sources lose their association when one of their events is retrieved;
/// the others keep it until it is dissociated.
pub open spec fn one_shot(source: i32) -> bool {
    source == PORT_SOURCE_FD || source == PORT_SOURCE_FILE
}

pub open spec fn is_alert(e: PortEvent) -> bool {
    e.portev_source == PORT_SOURCE_ALERT as u16
}

pub open spec fn has_alert(q: Seq<PortEvent>) -> bool {
    exists|i: int| 0 <= i < q.len() && is_alert(q[i])
}

/// At most one alert record waits in the queue.
pub open spec fn alerts_unique(q: Seq<PortEvent>) -> bool {
    forall|i: int, j: int|
        0 <= i < q.len() && 0 <= j < q.len() && is_alert(q[i]) && is_alert(q[j]) ==> i == j
}

/// The position of the pending alert record.
pub open spec fn alert_pos(q: Seq<PortEvent>) -> int {
    choose|i: int| 0 <= i < q.len() && is_alert(q[i])
}

/// The table left once the records `recs` have been retrieved, in order: each
/// record of a one-shot source consumes its association.
pub open spec fn release(t: TableModel, recs: Seq<PortEvent>) -> TableModel
    decreases recs.len(),
{
    if recs.len() == 0 {
        t
    } else {
        let t0 = release(t, recs.drop_last());
        let e = recs.last();
        if one_shot(e.portev_source as i32) {
            t0.remove((e.portev_source as i32, e.portev_object))
        } else {
            t0
        }
    }
}

/// A zero timeout asks for an immediate answer.
pub open spec fn timeout_is_zero(timeout: Option<Timestruct>) -> bool {
    match timeout {
        Some(t) => t.spec_is_zero(),
        None => false,
    }
}

pub open spec fn timeout_is_valid(timeout: Option<Timestruct>) -> bool {
    match timeout {
        Some(t) => t.spec_is_valid_timeout(),
        None => true,
    }
}

/// One port: whether it is open, its association table and its queue.
pub struct PortModel {
    pub open: bool,
    pub table: TableModel,
    pub queue: Seq<PortEvent>,
}

impl PortModel {
    pub open spec fn fresh() -> PortModel {
        PortModel { open: true, table: Map::empty(), queue: Seq::empty() }
    }

    pub open spec fn closed() -> PortModel {
        PortModel { open: false, table: Map::empty(), queue: Seq::empty() }
    }

    pub open spec fn wf(self, capacity: nat) -> bool {
        &&& self.table.dom().finite()
        &&& self.table.len() <= capacity
        &&& self.queue.len() <= capacity
        &&& alerts_unique(self.queue)
        &&& !self.open ==> self.table == Map::<(i32, usize), (i32, usize)>::empty()
            && self.queue == Seq::<PortEvent>::empty()
    }

    pub open spec fn with_table(self, table: TableModel) -> PortModel {
        PortModel { open: self.open, table, queue: self.queue }
    }

    pub open spec fn with_queue(self, queue: Seq<PortEvent>) -> PortModel {
        PortModel { open: self.open, table: self.table, queue }
    }
}

/// All ports: handle `h` names `ports[h]`. At most `max_ports` handles are ever
/// handed out, and each table and each queue holds at most `capacity` entries.
/// A failing operation leaves the state as it was: its error is its result alone.
pub struct PortsModel {
    pub ports: Seq<PortModel>,
    pub max_ports: nat,
    pub capacity: nat,
}

impl PortsModel {
    pub open spec fn wf(self) -> bool {
        &&& self.ports.len() <= self.max_ports <= i32::MAX as nat
        &&& forall|i: int| 0 <= i < self.ports.len() ==> #[trigger] self.ports[i].wf(self.capacity)
    }

    pub open spec fn valid_handle(self, h: i32) -> bool {
        0 <= h < self.ports.len() && self.ports[h as int].open
    }

    pub open spec fn port(self, h: i32) -> PortModel {
        self.ports[h as int]
    }

    pub open spec fn with_port(self, h: i32, p: PortModel) -> PortsModel {
        PortsModel { ports: self.ports.update(h as int, p), ..self }
    }

    pub open spec fn create_next(self) -> (PortsModel, Result<i32, PortError>) {
        if self.ports.len() >= self.max_ports {
            (self, Err(PortError::TooManyHandles))
        } else {
            (
                PortsModel { ports: self.ports.push(PortModel::fresh()), ..self },
                Ok(self.ports.len() as i32),
            )
        }
    }

    pub open spec fn close_next(self, h: i32) -> (PortsModel, Result<(), PortError>) {
        if !self.valid_handle(h) {
            (self, Err(PortError::BadHandle))
        } else {
            (self.with_port(h, PortModel::closed()), Ok(()))
        }
    }

    pub open spec fn associate_next(self, h: i32, source: i32, object: usize, mask: i32, user: usize) -> (
        PortsModel,
        Result<(), PortError>,
    ) {
        let p = self.port(h);
        if !self.valid_handle(h) {
            (self, Err(PortError::BadHandle))
        } else if !registrable(source) {
            (self, Err(PortError::NotSupported))
        } else if !mask_allowed(source, mask) {
            (self, Err(PortError::InvalidArgument))
        } else if !p.table.contains_key((source, object)) && p.table.len() >= self.capacity {
            (self, Err(PortError::OutOfMemory))
        } else {
            (self.with_port(h, p.with_table(p.table.insert((source, object), (mask, user)))), Ok(()))
        }
    }

    pub open spec fn dissociate_next(self, h: i32, source: i32, object: usize) -> (
        PortsModel,
        Result<(), PortError>,
    ) {
        let p = self.port(h);
        if !self.valid_handle(h) {
            (self, Err(PortError::BadHandle))
        } else if !p.table.contains_key((source, object)) {
            (self, Err(PortError::NotFound))
        } else {
            (self.with_port(h, p.with_table(p.table.remove((source, object)))), Ok(()))
        }
    }

    /// A source reports `fired` on `object`: the record carries the fired events
    /// that the association watches, and its payload. `Ok(false)` when none of
    /// them is watched.
    pub open spec fn deliver_next(self, h: i32, source: i32, object: usize, fired: i32) -> (
        PortsModel,
        Result<bool, PortError>,
    ) {
        let p = self.port(h);
        let (mask, user) = p.table[(source, object)];
        if !self.valid_handle(h) {
            (self, Err(PortError::BadHandle))
        } else if !p.table.contains_key((source, object)) {
            (self, Err(PortError::NotFound))
        } else if fired & mask == 0 {
            (self, Ok(false))
        } else if p.queue.len() >= self.capacity {
            (self, Err(PortError::WouldBlock))
        } else {
            let e = PortEvent {
                portev_events: fired & mask,
                portev_source: source as u16,
                portev_object: object,
                portev_user: user,
            };
            (self.with_port(h, p.with_queue(p.queue.push(e))), Ok(true))
        }
    }

    pub open spec fn send_next(self, h: i32, events: i32, user: usize) -> (
        PortsModel,
        Result<(), PortError>,
    ) {
        let p = self.port(h);
        if !self.valid_handle(h) {
            (self, Err(PortError::BadHandle))
        } else if p.queue.len() >= self.capacity {
            (self, Err(PortError::WouldBlock))
        } else {
            let e = PortEvent {
                portev_events: events,
                portev_source: PORT_SOURCE_USER as u16,
                portev_object: 0,
                portev_user: user,
            };
            (self.with_port(h, p.with_queue(p.queue.push(e))), Ok(()))
        }
    }

    /// `send` to each handle of `hs` in turn; one outcome per handle.
    pub open spec fn send_many_next(self, hs: Seq<i32>, events: i32, user: usize) -> (
        PortsModel,
        Seq<Result<(), PortError>>,
    )
        decreases hs.len(),
    {
        if hs.len() == 0 {
            (self, Seq::empty())
        } else {
            let (s1, rs) = self.send_many_next(hs.drop_last(), events, user);
            let (s2, r) = s1.send_next(hs.last(), events, user);
            (s2, rs.push(r))
        }
    }

    /// "Set" overwrites the pending alert; "update" merges its events into it and
    /// keeps its payload. Without a pending alert both post a new one.
    pub open spec fn alert_next(self, h: i32, flags: i32, events: i32, user: usize) -> (
        PortsModel,
        Result<(), PortError>,
    ) {
        let p = self.port(h);
        let fresh = PortEvent {
            portev_events: events,
            portev_source: PORT_SOURCE_ALERT as u16,
            portev_object: 0,
            portev_user: user,
        };
        if !self.valid_handle(h) {
            (self, Err(PortError::BadHandle))
        } else if flags != PORT_ALERT_SET && flags != PORT_ALERT_UPDATE {
            (self, Err(PortError::InvalidArgument))
        } else if has_alert(p.queue) {
            let i = alert_pos(p.queue);
            let old = p.queue[i];
            let merged = if flags == PORT_ALERT_SET {
                fresh
            } else {
                PortEvent { portev_events: old.portev_events | events, ..old }
            };
            (self.with_port(h, p.with_queue(p.queue.update(i, merged))), Ok(()))
        } else if p.queue.len() >= self.capacity {
            (self, Err(PortError::WouldBlock))
        } else {
            (self.with_port(h, p.with_queue(p.queue.push(fresh))), Ok(()))
        }
    }

    /// Retrieve one record. `Ok(None)`: nothing is ready and the caller is to wait.
    pub open spec fn get_next(self, h: i32, timeout: Option<Timestruct>) -> (
        PortsModel,
        Result<Option<PortEvent>, PortError>,
    ) {
        let p = self.port(h);
        if !self.valid_handle(h) {
            (self, Err(PortError::BadHandle))
        } else if !timeout_is_valid(timeout) {
            (self, Err(PortError::InvalidArgument))
        } else if p.queue.len() == 0 {
            if timeout_is_zero(timeout) {
                (self, Err(PortError::TimedOut))
            } else {
                (self, Ok(None))
            }
        } else {
            let e = p.queue[0];
            (
                self.with_port(
                    h,
                    PortModel { open: p.open, table: release(p.table, seq![e]), queue: p.queue.drop_first() },
                ),
                Ok(Some(e)),
            )
        }
    }

    /// Retrieve up to `max` records, all those ready if fewer. An empty result:
    /// nothing is ready and the caller is to wait.
    pub open spec fn get_many_next(self, h: i32, max: u32, timeout: Option<Timestruct>) -> (
        PortsModel,
        Result<Seq<PortEvent>, PortError>,
    ) {
        let p = self.port(h);
        let n: int = if max < p.queue.len() { max as int } else { p.queue.len() as int };
        if !self.valid_handle(h) {
            (self, Err(PortError::BadHandle))
        } else if !timeout_is_valid(timeout) || max == 0 {
            (self, Err(PortError::InvalidArgument))
        } else if p.queue.len() == 0 {
            if timeout_is_zero(timeout) {
                (self, Err(PortError::TimedOut))
            } else {
                (self, Ok(Seq::empty()))
            }
        } else {
            let got = p.queue.take(n);
            (
                self.with_port(
                    h,
                    PortModel { open: p.open, table: release(p.table, got), queue: p.queue.skip(n) },
                ),
                Ok(got),
            )
        }
    }
}

} // verus!
