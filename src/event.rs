use vstd::prelude::*;

verus! {

/// Completions of asynchronous I/O.
pub const PORT_SOURCE_AIO: i32 = 1;
/// Timer expirations.
pub const PORT_SOURCE_TIMER: i32 = 2;
/// Events posted by `send`.
pub const PORT_SOURCE_USER: i32 = 3;
/// Watched file descriptors.
pub const PORT_SOURCE_FD: i32 = 4;
/// The coalescing alert posted by `alert`.
pub const PORT_SOURCE_ALERT: i32 = 5;
/// Message-queue arrivals.
pub const PORT_SOURCE_MQ: i32 = 6;
/// File-system change notifications.
pub const PORT_SOURCE_FILE: i32 = 7;

/// `alert` flag: overwrite any pending alert.
pub const PORT_ALERT_SET: i32 = 0x01;
/// `alert` flag: merge into any pending alert.
pub const PORT_ALERT_UPDATE: i32 = 0x02;
/// Both `alert` flags at once, which is refused.
pub const PORT_ALERT_INVALID: i32 = PORT_ALERT_SET | PORT_ALERT_UPDATE;

/// File watch event: the file was read.
pub const FILE_ACCESS: i32 = 0x0000_0001;
/// File watch event: the file was written.
pub const FILE_MODIFIED: i32 = 0x0000_0002;
/// File watch event: the file's attributes changed.
pub const FILE_ATTRIB: i32 = 0x0000_0004;
/// File watch event: the file was truncated.
pub const FILE_TRUNC: i32 = 0x0010_0000;
/// On association: do not follow a symbolic link.
pub const FILE_NOFOLLOW: i32 = 0x1000_0000;

/// File exception event: the watched file was deleted.
pub const FILE_DELETE: i32 = 0x0000_0010;
/// File exception event: something was renamed onto the watched file.
pub const FILE_RENAME_TO: i32 = 0x0000_0020;
/// File exception event: the watched file was renamed.
pub const FILE_RENAME_FROM: i32 = 0x0000_0040;
/// File exception event: the file system holding the watched file was unmounted.
pub const UNMOUNTED: i32 = 0x2000_0000;
/// File exception event: another file system was mounted over the watched file.
pub const MOUNTEDOVER: i32 = 0x4000_0000;

/// Any file exception event.
pub const FILE_EXCEPTION: i32 = UNMOUNTED | FILE_DELETE | FILE_RENAME_TO | FILE_RENAME_FROM
    | MOUNTEDOVER;

/// Every event that a file association may ask for: watch events and exceptions.
pub const FILE_EVENTS: i32 = FILE_ACCESS | FILE_MODIFIED | FILE_ATTRIB | FILE_TRUNC
    | FILE_NOFOLLOW | FILE_EXCEPTION;

/// One delivered event: what happened, from which source, on which object, and the
/// caller's payload. Objects and payloads are opaque tokens that the port never
/// interprets.
#[derive(Clone, Copy, Debug, PartialEq, Eq, Structural)]
pub struct PortEvent {
    pub portev_events: i32,
    pub portev_source: u16,
    pub portev_object: usize,
    pub portev_user: usize,
}

impl PortEvent {
    pub fn new(events: i32, source: u16, object: usize, user: usize) -> (r: PortEvent)
        ensures
            r == (PortEvent {
                portev_events: events,
                portev_source: source,
                portev_object: object,
                portev_user: user,
            }),
    {
        PortEvent { portev_events: events, portev_source: source, portev_object: object, portev_user: user }
    }
}

/// Seconds and nanoseconds: a file timestamp, or a relative timeout.
#[derive(Clone, Copy, Debug, PartialEq, Eq, Structural)]
pub struct Timestruct {
    pub tv_sec: i64,
    pub tv_nsec: i64,
}

/// Nanoseconds in one second.
pub const NANOS_PER_SEC: i64 = 1_000_000_000;

impl Timestruct {
    pub open spec fn spec_is_zero(self) -> bool {
        self.tv_sec == 0 && self.tv_nsec == 0
    }

    /// A timeout is valid when neither part is negative and the nanoseconds stay
    /// below one second.
    pub open spec fn spec_is_valid_timeout(self) -> bool {
        self.tv_sec >= 0 && 0 <= self.tv_nsec < NANOS_PER_SEC
    }

    pub fn new(tv_sec: i64, tv_nsec: i64) -> (r: Timestruct)
        ensures
            r.tv_sec == tv_sec,
            r.tv_nsec == tv_nsec,
    {
        Timestruct { tv_sec, tv_nsec }
    }

    pub fn is_zero(&self) -> (r: bool)
        ensures
            r == self.spec_is_zero(),
    {
        self.tv_sec == 0 && self.tv_nsec == 0
    }

    pub fn is_valid_timeout(&self) -> (r: bool)
        ensures
            r == self.spec_is_valid_timeout(),
    {
        self.tv_sec >= 0 && 0 <= self.tv_nsec && self.tv_nsec < NANOS_PER_SEC
    }
}

/// The state of a watched file when it was associated: its access, modification
/// and change times, and its name.
#[derive(Clone, Debug)]
pub struct FileObj {
    pub fo_atime: Timestruct,
    pub fo_mtime: Timestruct,
    pub fo_ctime: Timestruct,
    pub fo_name: String,
}

impl FileObj {
    pub fn new(atime: Timestruct, mtime: Timestruct, ctime: Timestruct, name: String) -> (r: FileObj)
        ensures
            r.fo_atime == atime,
            r.fo_mtime == mtime,
            r.fo_ctime == ctime,
            r.fo_name@ == name@,
    {
        FileObj { fo_atime: atime, fo_mtime: mtime, fo_ctime: ctime, fo_name: name }
    }
}

} // verus!
