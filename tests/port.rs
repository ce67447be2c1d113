use eventport::error::{errno, PortError, EBADF, EINVAL, ENOENT, ETIME};
use eventport::event::{
    FileObj, PortEvent, Timestruct, FILE_ACCESS, FILE_DELETE, FILE_EXCEPTION, FILE_MODIFIED,
    PORT_ALERT_INVALID, PORT_ALERT_SET, PORT_ALERT_UPDATE, PORT_SOURCE_ALERT, PORT_SOURCE_FD,
    PORT_SOURCE_AIO, PORT_SOURCE_FILE, PORT_SOURCE_MQ, PORT_SOURCE_TIMER, PORT_SOURCE_USER,
};
use eventport::model::is_one_shot;
use eventport::port::Ports;

fn zero() -> Option<Timestruct> {
    Some(Timestruct::new(0, 0))
}

#[test]
fn invalid_close_errno() {
    let mut ports = Ports::new(16, 16);
    let e = errno(&Ok::<(), PortError>(()));
    println!(" * pre close errno = {}", e);
    let r = ports.close(100000);
    assert!(r.is_err());
    let e = errno(&r);
    assert_eq!(e, EBADF);
    println!(" * post bad close errno = {}", e);
}

#[test]
fn open_and_close_port() {
    let mut ports = Ports::new(16, 16);
    let fd = match ports.create() {
        Ok(fd) => fd,
        Err(_) => panic!("could not create port"),
    };
    println!(" * port fd: {}", fd);

    assert_eq!(ports.close(fd), Ok(()));
}

#[test]
fn test_no_events() {
    let mut ports = Ports::new(16, 16);
    let fd = match ports.create() {
        Ok(fd) => fd,
        Err(_) => panic!("could not create port"),
    };
    println!(" * port fd: {}", fd);

    const EVENTS: i32 = 1;
    assert_eq!(ports.get(fd, None), Ok(None));
    let r = ports.alert(fd, PORT_ALERT_UPDATE, EVENTS, 0);
    if r.is_err() {
        panic!("port_alert failed: {}", errno(&r));
    }

    let pe = match ports.get(fd, None) {
        Ok(Some(pe)) => pe,
        other => panic!("port_get failed: {:?}", other),
    };
    assert_eq!(pe.portev_events, EVENTS);
    assert_eq!(pe.portev_source, PORT_SOURCE_ALERT as u16);
    println!("port_get ok!");

    assert_eq!(ports.close(fd), Ok(()));
}

#[test]
fn associate_then_dissociate_removes_entry() {
    let mut ports = Ports::new(4, 4);
    let h = ports.create().unwrap();
    assert_eq!(ports.associate(h, PORT_SOURCE_FD, 7, 1, 99), Ok(()));
    assert_eq!(ports.dissociate(h, PORT_SOURCE_FD, 7), Ok(()));
    let r = ports.dissociate(h, PORT_SOURCE_FD, 7);
    assert_eq!(r, Err(PortError::NotFound));
    assert_eq!(errno(&r), ENOENT);
    assert_eq!(ports.deliver(h, PORT_SOURCE_FD, 7, 1), Err(PortError::NotFound));
}

#[test]
fn reassociate_replaces_mask_and_user() {
    let mut ports = Ports::new(4, 4);
    let h = ports.create().unwrap();
    assert_eq!(ports.associate(h, PORT_SOURCE_TIMER, 3, 0b0011, 10), Ok(()));
    assert_eq!(ports.associate(h, PORT_SOURCE_TIMER, 3, 0b0100, 20), Ok(()));
    // the old mask is gone: bits of it alone queue nothing
    assert_eq!(ports.deliver(h, PORT_SOURCE_TIMER, 3, 0b0011), Ok(false));
    assert_eq!(ports.deliver(h, PORT_SOURCE_TIMER, 3, 0b0111), Ok(true));
    let e = ports.get(h, zero()).unwrap().unwrap();
    assert_eq!(e, PortEvent::new(0b0100, PORT_SOURCE_TIMER as u16, 3, 20));
}

#[test]
fn zero_timeout_on_empty_queue_times_out() {
    let mut ports = Ports::new(4, 4);
    let h = ports.create().unwrap();
    let r = ports.get(h, zero());
    assert_eq!(r, Err(PortError::TimedOut));
    assert_eq!(errno(&r), ETIME);
    assert_eq!(ports.send(h, 5, 6), Ok(()));
    assert_eq!(ports.get(h, zero()), Ok(Some(PortEvent::new(5, PORT_SOURCE_USER as u16, 0, 6))));
    assert_eq!(ports.get(h, zero()), Err(PortError::TimedOut));
}

#[test]
fn waiting_get_is_woken_by_send_and_close() {
    let mut ports = Ports::new(4, 4);
    let h = ports.create().unwrap();
    assert_eq!(ports.get(h, None), Ok(None));
    assert_eq!(ports.get(h, Some(Timestruct::new(1, 500))), Ok(None));
    assert_eq!(ports.send(h, 1, 2), Ok(()));
    assert_eq!(ports.get(h, None), Ok(Some(PortEvent::new(1, PORT_SOURCE_USER as u16, 0, 2))));
    assert_eq!(ports.get(h, None), Ok(None));
    assert_eq!(ports.close(h), Ok(()));
    assert_eq!(ports.get(h, None), Err(PortError::BadHandle));
}

#[test]
fn two_update_alerts_merge_into_one_record() {
    let mut ports = Ports::new(4, 4);
    let h = ports.create().unwrap();
    assert_eq!(ports.alert(h, PORT_ALERT_UPDATE, 0b01, 7), Ok(()));
    assert_eq!(ports.alert(h, PORT_ALERT_UPDATE, 0b10, 8), Ok(()));
    let got = ports.get_many(h, 5, zero()).unwrap();
    assert_eq!(got.len(), 1);
    assert_eq!(got[0], PortEvent::new(0b11, PORT_SOURCE_ALERT as u16, 0, 7));
    assert_eq!(ports.get(h, zero()), Err(PortError::TimedOut));
}

#[test]
fn set_alert_overwrites_pending_alert() {
    let mut ports = Ports::new(4, 4);
    let h = ports.create().unwrap();
    assert_eq!(ports.send(h, 9, 9), Ok(()));
    assert_eq!(ports.alert(h, PORT_ALERT_SET, 0b01, 7), Ok(()));
    assert_eq!(ports.alert(h, PORT_ALERT_SET, 0b10, 8), Ok(()));
    let got = ports.get_many(h, 5, zero()).unwrap();
    assert_eq!(got.len(), 2);
    assert_eq!(got[1], PortEvent::new(0b10, PORT_SOURCE_ALERT as u16, 0, 8));
}

#[test]
fn alert_with_bad_flags_is_refused() {
    let mut ports = Ports::new(4, 4);
    let h = ports.create().unwrap();
    assert_eq!(ports.alert(h, PORT_ALERT_INVALID, 1, 0), Err(PortError::InvalidArgument));
    let r = ports.alert(h, 0, 1, 0);
    assert_eq!(r, Err(PortError::InvalidArgument));
    assert_eq!(errno(&r), EINVAL);
}

#[test]
fn send_many_reports_each_handle() {
    let mut ports = Ports::new(4, 4);
    let a = ports.create().unwrap();
    let b = ports.create().unwrap();
    let c = ports.create().unwrap();
    assert_eq!(ports.close(b), Ok(()));
    let r = ports.send_many(&vec![a, b, c], 4, 5);
    assert_eq!(r, vec![Ok(()), Err(PortError::BadHandle), Ok(())]);
    let rec = PortEvent::new(4, PORT_SOURCE_USER as u16, 0, 5);
    assert_eq!(ports.get(a, zero()), Ok(Some(rec)));
    assert_eq!(ports.get(c, zero()), Ok(Some(rec)));
}

#[test]
fn get_many_returns_what_is_ready() {
    let mut ports = Ports::new(4, 8);
    let h = ports.create().unwrap();
    for i in 0..3 {
        assert_eq!(ports.send(h, 1, i), Ok(()));
    }
    let got = ports.get_many(h, 5, None).unwrap();
    assert_eq!(got.len(), 3);
    for (i, e) in got.iter().enumerate() {
        assert_eq!(e.portev_user, i);
    }
    assert_eq!(ports.get_many(h, 5, None), Ok(vec![]));
    assert_eq!(ports.get_many(h, 5, zero()), Err(PortError::TimedOut));
}

#[test]
fn get_many_stops_at_max() {
    let mut ports = Ports::new(4, 8);
    let h = ports.create().unwrap();
    for i in 0..4 {
        assert_eq!(ports.send(h, 1, i), Ok(()));
    }
    assert_eq!(ports.get_many(h, 3, zero()).unwrap().len(), 3);
    assert_eq!(ports.get_many(h, 3, zero()).unwrap().len(), 1);
    assert_eq!(ports.get_many(h, 0, zero()), Err(PortError::InvalidArgument));
}

#[test]
fn one_shot_association_is_consumed_on_retrieval() {
    let mut ports = Ports::new(4, 8);
    let h = ports.create().unwrap();
    assert_eq!(ports.associate(h, PORT_SOURCE_FD, 3, 1, 0), Ok(()));
    assert_eq!(ports.associate(h, PORT_SOURCE_TIMER, 3, 1, 0), Ok(()));
    assert_eq!(ports.deliver(h, PORT_SOURCE_FD, 3, 1), Ok(true));
    assert_eq!(ports.deliver(h, PORT_SOURCE_TIMER, 3, 1), Ok(true));
    assert_eq!(ports.get_many(h, 2, zero()).unwrap().len(), 2);
    assert_eq!(ports.dissociate(h, PORT_SOURCE_FD, 3), Err(PortError::NotFound));
    assert_eq!(ports.dissociate(h, PORT_SOURCE_TIMER, 3), Ok(()));
}

#[test]
fn associate_checks_source_and_mask() {
    let mut ports = Ports::new(4, 1);
    let h = ports.create().unwrap();
    assert_eq!(ports.associate(h, PORT_SOURCE_USER, 1, 1, 0), Err(PortError::NotSupported));
    assert_eq!(ports.associate(h, PORT_SOURCE_ALERT, 1, 1, 0), Err(PortError::NotSupported));
    assert_eq!(ports.associate(h, 42, 1, 1, 0), Err(PortError::NotSupported));
    assert_eq!(ports.associate(h, PORT_SOURCE_FILE, 1, 0x8, 0), Err(PortError::InvalidArgument));
    assert_eq!(ports.associate(h, PORT_SOURCE_FILE, 1, FILE_ACCESS | FILE_MODIFIED | FILE_EXCEPTION, 0), Ok(()));
    assert_eq!(ports.associate(h, PORT_SOURCE_FD, 2, 1, 0), Err(PortError::OutOfMemory));
    // replacing an entry needs no room
    assert_eq!(ports.associate(h, PORT_SOURCE_FILE, 1, FILE_DELETE, 5), Ok(()));
    assert_eq!(ports.deliver(h, PORT_SOURCE_FILE, 1, FILE_DELETE | FILE_ACCESS), Ok(true));
    assert_eq!(ports.get(h, zero()), Ok(Some(PortEvent::new(FILE_DELETE, PORT_SOURCE_FILE as u16, 1, 5))));
}

#[test]
fn full_queue_would_block() {
    let mut ports = Ports::new(4, 1);
    let h = ports.create().unwrap();
    assert_eq!(ports.send(h, 1, 1), Ok(()));
    assert_eq!(ports.send(h, 1, 2), Err(PortError::WouldBlock));
    assert_eq!(ports.alert(h, PORT_ALERT_SET, 1, 2), Err(PortError::WouldBlock));
    assert_eq!(ports.get(h, zero()), Ok(Some(PortEvent::new(1, PORT_SOURCE_USER as u16, 0, 1))));
}

#[test]
fn handles_are_limited_and_never_reused() {
    let mut ports = Ports::new(2, 1);
    assert_eq!(ports.create(), Ok(0));
    assert_eq!(ports.create(), Ok(1));
    assert_eq!(ports.create(), Err(PortError::TooManyHandles));
    assert_eq!(ports.close(1), Ok(()));
    assert_eq!(ports.close(1), Err(PortError::BadHandle));
    assert_eq!(ports.close(-1), Err(PortError::BadHandle));
    assert_eq!(ports.send(1, 1, 1), Err(PortError::BadHandle));
    assert_eq!(ports.associate(1, PORT_SOURCE_FD, 1, 1, 1), Err(PortError::BadHandle));
}

#[test]
fn invalid_timeout_is_refused() {
    let mut ports = Ports::new(2, 1);
    let h = ports.create().unwrap();
    assert_eq!(ports.get(h, Some(Timestruct::new(-1, 0))), Err(PortError::InvalidArgument));
    assert_eq!(ports.get(h, Some(Timestruct::new(0, 1_000_000_000))), Err(PortError::InvalidArgument));
}

#[test]
fn error_codes() {
    let all = [
        (PortError::NotFound, 2),
        (PortError::Interrupted, 4),
        (PortError::BadHandle, 9),
        (PortError::WouldBlock, 11),
        (PortError::OutOfMemory, 12),
        (PortError::AccessDenied, 13),
        (PortError::Fault, 14),
        (PortError::Busy, 16),
        (PortError::InvalidArgument, 22),
        (PortError::TooManyHandles, 24),
        (PortError::NotSupported, 48),
        (PortError::TimedOut, 62),
        (PortError::BadHandleState, 81),
    ];
    for (e, c) in all.iter() {
        assert_eq!(e.code(), *c);
    }
    assert!(PortError::TimedOut.is_transient());
    assert!(!PortError::BadHandle.is_transient());
    assert_eq!(FILE_EXCEPTION, 0x6000_0070);
}

#[test]
fn records_and_timestamps() {
    let t = Timestruct::new(3, 4);
    assert!(!t.is_zero());
    assert!(Timestruct::new(0, 0).is_zero());
    let f = FileObj::new(t, t, Timestruct::new(5, 6), String::from("a.txt"));
    assert_eq!(f.fo_name, "a.txt");
    assert_eq!(f.fo_ctime, Timestruct::new(5, 6));
}

#[test]
fn errno_reads_the_callers_own_result() {
    let mut ports = Ports::new(4, 4);
    let h = ports.create().unwrap();
    let mine = ports.get(h, zero());
    // another caller's failure does not change the code of this result
    let other = ports.close(-1);
    assert_eq!(errno(&other), EBADF);
    assert_eq!(errno(&mine), ETIME);
    assert_eq!(errno(&ports.send(h, 1, 1)), 0);
    let fanned = ports.send_many(&vec![h, 7], 1, 1);
    assert_eq!(errno(&fanned[0]), 0);
    assert_eq!(errno(&fanned[1]), EBADF);
}

#[test]
fn one_shot_policy_per_source() {
    assert!(is_one_shot(PORT_SOURCE_FD));
    assert!(is_one_shot(PORT_SOURCE_FILE));
    assert!(!is_one_shot(PORT_SOURCE_TIMER));
    assert!(!is_one_shot(PORT_SOURCE_AIO));
    assert!(!is_one_shot(PORT_SOURCE_MQ));
    assert!(!is_one_shot(PORT_SOURCE_USER));
    assert!(!is_one_shot(PORT_SOURCE_ALERT));
}
