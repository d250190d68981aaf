use llvm_sys_query::viewer::{
    AppContext, AppError, AppEvent, AppRequests, CursorBox, EventId, EventIdCounter, EventSource,
    KeyCode, LoopAction, TermEvent, TermSize, ViewState,
};

#[test]
fn requests_start_empty_and_keep_an_exit() {
    let mut r = AppRequests::new();
    assert!(!r.exit_requested());
    r.request_exit();
    assert!(r.exit_requested());
    r.request_exit();
    assert!(r.exit_requested());
}

#[test]
fn context_starts_blank() {
    let c = AppContext::new();
    assert!(!c.focused);
    assert_eq!(c.size, TermSize { width: 0, height: 0 });
    assert_eq!(c.last_mouse_pos, None);
}

#[test]
fn escape_asks_for_exit() {
    let mut s = ViewState::new();
    assert!(s.handle_event(AppEvent::Term(TermEvent::Key(KeyCode::Other))).is_ok());
    assert!(!s.requests.exit_requested());
    assert!(s.handle_event(AppEvent::Term(TermEvent::Key(KeyCode::Esc))).is_ok());
    assert!(s.requests.exit_requested());
    assert!(s.handle_event(AppEvent::Term(TermEvent::FocusLost)).is_ok());
    assert!(s.requests.exit_requested());
}

#[test]
fn terminal_events_update_the_context() {
    let mut s = ViewState::new();
    s.handle_event(AppEvent::Term(TermEvent::FocusGained)).unwrap();
    assert!(s.ctx.focused);
    s.handle_event(AppEvent::Term(TermEvent::Resize { width: 80, height: 24 })).unwrap();
    assert_eq!(s.ctx.size, TermSize { width: 80, height: 24 });
    assert_eq!(s.cursor(), None);
    s.handle_event(AppEvent::Term(TermEvent::Mouse { column: 3, row: 4 })).unwrap();
    assert_eq!(s.ctx.last_mouse_pos, Some((3, 4)));
    assert_eq!(s.cursor(), Some(CursorBox(3, 4)));
    s.handle_event(AppEvent::Term(TermEvent::Paste(String::from("text")))).unwrap();
    assert_eq!(s.cursor(), Some(CursorBox(3, 4)));
    s.handle_event(AppEvent::Term(TermEvent::FocusLost)).unwrap();
    assert!(!s.ctx.focused);
    assert!(!s.requests.exit_requested());
}

#[test]
fn an_io_error_stops_the_viewer() {
    let mut s = ViewState::new();
    let err = std::io::Error::new(std::io::ErrorKind::Other, "poll failed");
    let res = s.handle_event(AppEvent::IoError(EventSource::Crossterm, Box::new(err)));
    match res {
        Err(AppError::Io(e)) => assert_eq!(e.to_string(), "poll failed"),
        _ => panic!("expected an I/O error"),
    }
    assert!(!s.requests.exit_requested());
    assert!(!s.ctx.focused);
}

#[test]
fn recv_error_variant() {
    let e = AppError::Recv(std::sync::mpsc::RecvError);
    assert!(matches!(e, AppError::Recv(_)));
}

#[test]
fn event_ids_count_up_from_two_to_the_32() {
    let mut counter = EventIdCounter::new();
    let a = EventId::unique(&mut counter);
    let b = EventId::unique(&mut counter);
    let c = EventId::unique(&mut counter);
    assert!(a.eq(a));
    assert!(!a.eq(b));
    assert!(a.ne(b));
    assert!(!b.ne(b));
    assert!(b.ne(c));
    assert!(a < b && b < c);
    assert_eq!(format!("{:?}", a), "EventId(4294967296)");
    assert_eq!(format!("{:?}", c), "EventId(4294967298)");
}

#[test]
fn app_error_messages() {
    let e = AppError::Io(std::io::Error::new(std::io::ErrorKind::Other, "broken"));
    assert_eq!(e.message(), "IO Error: broken");
    let e = AppError::Recv(std::sync::mpsc::RecvError);
    assert_eq!(e.message(), format!("Receive Error: {}", std::sync::mpsc::RecvError));
}

#[test]
fn handlers_do_what_events_do() {
    let mut by_event = ViewState::new();
    let mut by_handler = ViewState::new();
    by_event.handle_event(AppEvent::Term(TermEvent::Mouse { column: 7, row: 2 })).unwrap();
    by_handler.handle_mouse(7, 2).unwrap();
    assert_eq!(by_event.ctx.last_mouse_pos, by_handler.ctx.last_mouse_pos);
    by_event.handle_event(AppEvent::Term(TermEvent::Paste(String::from("p")))).unwrap();
    by_handler.handle_paste(String::from("p")).unwrap();
    assert_eq!(by_event.cursor(), by_handler.cursor());
    by_event.handle_event(AppEvent::Term(TermEvent::Key(KeyCode::Esc))).unwrap();
    by_handler.handle_key(KeyCode::Esc).unwrap();
    assert!(by_event.requests.exit_requested() && by_handler.requests.exit_requested());
}

#[test]
fn eq_and_ne_agree_with_derived_equality() {
    let mut counter = EventIdCounter::new();
    let a = EventId::unique(&mut counter);
    let b = EventId::unique(&mut counter);
    let a2 = a;
    assert_eq!(a.eq(a2), a == a2);
    assert_eq!(a.eq(b), a == b);
    assert_eq!(a.ne(b), a != b);
    assert_eq!(a.ne(a2), a != a2);
}

#[test]
fn a_fresh_counter_hands_out_distinct_ids() {
    let mut counter = EventIdCounter::new();
    let ids: Vec<EventId> = (0..1000).map(|_| EventId::unique(&mut counter)).collect();
    for (k, id) in ids.iter().enumerate() {
        assert_eq!(format!("{:?}", id), format!("EventId({})", 4294967296u64 + k as u64));
    }
    for i in 0..ids.len() {
        for j in (i + 1)..ids.len() {
            assert!(ids[i].ne(ids[j]));
        }
    }
}

#[test]
fn exit_requests_follow_the_calls() {
    let mut r = AppRequests::new();
    for _ in 0..3 {
        assert!(!r.exit_requested());
    }
    r.request_exit();
    for _ in 0..3 {
        assert!(r.exit_requested());
    }
}

#[test]
fn step_stops_after_escape() {
    let mut s = ViewState::new();
    assert_eq!(s.next_action(), LoopAction::Draw);
    assert_eq!(s.step(AppEvent::Term(TermEvent::FocusGained)).unwrap(), LoopAction::Draw);
    assert_eq!(s.step(AppEvent::Term(TermEvent::Key(KeyCode::Esc))).unwrap(), LoopAction::Stop);
    assert_eq!(s.step(AppEvent::Term(TermEvent::Key(KeyCode::Other))).unwrap(), LoopAction::Stop);
    let err = std::io::Error::new(std::io::ErrorKind::Other, "gone");
    assert!(s.step(AppEvent::IoError(EventSource::Crossterm, Box::new(err))).is_err());
}

#[test]
fn cursor_boxes_order_by_column_then_row() {
    assert!(CursorBox(1, 9) < CursorBox(2, 0));
    assert!(CursorBox(2, 0) < CursorBox(2, 1));
}
