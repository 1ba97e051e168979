use xen_guest_agent::win_app::{
    app_action, client_followup, completion_packet, first_caption, quit_exit_code,
    window_action, AppAction, ClientFollowUp, WindowAction, WM_CLIPBOARDUPDATE, WM_CLOSE,
    WM_CREATE, WM_DESTROY,
};
use xen_guest_agent::pipe_talker::PipeTalkerResult;
use xen_guest_agent::win_service::{
    active_session, completion_key, forward_client_read, latest_host_message,
    on_service_control, service_exit_code, CompletionKey, NamedMutexGuard, ServiceControl,
    ServiceControlHandlerResult, WindowsClipboardPlugin, WindowsClipboardWorker,
    INVALID_SESSION_ID,
};
use xen_guest_agent::named_pipe::{
    NamedPipe, NamedPipeResult, WinError, ERROR_IO_PENDING, ERROR_NOT_ENOUGH_MEMORY,
    ERROR_PIPE_CONNECTED,
};
use xen_guest_agent::pipe_talker::PipeTalker;
use xen_guest_agent::wait::{classify_wait, wait_flags, WindowedWaitResult};
use xen_guest_agent::win_clipboard::{
    as_u16_box, as_u8_slice, encode_utf16, wide_z_to_string, App, Clipboard, GlobalLockGuard,
};

const PENDING: WinError = WinError { code: ERROR_IO_PENDING };

fn server_pipe() -> NamedPipe {
    NamedPipe::new(0x100, true, true, Some((1, 2, 3)))
}

fn client_pipe() -> NamedPipe {
    NamedPipe::new(0x200, true, false, Some((4, 5, 6)))
}

#[test]
fn pipe_async_results() {
    assert_eq!(NamedPipe::get_async_result::<u32>(Ok(5)), Ok(Some(5)));
    assert_eq!(NamedPipe::get_async_result::<u32>(Err(PENDING)), Ok(None));
    assert_eq!(
        NamedPipe::get_async_result::<u32>(Err(WinError { code: 5 })),
        Err(WinError { code: 5 })
    );
}

#[test]
fn pipe_read_bookkeeping() {
    let mut pipe = client_pipe();
    assert!(!pipe.is_server());
    assert_eq!(pipe.get_read_event(), Some(5));
    assert_eq!(pipe.begin_read(8, 77, Err(PENDING)), Ok(false));
    let r = pipe.end_read_evented(Ok(3), &vec![9, 8, 7, 0, 0, 0, 0, 0]).unwrap();
    assert_eq!(r, vec![9, 8, 7]);
    assert_eq!(pipe.begin_read(8, 78, Ok(())), Ok(true));
    assert_eq!(pipe.cancel_read(), Some(78));
    assert_eq!(pipe.cancel_read(), None);
    assert_eq!(pipe.begin_read(8, 79, Err(WinError { code: 109 })), Err(WinError { code: 109 }));
    assert_eq!(pipe.cancel_read(), None);
}

#[test]
fn pipe_write_and_connect_bookkeeping() {
    let mut pipe = server_pipe();
    assert!(pipe.is_server());
    assert_eq!(pipe.begin_connect(1, Err(PENDING)), Ok(false));
    assert_eq!(pipe.cancel_connect(), Some(1));
    assert_eq!(pipe.begin_connect(2, Err(WinError { code: ERROR_PIPE_CONNECTED })), Ok(true));
    assert_eq!(pipe.cancel_connect(), None);
    assert_eq!(pipe.begin_write(&[1, 2, 3], 3, Err(PENDING)), Ok(false));
    assert_eq!(pipe.end_write_evented(Ok(3)), Ok(3));
    assert_eq!(pipe.begin_write(&[1], 4, Err(PENDING)), Ok(false));
    assert_eq!(pipe.begin_read(4, 5, Err(PENDING)), Ok(false));
    assert_eq!(pipe.cancel_all_io_silent(), vec![5, 4]);
    assert_eq!(pipe.cancel_write(), None);
}

#[test]
fn pipe_complete_io_dispatch() {
    let mut pipe = server_pipe();
    pipe.begin_read(4, 10, Err(PENDING)).unwrap();
    pipe.begin_write(&[1, 2], 11, Err(PENDING)).unwrap();
    match pipe.complete_io(11, Ok(2), &vec![]) {
        Ok(NamedPipeResult::Written(2)) => {},
        _ => panic!("write completion expected"),
    }
    match pipe.complete_io(10, Ok(2), &vec![4, 5, 6, 7]) {
        Ok(NamedPipeResult::Read(v)) => assert_eq!(v, vec![4, 5]),
        _ => panic!("read completion expected"),
    }
    pipe.begin_connect(12, Err(PENDING)).unwrap();
    assert!(matches!(pipe.complete_io(12, Err(WinError { code: 232 }), &vec![]), Err(WinError { code: 232 })));
}

#[test]
fn talker_frames_and_reads_back_a_message() {
    let mut server = PipeTalker::create(server_pipe(), 16, 64);
    let out = server.queue_write(Some(&b"hi"[..])).unwrap();
    assert_eq!(out, Some(vec![2, 0, 0, 0, b'h', b'i']));
    assert_eq!(server.begin_write(20, Err(PENDING)), Ok(false));
    assert_eq!(server.queue_write(Some(&b""[..])).unwrap(), None);
    assert_eq!(server.end_write(Ok(6)), Ok(()));
    let out = server.queue_write(None).unwrap();
    assert_eq!(out, Some(vec![0, 0, 0, 0]));

    let mut client = PipeTalker::open(client_pipe(), 16, 64);
    assert_eq!(client.read_size(), 4);
    assert_eq!(client.begin_read(30, Err(PENDING)), Ok(false));
    assert_eq!(client.end_read(Ok(4), &vec![2, 0, 0, 0]), Ok(None));
    assert_eq!(client.read_size(), 2);
    assert_eq!(client.begin_read(31, Ok(())), Ok(true));
    assert_eq!(client.end_read(Ok(2), &b"hi".to_vec()), Ok(Some(b"hi".to_vec())));
    assert_eq!(client.read_size(), 4);
}

#[test]
fn talker_reads_a_frame_cut_in_pieces() {
    let mut client = PipeTalker::open(client_pipe(), 16, 64);
    assert_eq!(client.read_size(), 4);
    client.begin_read(40, Err(PENDING)).unwrap();
    assert_eq!(client.end_read(Ok(2), &vec![3, 0, 0, 0]), Ok(None));
    assert_eq!(client.read_size(), 2);
    client.begin_read(41, Err(PENDING)).unwrap();
    assert_eq!(client.end_read(Ok(2), &vec![0, 0]), Ok(None));
    assert_eq!(client.read_size(), 3);
    client.begin_read(42, Err(PENDING)).unwrap();
    assert_eq!(client.end_read(Ok(1), &b"abc".to_vec()), Ok(None));
    assert_eq!(client.read_size(), 2);
    assert_eq!(client.begin_read(43, Ok(())), Ok(true));
    assert_eq!(client.end_read(Ok(2), &b"yz".to_vec()), Ok(Some(b"ayz".to_vec())));
    assert_eq!(client.read_size(), 4);
}

#[test]
fn clipboard_agent_sends_on_update() {
    let mut client = PipeTalker::open(client_pipe(), 16, 64);
    let out = App::on_clipboard_update(&mut client, &[0x68, 0xE9, 0, 0x41]).unwrap();
    assert_eq!(out, Some(vec![3, 0, 0, 0, b'h', 0xC3, 0xA9]));
    assert_eq!(client.begin_write(50, Ok(())), Ok(true));
    assert_eq!(client.queue_write(None), Ok(None));
    let out = App::on_clipboard_update(&mut client, &[0x7A]).unwrap();
    assert_eq!(out, None);
    assert_eq!(client.end_write(Ok(7)), Ok(()));
    assert_eq!(client.queue_write(None), Ok(Some(vec![1, 0, 0, 0, b'z'])));
    let mut small = PipeTalker::open(client_pipe(), 2, 64);
    assert_eq!(
        App::on_clipboard_update(&mut small, &[0x61, 0x62, 0x63, 0]),
        Err(WinError { code: ERROR_NOT_ENOUGH_MEMORY })
    );
}

#[test]
fn clipboard_worker_finishes_packets() {
    let mut w = WindowsClipboardWorker::new();
    w.set_free_client(PipeTalker::create(server_pipe(), 16, 64));
    w.add_client(5, PipeTalker::create(server_pipe(), 16, 64));
    w.add_client(6, PipeTalker::create(server_pipe(), 16, 64));
    assert!(!w.finish_packet(u64::MAX - 2, Err(5)));
    assert!(!w.needs_free_client());
    assert!(w.finish_packet(u64::MAX, Ok(())));
    assert!(!w.needs_free_client());
    assert!(w.finish_packet(u64::MAX - 1, Ok(())));
    assert!(w.finish_packet(5, Err(0)));
    assert!(w.take_client(5).is_none());
    assert!(w.finish_packet(u64::MAX - 1, Err(6)));
    assert!(w.take_client(6).is_none());
    assert!(w.finish_packet(u64::MAX, Err(0)));
    assert!(w.needs_free_client());
}

#[test]
fn talker_ping_and_limits() {
    let mut client = PipeTalker::open(client_pipe(), 16, 8);
    client.begin_read(1, Err(PENDING)).unwrap();
    assert_eq!(client.end_read(Ok(4), &vec![0, 0, 0, 0]), Ok(None));
    assert_eq!(client.read_size(), 4);
    client.begin_read(2, Err(PENDING)).unwrap();
    assert_eq!(
        client.end_read(Ok(4), &vec![17, 0, 0, 0]),
        Err(WinError { code: ERROR_NOT_ENOUGH_MEMORY })
    );
    let mut writer = PipeTalker::open(client_pipe(), 16, 8);
    assert_eq!(
        writer.queue_write(Some(&[0u8; 17][..])),
        Err(WinError { code: ERROR_NOT_ENOUGH_MEMORY })
    );
    let mut writer = PipeTalker::open(client_pipe(), 16, 8);
    assert_eq!(
        writer.queue_write(Some(&[0u8; 5][..])),
        Err(WinError { code: ERROR_NOT_ENOUGH_MEMORY })
    );
}

#[test]
fn talker_connect_and_pipe_errors() {
    let mut server = PipeTalker::create(server_pipe(), 16, 64);
    assert_eq!(server.begin_connect(1, Err(PENDING)), Ok(false));
    assert_eq!(server.end_connect(Err(WinError { code: 995 })), Err(WinError { code: 995 }));
    let mut server = PipeTalker::create(server_pipe(), 16, 64);
    assert_eq!(server.begin_connect(1, Err(PENDING)), Ok(false));
    assert_eq!(server.end_connect(Ok(0)), Ok(()));
    assert_eq!(
        server.begin_connect(2, Err(WinError { code: ERROR_PIPE_CONNECTED })),
        Ok(true)
    );
    let mut reader = PipeTalker::open(client_pipe(), 16, 64);
    reader.begin_read(3, Err(PENDING)).unwrap();
    assert_eq!(reader.end_read(Err(WinError { code: 109 }), &vec![]), Err(WinError { code: 109 }));
}

#[test]
fn waits_are_classified() {
    assert_eq!(wait_flags(true, true, false), 0x6);
    assert_eq!(wait_flags(false, false, true), 0x1);
    assert_eq!(classify_wait(2, 2, false, 0xFFFF_FFFF), Some(WindowedWaitResult::Input));
    assert_eq!(classify_wait(1, 2, false, 0xFFFF_FFFF), Some(WindowedWaitResult::Handle(1)));
    assert_eq!(classify_wait(0x81, 2, false, 0xFFFF_FFFF), Some(WindowedWaitResult::Abandoned(1)));
    assert_eq!(classify_wait(0xC0, 2, true, 0xFFFF_FFFF), Some(WindowedWaitResult::IoCompletion));
    assert_eq!(classify_wait(0x102, 2, false, 10), Some(WindowedWaitResult::Timeout));
    assert_eq!(classify_wait(0xFFFF_FFFF, 2, false, 10), None);
}

#[test]
fn clipboard_text_conversions() {
    assert_eq!(App::on_pipe_msg("hé😀".as_bytes()), vec![0x68, 0xE9, 0xD83D, 0xDE00, 0]);
    assert_eq!(App::on_pipe_msg(&[b'a', 0xFF]), vec![0x61, 0xFFFD, 0]);
    assert_eq!(App::clipboard_message(&[0x68, 0xD83D, 0xDE00, 0, 0x41]), "h😀");
    assert_eq!(wide_z_to_string(&[0xD800, 0x41, 0xDC00]), "\u{FFFD}A\u{FFFD}");
    assert_eq!(encode_utf16("a😀"), vec![0x61, 0xD83D, 0xDE00]);
    assert_eq!(as_u8_slice(&[0x1234, 0x00FF]).unwrap(), vec![0x34, 0x12, 0xFF, 0x00]);
    assert_eq!(as_u16_box(&[0x34, 0x12, 0xFF]), vec![0x1234]);
    let cb = Clipboard;
    let block = GlobalLockGuard::new(vec![0x41u8, 0, 0, 0]);
    assert_eq!(cb.get_wide_z(&block), vec![0x41, 0]);
    assert_eq!(cb.get(&block), vec![0x41, 0, 0, 0]);
    assert_eq!(cb.set_wide_z(&[0x41, 0]).unwrap(), vec![0x41, 0, 0, 0]);
    let mut block = GlobalLockGuard::new(vec![1u16, 2]);
    block.get_mut()[0] = 7;
    assert_eq!(block.get(), &[7, 2]);
}

#[test]
fn talker_complete_io_dispatch() {
    let mut t = PipeTalker::create(NamedPipe::new(0x300, true, true, None), 16, 64);
    assert_eq!(t.begin_connect(1, Err(PENDING)), Ok(false));
    assert!(matches!(t.complete_io(1, Ok(0), &vec![]), Ok(PipeTalkerResult::Connected)));
    t.begin_read(2, Err(PENDING)).unwrap();
    match t.complete_io(2, Ok(4), &vec![1, 0, 0, 0]) {
        Ok(PipeTalkerResult::Read(None)) => {},
        _ => panic!("length read expected"),
    }
    t.begin_read(3, Err(PENDING)).unwrap();
    match t.complete_io(3, Ok(1), &vec![b'z']) {
        Ok(PipeTalkerResult::Read(Some(m))) => assert_eq!(m, vec![b'z']),
        _ => panic!("message expected"),
    }
    let bytes = t.queue_write(Some(&b"ok"[..])).unwrap().unwrap();
    assert_eq!(bytes, vec![2, 0, 0, 0, b'o', b'k']);
    t.begin_write(4, Err(PENDING)).unwrap();
    assert!(matches!(t.complete_io(4, Ok(3), &vec![]), Ok(PipeTalkerResult::Written)));
    assert_eq!(t.queue_write(None).unwrap(), Some(vec![0, b'o', b'k']));
}

#[test]
fn clipboard_service_decisions() {
    assert_eq!(completion_key(u64::MAX), CompletionKey::FreeClient);
    assert_eq!(completion_key(u64::MAX - 1), CompletionKey::SetClipboard);
    assert_eq!(completion_key(u64::MAX - 2), CompletionKey::Stop);
    assert_eq!(completion_key(3), CompletionKey::Client(3));
    assert_eq!(active_session(INVALID_SESSION_ID), Err(WinError { code: 2 }));
    assert_eq!(active_session(1), Ok(1));
    assert!(forward_client_read(Ok(1), 1));
    assert!(!forward_client_read(Ok(1), 2));
    assert!(!forward_client_read(Err(WinError { code: 2 }), 1));
    assert_eq!(latest_host_message(vec![vec![1], vec![2]]), Some(vec![2]));
    assert_eq!(latest_host_message(vec![]), None);

    let mut w = WindowsClipboardWorker::new();
    assert!(w.needs_free_client());
    w.set_free_client(PipeTalker::create(server_pipe(), 16, 64));
    assert!(!w.needs_free_client());
    let c = w.take_free_client().unwrap();
    w.add_client(4, c);
    assert!(w.take_client(4).is_some());
    assert!(w.take_client(4).is_none());
    w.add_client(5, PipeTalker::create(server_pipe(), 16, 64));
    w.drop_failed(5);
    assert!(w.take_client(5).is_none());

    let mut p = WindowsClipboardPlugin::new();
    assert_eq!(p.on_set_clipboard("first".to_string()), None);
    assert_eq!(p.on_set_clipboard("second".to_string()), None);
    assert_eq!(p.on_set_clipboard(String::new()), Some("first\r\nsecond\r\n".to_string()));
    assert_eq!(p.on_set_clipboard(String::new()), Some(String::new()));

    assert!(NamedMutexGuard::new(9, 0).is_some());
    assert!(NamedMutexGuard::new(9, 183).is_none());
    assert_eq!(on_service_control(ServiceControl::Stop), (true, ServiceControlHandlerResult::NoError));
    assert_eq!(
        on_service_control(ServiceControl::Other),
        (false, ServiceControlHandlerResult::NotImplemented)
    );
    assert_eq!(service_exit_code(true), 0);
    assert_eq!(service_exit_code(false), 87);
}

#[test]
fn pipe_disconnect_cancels_evented_io() {
    let mut pipe = server_pipe();
    pipe.begin_read(4, 1, Err(PENDING)).unwrap();
    assert_eq!(pipe.disconnect(), vec![1]);
    let mut plain = NamedPipe::new(0x400, true, true, None);
    plain.begin_read(4, 2, Err(PENDING)).unwrap();
    assert!(plain.disconnect().is_empty());
    assert_eq!(plain.cancel_read(), Some(2));
}

#[test]
fn host_clipboard_goes_to_console_session() {
    let mut w = WindowsClipboardWorker::new();
    w.add_client(1, PipeTalker::create(server_pipe(), 16, 64));
    let (sid, r) = w.send_host_msg_to_client(1, b"hi");
    assert_eq!(sid, 1);
    assert_eq!(r, Ok(Some(vec![2, 0, 0, 0, b'h', b'i'])));
    let (sid, r) = w.send_host_msg_to_client(2, b"hi");
    assert_eq!(sid, 2);
    assert_eq!(r, Err(WinError { code: 2 }));
    let (_, r) = w.send_host_msg_to_client(1, &[0u8; 17]);
    assert_eq!(r, Err(WinError { code: ERROR_NOT_ENOUGH_MEMORY }));
    assert!(w.take_client(1).is_none());
}

#[test]
fn clipboard_agent_loop_decisions() {
    assert_eq!(window_action(WM_CREATE), WindowAction::ListenClipboard);
    assert_eq!(window_action(WM_CLIPBOARDUPDATE), WindowAction::ClipboardUpdate);
    assert_eq!(window_action(WM_CLOSE), WindowAction::Close);
    assert_eq!(window_action(WM_DESTROY), WindowAction::Quit);
    assert_eq!(window_action(0x0200), WindowAction::Default);
    assert_eq!(quit_exit_code(3), 3);
    assert_eq!(quit_exit_code(300), 1);
    assert_eq!(app_action(WindowedWaitResult::Input), AppAction::WindowMessages);
    assert_eq!(app_action(WindowedWaitResult::Handle(0)), AppAction::ReadDone);
    assert_eq!(app_action(WindowedWaitResult::Handle(1)), AppAction::WriteDone);
    let p = completion_packet(Ok(5), 10, 2).unwrap();
    assert_eq!((p.overlapped, p.key, p.result), (10, 2, Ok(5)));
    assert!(completion_packet(Err(WinError { code: 6 }), 0, 2).is_err());
    let p = completion_packet(Err(WinError { code: 109 }), 10, 2).unwrap();
    assert_eq!(p.result, Err(WinError { code: 109 }));
    match client_followup(Ok(2), 2, PipeTalkerResult::Read(Some(vec![1]))) {
        ClientFollowUp::ReadAgain { message, forward } => {
            assert_eq!(message, Some(vec![1]));
            assert!(forward);
        },
        _ => panic!("read follow-up expected"),
    }
    match client_followup(Ok(3), 2, PipeTalkerResult::Read(Some(vec![1]))) {
        ClientFollowUp::ReadAgain { forward, .. } => assert!(!forward),
        _ => panic!("read follow-up expected"),
    }
    assert!(matches!(client_followup(Ok(2), 2, PipeTalkerResult::Written), ClientFollowUp::WriteQueued));
    assert_eq!(first_caption(&vec![None, Some("Windows 11".to_string()), Some("x".to_string())]), Some("Windows 11".to_string()));
    assert_eq!(first_caption(&vec![None]), None);
}

#[test]
fn utf16_and_byte_round_trips() {
    let text = "Zürich 😀 ∑";
    let units = App::on_pipe_msg(text.as_bytes());
    assert_eq!(App::clipboard_message(&units), text);
    let raw = vec![0x0041u16, 0xD83D, 0xDE00, 0xFFFF, 0];
    assert_eq!(as_u16_box(&as_u8_slice(&raw).unwrap()), raw);
}
