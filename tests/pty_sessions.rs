use claude_arcade::pty::{
    session_workers, shell_environment, ExitWatcher, OutputRelay, PtyError, PtyManager, SessionHandle,
};

/// An in-memory terminal: records what is written and the last size.
struct FakeTerminal {
    input: Vec<u8>,
    flushed: usize,
    size: (u16, u16),
    broken: bool,
}

impl FakeTerminal {
    fn new(cols: u16, rows: u16) -> Self {
        FakeTerminal { input: Vec::new(), flushed: 0, size: (cols, rows), broken: false }
    }
}

impl SessionHandle for FakeTerminal {
    fn write_all(&mut self, data: &[u8]) -> Result<(), String> {
        if self.broken {
            return Err("broken pipe".to_string());
        }
        self.input.extend_from_slice(data);
        Ok(())
    }

    fn flush(&mut self) -> Result<(), String> {
        self.flushed = self.input.len();
        Ok(())
    }

    fn resize(&mut self, cols: u16, rows: u16) -> Result<(), String> {
        if self.broken {
            return Err("no such device".to_string());
        }
        self.size = (cols, rows);
        Ok(())
    }
}

#[test]
fn spawn_returns_fresh_uuid_ids() {
    let mut m: PtyManager<FakeTerminal> = PtyManager::new();
    let a = m.spawn(Ok(FakeTerminal::new(80, 24))).unwrap();
    let b = m.spawn(Ok(FakeTerminal::new(120, 40))).unwrap();
    for id in [&a, &b] {
        assert_eq!(id.len(), 36);
        for (i, c) in id.chars().enumerate() {
            if [8, 13, 18, 23].contains(&i) {
                assert_eq!(c, '-');
            } else {
                assert!(c.is_ascii_digit() || ('a'..='f').contains(&c));
            }
        }
        assert_eq!(id.chars().nth(14), Some('4'));
    }
    assert_ne!(a, b);
    assert!(m.is_live(&a));
    assert!(m.is_live(&b));
}

#[test]
fn spawn_failure_registers_nothing() {
    let mut m: PtyManager<FakeTerminal> = PtyManager::new();
    let r = m.spawn(Err("Failed to open PTY".to_string()));
    assert!(matches!(r, Err(PtyError::Spawn(ref e)) if e == "Failed to open PTY"));
}

#[test]
fn register_refuses_a_live_id() {
    let mut m: PtyManager<FakeTerminal> = PtyManager::new();
    assert_eq!(m.register("s1".to_string(), FakeTerminal::new(80, 24)).ok(), Some("s1".to_string()));
    assert!(matches!(m.register("s1".to_string(), FakeTerminal::new(80, 24)), Err(PtyError::Spawn(_))));
    assert!(m.is_live("s1"));
}

#[test]
fn write_to_live_session_succeeds() {
    let mut m: PtyManager<FakeTerminal> = PtyManager::new();
    let id = m.spawn(Ok(FakeTerminal::new(80, 24))).unwrap();
    assert!(m.write(&id, "echo hi\n").is_ok());
    assert!(m.write(&id, "ls\n").is_ok());
    assert!(m.is_live(&id));
    let t = m.session(&id).unwrap();
    assert_eq!(t.input, b"echo hi\nls\n".to_vec());
    assert_eq!(t.flushed, t.input.len());
    assert!(m.session("other").is_none());
}

#[test]
fn write_failure_is_io_error() {
    let mut m: PtyManager<FakeTerminal> = PtyManager::new();
    let mut t = FakeTerminal::new(80, 24);
    t.broken = true;
    let id = m.spawn(Ok(t)).unwrap();
    assert!(matches!(m.write(&id, "x"), Err(PtyError::Io(ref e)) if e == "broken pipe"));
    assert!(matches!(m.resize(&id, 10, 10), Err(PtyError::Io(_))));
    assert!(m.is_live(&id));
}

#[test]
fn unknown_ids_are_not_found_and_kill_succeeds() {
    let mut m: PtyManager<FakeTerminal> = PtyManager::new();
    let live = m.spawn(Ok(FakeTerminal::new(80, 24))).unwrap();
    assert!(matches!(m.write("nope", "x"), Err(PtyError::SessionNotFound)));
    assert!(matches!(m.resize("nope", 100, 30), Err(PtyError::SessionNotFound)));
    assert!(m.kill("nope").is_ok());
    assert!(m.is_live(&live));
}

#[test]
fn kill_twice_is_idempotent() {
    let mut m: PtyManager<FakeTerminal> = PtyManager::new();
    let id = m.spawn(Ok(FakeTerminal::new(80, 24))).unwrap();
    let other = m.spawn(Ok(FakeTerminal::new(80, 24))).unwrap();
    assert!(m.kill(&id).is_ok());
    assert!(!m.is_live(&id));
    assert!(m.kill(&id).is_ok());
    assert!(!m.is_live(&id));
    assert!(m.is_live(&other));
    assert!(matches!(m.write(&id, "x"), Err(PtyError::SessionNotFound)));
}

#[test]
fn resize_before_any_io_keeps_session() {
    let mut m: PtyManager<FakeTerminal> = PtyManager::new();
    let id = m.spawn(Ok(FakeTerminal::new(80, 24))).unwrap();
    assert!(m.resize(&id, 132, 50).is_ok());
    assert!(m.is_live(&id));
    assert_eq!(m.session(&id).unwrap().size, (132, 50));
    assert!(m.write(&id, "x").is_ok());
}

#[test]
fn twenty_sessions_have_distinct_ids() {
    let mut m: PtyManager<FakeTerminal> = PtyManager::new();
    let mut ids: Vec<String> = Vec::new();
    for _ in 0..20 {
        ids.push(m.spawn(Ok(FakeTerminal::new(80, 24))).unwrap());
    }
    let mut sorted = ids.clone();
    sorted.sort();
    sorted.dedup();
    assert_eq!(sorted.len(), 20);
    for id in &ids {
        assert!(m.is_live(id));
    }
    let mut relays: Vec<OutputRelay> = ids.iter().map(|i| OutputRelay::new(i.clone())).collect();
    for (k, relay) in relays.iter_mut().enumerate() {
        let ev = relay.on_read(Ok(vec![k as u8, 1])).unwrap();
        assert_eq!(ev.id, ids[k]);
        assert_eq!(ev.data, vec![k as u8, 1]);
    }
}

#[test]
fn shell_environment_advertises_colours() {
    let env = shell_environment();
    assert_eq!(
        env,
        vec![
            ("TERM".to_string(), "xterm-256color".to_string()),
            ("COLORTERM".to_string(), "truecolor".to_string()),
        ]
    );
}

#[test]
fn relay_forwards_chunks_in_order_until_eof() {
    let mut relay = OutputRelay::new("s".to_string());
    let chunks: Vec<Vec<u8>> = vec![b"0123".to_vec(), b"4567".to_vec(), b"89".to_vec()];
    let mut got: Vec<u8> = Vec::new();
    for c in chunks {
        let ev = relay.on_read(Ok(c)).unwrap();
        assert_eq!(ev.id, "s");
        got.extend(ev.data);
    }
    assert!(relay.is_running());
    assert!(relay.on_read(Ok(Vec::new())).is_none());
    assert!(!relay.is_running());
    assert!(relay.on_read(Ok(b"late".to_vec())).is_none());
    assert_eq!(got, b"0123456789".to_vec());
}

#[test]
fn relay_stops_on_read_error() {
    let mut relay = OutputRelay::new("s".to_string());
    assert!(relay.on_read(Err("EIO".to_string())).is_none());
    assert!(!relay.is_running());
}

#[test]
fn exit_is_reported_exactly_once() {
    let mut w = ExitWatcher::new("s".to_string());
    let ev = w.on_wait(Ok(3)).unwrap();
    assert_eq!(ev.id, "s");
    assert_eq!(ev.code, 3);
    assert!(w.on_wait(Ok(3)).is_none());
}

#[test]
fn failed_wait_reports_nothing() {
    let mut w = ExitWatcher::new("s".to_string());
    assert!(w.on_wait(Err("ECHILD".to_string())).is_none());
    assert!(w.on_wait(Ok(0)).is_none());
}

#[test]
fn killed_ids_are_never_issued_again() {
    let mut m: PtyManager<FakeTerminal> = PtyManager::new();
    assert!(m.register("s1".to_string(), FakeTerminal::new(80, 24)).is_ok());
    assert!(m.kill("s1").is_ok());
    assert!(matches!(m.register("s1".to_string(), FakeTerminal::new(80, 24)), Err(PtyError::Spawn(_))));
    assert!(!m.is_live("s1"));
}

#[test]
fn error_messages() {
    assert_eq!(PtyError::SessionNotFound.message(), "PTY not found");
    assert_eq!(PtyError::Lock("poisoned".to_string()).message(), "Lock error: poisoned");
    assert_eq!(PtyError::Io("Write error: broken pipe".to_string()).message(), "Write error: broken pipe");
}

#[test]
fn workers_carry_the_session_id() {
    let (mut relay, mut watcher) = session_workers(&"abc".to_string());
    assert!(relay.is_running());
    assert_eq!(relay.on_read(Ok(vec![1])).unwrap().id, "abc");
    assert_eq!(watcher.on_wait(Ok(0)).unwrap().id, "abc");
}
