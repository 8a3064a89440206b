use std::io::{Read, Write};

use claude_arcade::pty::{shell_environment, ExitWatcher, OutputRelay, PtyManager, SessionHandle};
use portable_pty::{native_pty_system, CommandBuilder, MasterPty, PtySize};

struct Terminal {
    writer: Box<dyn Write + Send>,
    master: Box<dyn MasterPty + Send>,
}

impl SessionHandle for Terminal {
    fn write_all(&mut self, data: &[u8]) -> Result<(), String> {
        self.writer.write_all(data).map_err(|e| e.to_string())
    }

    fn flush(&mut self) -> Result<(), String> {
        self.writer.flush().map_err(|e| e.to_string())
    }

    fn resize(&mut self, cols: u16, rows: u16) -> Result<(), String> {
        self.master.resize(PtySize { rows, cols, pixel_width: 0, pixel_height: 0 }).map_err(|e| e.to_string())
    }
}

/// A session running `script` under `sh` in a pty, with its reader and child.
struct Started {
    id: String,
    reader: Box<dyn Read + Send>,
    child: Box<dyn portable_pty::Child + Send + Sync>,
}

fn start(manager: &mut PtyManager<Terminal>, script: &str) -> Started {
    let pair = native_pty_system()
        .openpty(PtySize { rows: 24, cols: 80, pixel_width: 0, pixel_height: 0 })
        .expect("pty");
    let mut cmd = CommandBuilder::new("sh");
    cmd.args(["-c", script]);
    for (k, v) in shell_environment() {
        cmd.env(k, v);
    }
    let child = pair.slave.spawn_command(cmd).expect("spawn");
    drop(pair.slave);
    let reader = pair.master.try_clone_reader().expect("reader");
    let writer = pair.master.take_writer().expect("writer");
    let id = manager.spawn(Ok(Terminal { writer, master: pair.master })).expect("register");
    Started { id, reader, child }
}

/// Relays the session's output until `done` holds of it or the stream ends.
fn relay_until(s: &mut Started, done: impl Fn(&[u8]) -> bool) -> Vec<u8> {
    let mut relay = OutputRelay::new(s.id.clone());
    let mut output = Vec::new();
    let mut buf = [0u8; 4096];
    while relay.is_running() && !done(&output) {
        let read = s.reader.read(&mut buf).map(|n| buf[..n].to_vec()).map_err(|e| e.to_string());
        if let Some(ev) = relay.on_read(read) {
            assert_eq!(ev.id, s.id);
            output.extend(ev.data);
        }
    }
    output
}

#[test]
fn shell_output_arrives_in_order_with_one_exit() {
    let mut manager: PtyManager<Terminal> = PtyManager::new();
    let mut s = start(&mut manager, "i=0; while [ $i -lt 200 ]; do printf '%04d' $i; i=$((i+1)); done; exit 7");
    let output = relay_until(&mut s, |_| false);
    let expected: String = (0..200).map(|i| format!("{:04}", i)).collect();
    assert_eq!(String::from_utf8_lossy(&output), expected);
    let mut watcher = ExitWatcher::new(s.id.clone());
    let status = s.child.wait().map(|st| st.exit_code()).map_err(|e| e.to_string());
    let first = watcher.on_wait(status).expect("one exit event");
    assert_eq!(first.code, 7);
    assert_eq!(first.id, s.id);
    assert!(watcher.on_wait(Ok(7)).is_none());
    assert!(manager.kill(&s.id).is_ok());
    assert!(manager.kill(&s.id).is_ok());
}

#[test]
fn write_and_resize_reach_a_live_shell() {
    let mut manager: PtyManager<Terminal> = PtyManager::new();
    let mut s = start(&mut manager, "read line; echo \"got:$line\"");
    assert!(manager.resize(&s.id, 100, 30).is_ok());
    assert!(manager.is_live(&s.id));
    assert!(manager.write(&s.id, "hello\n").is_ok());
    let output = relay_until(&mut s, |o| String::from_utf8_lossy(o).contains("got:hello"));
    assert!(String::from_utf8_lossy(&output).contains("got:hello"));
    assert!(manager.kill(&s.id).is_ok());
    let _ = s.child.wait();
}

#[test]
fn twenty_shells_have_their_own_ids_and_streams() {
    let mut manager: PtyManager<Terminal> = PtyManager::new();
    let mut sessions: Vec<Started> = (0..20).map(|k| start(&mut manager, &format!("printf 'session-{}'", k))).collect();
    let mut ids: Vec<String> = sessions.iter().map(|s| s.id.clone()).collect();
    for (k, s) in sessions.iter_mut().enumerate() {
        let output = relay_until(s, |_| false);
        assert_eq!(String::from_utf8_lossy(&output), format!("session-{}", k));
        let _ = s.child.wait();
    }
    ids.sort();
    ids.dedup();
    assert_eq!(ids.len(), 20);
    for s in &sessions {
        assert!(manager.kill(&s.id).is_ok());
        assert!(!manager.is_live(&s.id));
    }
}
