use havy_kernel::services::shelld::{process_input_byte, EnterAction, ShellAction, ShellState};

fn feed(st: &mut ShellState, text: &[u8]) -> Vec<ShellAction> {
    text.iter().map(|&b| process_input_byte(st, b)).collect()
}

fn entered(a: &ShellAction) -> Option<Vec<u8>> {
    match a {
        ShellAction::Enter(EnterAction::Execute { line }) => Some(line.clone()),
        _ => None,
    }
}

#[test]
fn typing_echoes_and_enter_executes() {
    let mut st = ShellState::new();
    let acts = feed(&mut st, b"ls\r");
    assert!(matches!(acts[0], ShellAction::Echo(b'l')));
    assert!(matches!(acts[1], ShellAction::Echo(b's')));
    assert_eq!(entered(&acts[2]), Some(b"ls".to_vec()));
    assert_eq!(st.len, 0);
}

#[test]
fn backspace_erases() {
    let mut st = ShellState::new();
    let acts = feed(&mut st, b"lx\x7fs\r");
    assert!(matches!(acts[2], ShellAction::Erase));
    assert_eq!(entered(&acts[4]), Some(b"ls".to_vec()));
}

#[test]
fn history_recalls_previous_lines() {
    let mut st = ShellState::new();
    feed(&mut st, b"one\r");
    feed(&mut st, b"two\r");
    let up = feed(&mut st, b"\x1b[A");
    match &up[2] {
        ShellAction::Recall { erase, show } => {
            assert_eq!(*erase, 0);
            assert_eq!(show, &b"two".to_vec());
        },
        _ => panic!("expected a recall"),
    }
    let up2 = feed(&mut st, b"\x1b[A");
    match &up2[2] {
        ShellAction::Recall { erase, show } => {
            assert_eq!(*erase, 3);
            assert_eq!(show, &b"one".to_vec());
        },
        _ => panic!("expected a recall"),
    }
    let acts = feed(&mut st, b"\r");
    assert_eq!(entered(&acts[0]), Some(b"one".to_vec()));
}

#[test]
fn ctrl_c_asks_to_cancel() {
    let mut st = ShellState::new();
    let acts = feed(&mut st, b"\x03");
    assert!(matches!(acts[0], ShellAction::Cancel));
}

#[test]
fn tail_follow_enter() {
    let mut st = ShellState::new();
    let acts = feed(&mut st, b"tail -f /var/log/kernel.log\r");
    match acts.last().unwrap() {
        ShellAction::Enter(EnterAction::Follow { path, num_lines }) => {
            assert_eq!(path, &b"/var/log/kernel.log".to_vec());
            assert_eq!(*num_lines, 10);
        },
        _ => panic!("expected follow"),
    }
}
