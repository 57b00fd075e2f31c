//! The interactive shell's line editor.
//!
//! The shell runs as a daemon: each tick it feeds the bytes the console
//! received to [`process_input_byte`], which edits the input line, walks the
//! command history, and says what the terminal should show or what should run.
use vstd::prelude::*;
use vstd::string::StringSliceAdditionalSpecFns;
use crate::text::{
    byte_views, bytes_from, lines_from, text_lines, has_prefix, is_exactly, parse_usize, parse_usize_spec, skip_ws,
    split_whitespace, str_from_utf8, whitespace_width, words,
};
use crate::fmt::{dec_text, push_bytes, push_decimal};
use crate::lock::state::ping::PingState;
use crate::net::utils::{format_ipv4, ipv4_text};

verus! {

/// Input line capacity.
pub const BUFFER_SIZE: usize = 128;

/// Number of commands the history keeps.
pub const HISTORY_SIZE: usize = 16;

/// Lines shown by `tail -f` when no count is given.
pub const DEFAULT_TAIL_LINES: usize = 10;

/// The shell's editing state.
pub struct ShellState {
    /// Input buffer; the line is its first `len` bytes.
    pub buffer: Vec<u8>,
    pub len: usize,
    /// History ring: the command saved in each slot.
    pub history: Vec<Vec<u8>>,
    /// Commands saved so far.
    pub history_count: usize,
    /// How far back the up arrow has gone.
    pub history_pos: usize,
    pub browsing_history: bool,
    /// The last line terminator seen, to treat "\r\n" and "\n\r" as one.
    pub last_newline: u8,
    /// 0 normal, 1 after ESC, 2 after ESC '['.
    pub esc_state: u8,
    pub initialized: bool,
    /// Following a file with `tail -f`: input only stops it.
    pub tail_follow_mode: bool,
}

/// What a line's Enter asks for.
pub enum EnterAction {
    /// Follow the file at `path` (to be resolved against the working directory),
    /// first showing its last `num_lines` lines.
    Follow { path: Vec<u8>, num_lines: usize },
    /// Run the line as a command.
    Execute { line: Vec<u8> },
}

/// What the terminal should do after an input byte.
pub enum ShellAction {
    /// Nothing.
    Nothing,
    /// Leave `tail -f`: stop following, say so, and show the prompt.
    StopFollow,
    /// Ctrl+C: cancel the running command (prompt again if one was cancelled).
    Cancel,
    /// Echo the typed byte.
    Echo(u8),
    /// Rub out the last character.
    Erase,
    /// Tab: complete the word before the cursor.
    Complete,
    /// Rub out `erase` characters, then show `show`.
    Recall { erase: usize, show: Vec<u8> },
    /// Newline: what the finished line asks for.
    Enter(EnterAction),
}

/// The current input line.
pub open spec fn line_of(st: &ShellState) -> Seq<u8> {
    st.buffer@.take(st.len as int)
}

/// The saved commands, slot by slot.
pub open spec fn history_of(st: &ShellState) -> Seq<Seq<u8>> {
    byte_views(st.history@)
}

/// How many history entries the arrows can reach.
pub open spec fn reachable_history(count: int) -> int {
    if count < HISTORY_SIZE {
        count
    } else {
        HISTORY_SIZE as int
    }
}

impl ShellState {
    pub open spec fn wf(&self) -> bool {
        &&& self.buffer@.len() == BUFFER_SIZE
        &&& self.len <= BUFFER_SIZE
        &&& self.history@.len() == HISTORY_SIZE
        &&& forall|i: int| 0 <= i < HISTORY_SIZE ==> (#[trigger] self.history@[i])@.len() <= BUFFER_SIZE
        &&& self.history_pos < HISTORY_SIZE
        &&& self.esc_state <= 2
        &&& (self.history_pos == 0 || self.history_pos < self.history_count)
    }

    /// Empty line, empty history, not started.
    pub fn new() -> (st: Self)
        ensures
            st.wf(),
            line_of(&st).len() == 0,
            st.history_count == 0,
            st.history_pos == 0,
            !st.browsing_history,
            st.last_newline == 0,
            st.esc_state == 0,
            !st.initialized,
            !st.tail_follow_mode,
    {
        let mut history: Vec<Vec<u8>> = Vec::new();
        let mut i: usize = 0;
        while i < HISTORY_SIZE
            invariant
                i <= HISTORY_SIZE,
                history@.len() == i,
                forall|k: int| 0 <= k < i ==> (#[trigger] history@[k])@.len() == 0,
            decreases HISTORY_SIZE - i,
        {
            history.push(Vec::new());
            i = i + 1;
        }
        ShellState {
            buffer: vec![0u8; BUFFER_SIZE],
            len: 0,
            history,
            history_count: 0,
            history_pos: 0,
            browsing_history: false,
            last_newline: 0,
            esc_state: 0,
            initialized: false,
            tail_follow_mode: false,
        }
    }

    /// Mark the shell started; true when this call did it (the first one), so
    /// the caller sets up the working directory, prints the prompt and records
    /// the shell's pid.
    pub fn start(&mut self) -> (first: bool)
        ensures
            first == !old(self).initialized,
            final(self).initialized,
            final(self).len == old(self).len,
            final(self).buffer == old(self).buffer,
            final(self).history == old(self).history,
            final(self).history_count == old(self).history_count,
            final(self).history_pos == old(self).history_pos,
            final(self).browsing_history == old(self).browsing_history,
            final(self).tail_follow_mode == old(self).tail_follow_mode,
            final(self).esc_state == old(self).esc_state,
            final(self).last_newline == old(self).last_newline,
    {
        if self.initialized {
            false
        } else {
            self.initialized = true;
            true
        }
    }

    /// Enter `tail -f` mode once following has started.
    pub fn begin_tail_follow(&mut self)
        ensures
            final(self).tail_follow_mode,
            final(self).len == old(self).len,
            final(self).buffer == old(self).buffer,
            final(self).history == old(self).history,
            final(self).history_count == old(self).history_count,
            final(self).history_pos == old(self).history_pos,
            final(self).browsing_history == old(self).browsing_history,
            final(self).esc_state == old(self).esc_state,
            final(self).last_newline == old(self).last_newline,
            final(self).initialized == old(self).initialized,
    {
        self.tail_follow_mode = true;
    }

    /// Replace the line with history slot `idx`.
    fn load_history(&mut self, idx: usize)
        requires
            old(self).wf(),
            idx < HISTORY_SIZE,
        ensures
            final(self).wf(),
            line_of(final(self)) == history_of(old(self))[idx as int],
            final(self).history == old(self).history,
            final(self).history_count == old(self).history_count,
            final(self).history_pos == old(self).history_pos,
            final(self).browsing_history == old(self).browsing_history,
            final(self).esc_state == old(self).esc_state,
            final(self).last_newline == old(self).last_newline,
            final(self).initialized == old(self).initialized,
            final(self).tail_follow_mode == old(self).tail_follow_mode,
    {
        let n = self.history[idx].len();
        let mut i: usize = 0;
        while i < n
            invariant
                self.buffer@.len() == BUFFER_SIZE,
                n == self.history@[idx as int]@.len(),
                n <= BUFFER_SIZE,
                idx < HISTORY_SIZE,
                self.history == old(self).history,
                self.history@.len() == HISTORY_SIZE,
                i <= n,
                forall|k: int| 0 <= k < i ==> self.buffer@[k] == self.history@[idx as int]@[k],
                self.len == old(self).len,
                self.history_count == old(self).history_count,
                self.history_pos == old(self).history_pos,
                self.browsing_history == old(self).browsing_history,
                self.esc_state == old(self).esc_state,
                self.last_newline == old(self).last_newline,
                self.initialized == old(self).initialized,
                self.tail_follow_mode == old(self).tail_follow_mode,
            decreases n - i,
        {
            let b = self.history[idx][i];
            self.buffer.set(i, b);
            i = i + 1;
        }
        self.len = n;
        assert(line_of(self) =~= history_of(old(self))[idx as int]);
    }

    fn line(&self) -> (r: Vec<u8>)
        requires
            self.wf(),
        ensures
            r@ == line_of(self),
    {
        let mut r: Vec<u8> = Vec::new();
        let mut i: usize = 0;
        while i < self.len
            invariant
                self.wf(),
                i <= self.len,
                r@ == self.buffer@.take(i as int),
            decreases self.len - i,
        {
            r.push(self.buffer[i]);
            i = i + 1;
            assert(r@ =~= self.buffer@.take(i as int));
        }
        r
    }
}

/// What the up arrow does: nothing without history or once the oldest
/// reachable entry is shown; otherwise it shows the next older command.
pub open spec fn history_up_post(o: &ShellState, f: &ShellState, a: ShellAction) -> bool {
    let count = o.history_count as int;
    let max = reachable_history(count);
    let pos = if o.browsing_history {
        o.history_pos as int
    } else {
        0
    };
    &&& f.history == o.history
    &&& f.history_count == o.history_count
    &&& if count == 0 || o.history_pos >= max {
        &&& a is Nothing
        &&& line_of(f) == line_of(o)
        &&& f.history_pos == o.history_pos
        &&& f.browsing_history == o.browsing_history
    } else {
        let idx = (count - 1 - pos) % (HISTORY_SIZE as int);
        &&& a matches ShellAction::Recall { erase, show } && erase == o.len && show@ == history_of(
            o,
        )[idx]
        &&& line_of(f) == history_of(o)[idx]
        &&& f.browsing_history
        &&& f.history_pos == if pos + 1 < max {
            pos + 1
        } else {
            pos
        }
    }
}

/// What the down arrow does: while browsing it shows the next newer command,
/// and past the newest an empty line; otherwise nothing.
pub open spec fn history_down_post(o: &ShellState, f: &ShellState, a: ShellAction) -> bool {
    let pos = o.history_pos as int;
    &&& f.history == o.history
    &&& f.history_count == o.history_count
    &&& if o.browsing_history && pos > 1 {
        let idx = (o.history_count - (pos - 1)) % (HISTORY_SIZE as int);
        &&& a matches ShellAction::Recall { erase, show } && erase == o.len && show@ == history_of(
            o,
        )[idx]
        &&& line_of(f) == history_of(o)[idx]
        &&& f.browsing_history
        &&& f.history_pos == pos - 1
    } else if o.browsing_history {
        &&& a matches ShellAction::Recall { erase, show } && erase == o.len && show@.len() == 0
        &&& line_of(f).len() == 0
        &&& !f.browsing_history
        &&& f.history_pos == 0
    } else {
        &&& a is Nothing
        &&& line_of(f) == line_of(o)
        &&& f.history_pos == o.history_pos
        &&& !f.browsing_history
    }
}

/// Down undoes up: after two up arrows that each moved further back, a down
/// arrow shows again the command the first up arrow showed.
pub proof fn lemma_down_returns_to_newer(
    s0: &ShellState,
    s1: &ShellState,
    s2: &ShellState,
    s3: &ShellState,
    a1: ShellAction,
    a2: ShellAction,
    a3: ShellAction,
)
    requires
        history_up_post(s0, s1, a1),
        history_up_post(s1, s2, a2),
        history_down_post(s2, s3, a3),
        a1 is Recall,
        a2 is Recall,
        s1.history_pos == (if s0.browsing_history {
            s0.history_pos as int
        } else {
            0
        }) + 1,
        s2.history_pos == s1.history_pos + 1,
    ensures
        line_of(s3) == line_of(s1),
        a3 matches ShellAction::Recall { erase, show } && show@ == line_of(s1) && erase == s2.len,
{
}

/// Fields that editing the line and walking the history leave alone.
pub open spec fn same_modes(o: &ShellState, f: &ShellState) -> bool {
    &&& f.esc_state == o.esc_state
    &&& f.last_newline == o.last_newline
    &&& f.initialized == o.initialized
    &&& f.tail_follow_mode == o.tail_follow_mode
}

/// Up arrow: show the next older command, if there is one to go to.
pub fn handle_history_up(st: &mut ShellState) -> (a: ShellAction)
    requires
        old(st).wf(),
    ensures
        final(st).wf(),
        same_modes(old(st), final(st)),
        history_up_post(old(st), final(st), a),
{
    if st.history_count == 0 {
        return ShellAction::Nothing;
    }
    let max_pos = if st.history_count < HISTORY_SIZE {
        st.history_count
    } else {
        HISTORY_SIZE
    };
    if st.history_pos < max_pos {
        if !st.browsing_history {
            st.browsing_history = true;
            st.history_pos = 0;
        }
        let erase = st.len;
        let idx = (st.history_count - 1 - st.history_pos) % HISTORY_SIZE;
        st.load_history(idx);
        let show = st.line();
        if st.history_pos + 1 < max_pos {
            st.history_pos = st.history_pos + 1;
        }
        ShellAction::Recall { erase, show }
    } else {
        ShellAction::Nothing
    }
}

/// Down arrow: show the next newer command, or an empty line past the newest.
pub fn handle_history_down(st: &mut ShellState) -> (a: ShellAction)
    requires
        old(st).wf(),
    ensures
        final(st).wf(),
        same_modes(old(st), final(st)),
        history_down_post(old(st), final(st), a),
{
    if st.browsing_history && st.history_pos > 0 {
        st.history_pos = st.history_pos - 1;
        let erase = st.len;
        if st.history_pos == 0 {
            st.browsing_history = false;
            st.len = 0;
            ShellAction::Recall { erase, show: Vec::new() }
        } else {
            let idx = (st.history_count - st.history_pos) % HISTORY_SIZE;
            st.load_history(idx);
            let show = st.line();
            ShellAction::Recall { erase, show }
        }
    } else if st.browsing_history {
        let erase = st.len;
        st.browsing_history = false;
        st.len = 0;
        st.history_pos = 0;
        ShellAction::Recall { erase, show: Vec::new() }
    } else {
        ShellAction::Nothing
    }
}

// ─── tail -f ──────────────────────────────────────────────────────────────────

pub open spec fn lit_tail_space() -> Seq<u8> {
    seq![0x74u8, 0x61, 0x69, 0x6c, 0x20]
}

pub open spec fn lit_dash() -> Seq<u8> {
    seq![0x2du8]
}

pub open spec fn lit_f() -> Seq<u8> {
    seq![0x2du8, 0x66]
}

pub open spec fn lit_n() -> Seq<u8> {
    seq![0x2du8, 0x6e]
}

pub open spec fn lit_follow() -> Seq<u8> {
    seq![0x2du8, 0x2d, 0x66, 0x6f, 0x6c, 0x6c, 0x6f, 0x77]
}

pub open spec fn lit_follow_eq() -> Seq<u8> {
    lit_follow().push(0x3d)
}

pub open spec fn lit_lines_eq() -> Seq<u8> {
    seq![0x2du8, 0x2d, 0x6c, 0x69, 0x6e, 0x65, 0x73, 0x3d]
}

/// `n` unless `t` parses as a number.
pub open spec fn number_or(t: Seq<u8>, n: nat) -> nat {
    match parse_usize_spec(t) {
        Some(v) => v,
        None => n,
    }
}

/// The options of a `tail` command, read from word `i` on: whether `-f`,
/// `--follow`, `-f…` or `--follow=…` was given, the line count from `-n NUM`,
/// `-nNUM` or `--lines=NUM` (the last one that parses), and the last word that
/// is not an option.
pub open spec fn tail_options(w: Seq<Seq<u8>>, i: int, follow: bool, n: nat, path: Option<Seq<u8>>) -> (
    bool,
    nat,
    Option<Seq<u8>>,
)
    decreases w.len() - i,
{
    if i < 0 || i >= w.len() {
        (follow, n, path)
    } else {
        let p = w[i];
        if p == lit_f() || p == lit_follow() {
            tail_options(w, i + 1, true, n, path)
        } else if lit_f().is_prefix_of(p) && p.len() > 2 {
            tail_options(w, i + 1, true, n, path)
        } else if lit_follow_eq().is_prefix_of(p) {
            tail_options(w, i + 1, true, n, path)
        } else if p == lit_n() {
            if i + 1 < w.len() {
                tail_options(w, i + 2, follow, number_or(w[i + 1], n), path)
            } else {
                tail_options(w, i + 1, follow, n, path)
            }
        } else if lit_n().is_prefix_of(p) {
            tail_options(w, i + 1, follow, number_or(p.skip(2), n), path)
        } else if lit_lines_eq().is_prefix_of(p) {
            tail_options(w, i + 1, follow, number_or(p.skip(8), n), path)
        } else if !lit_dash().is_prefix_of(p) {
            tail_options(w, i + 1, follow, n, Some(p))
        } else {
            tail_options(w, i + 1, follow, n, path)
        }
    }
}

/// The file and line count a `tail -f` command asks to follow: the command is
/// UTF-8, trimmed it starts with "tail " and has more words, among them a
/// follow option and a file.
pub open spec fn tail_follow_request(cmd: Seq<u8>) -> Option<(Seq<u8>, nat)> {
    let i0 = skip_ws(cmd, 0);
    let w = words(cmd);
    if vstd::utf8::valid_utf8(cmd) && i0 + 5 <= cmd.len() && cmd.subrange(i0, i0 + 5) == lit_tail_space()
        && w.len() >= 2 {
        let r = tail_options(w, 1, false, DEFAULT_TAIL_LINES as nat, None);
        match r.2 {
            Some(path) => if r.0 {
                Some((path, r.1))
            } else {
                None
            },
            None => None,
        }
    } else {
        None
    }
}




fn number_or_exec(t: &Vec<u8>, n: usize) -> (r: usize)
    ensures
        r as nat == number_or(t@, n as nat),
{
    match parse_usize(t.as_slice()) {
        Some(v) => v,
        None => n,
    }
}

pub open spec fn opt_bytes(p: Option<Vec<u8>>) -> Option<Seq<u8>> {
    match p {
        Some(v) => Some(v@),
        None => None,
    }
}

/// A `tail -f` command's file and line count, if `cmd` is one.
pub fn parse_tail_follow_command(cmd: &[u8]) -> (r: Option<(Vec<u8>, usize)>)
    ensures
        match r {
            Some((path, n)) => tail_follow_request(cmd@) == Some((path@, n as nat)),
            None => tail_follow_request(cmd@) is None,
        },
{
    if str_from_utf8(cmd).is_none() {
        return None;
    }
    let mut i0: usize = 0;
    while i0 < cmd.len() && whitespace_width(cmd, i0) > 0
        invariant
            i0 <= cmd@.len(),
            skip_ws(cmd@, 0) == skip_ws(cmd@, i0 as int),
        decreases cmd@.len() - i0,
    {
        i0 = i0 + whitespace_width(cmd, i0);
    }
    assert(skip_ws(cmd@, i0 as int) == i0);
    if cmd.len() - i0 < 5 || cmd[i0] != 0x74 || cmd[i0 + 1] != 0x61 || cmd[i0 + 2] != 0x69 || cmd[i0
        + 3] != 0x6c || cmd[i0 + 4] != 0x20 {
        proof {
            if i0 + 5 <= cmd@.len() && cmd@.subrange(i0 as int, i0 + 5) == lit_tail_space() {
                assert(cmd@.subrange(i0 as int, i0 + 5)[0] == cmd@[i0 as int]);
                assert(cmd@.subrange(i0 as int, i0 + 5)[1] == cmd@[i0 + 1]);
                assert(cmd@.subrange(i0 as int, i0 + 5)[2] == cmd@[i0 + 2]);
                assert(cmd@.subrange(i0 as int, i0 + 5)[3] == cmd@[i0 + 3]);
                assert(cmd@.subrange(i0 as int, i0 + 5)[4] == cmd@[i0 + 4]);
            }
        }
        return None;
    }
    assert(cmd@.subrange(i0 as int, i0 + 5) =~= lit_tail_space());
    let parts = split_whitespace(cmd);
    if parts.len() < 2 {
        return None;
    }
    let ghost w = words(cmd@);
    assert(byte_views(parts@) == w);
    let mut follow = false;
    let mut num_lines: usize = DEFAULT_TAIL_LINES;
    let mut path: Option<Vec<u8>> = None;
    let mut i: usize = 1;
    while i < parts.len()
        invariant
            byte_views(parts@) == w,
            1 <= i,
            tail_options(w, 1, false, DEFAULT_TAIL_LINES as nat, None) == tail_options(
                w,
                i as int,
                follow,
                num_lines as nat,
                opt_bytes(path),
            ),
        decreases parts@.len() - i,
    {
        let part = &parts[i];
        assert(part@ == w[i as int]);
        if is_exactly(part, &[0x2du8, 0x66]) || is_exactly(
            part,
            &[0x2du8, 0x2d, 0x66, 0x6f, 0x6c, 0x6c, 0x6f, 0x77],
        ) {
            follow = true;
        } else if has_prefix(part, &[0x2du8, 0x66]) && part.len() > 2 {
            follow = true;
        } else if has_prefix(part, &[0x2du8, 0x2d, 0x66, 0x6f, 0x6c, 0x6c, 0x6f, 0x77, 0x3d]) {
            assert(seq![0x2du8, 0x2d, 0x66, 0x6f, 0x6c, 0x6c, 0x6f, 0x77, 0x3d] =~= lit_follow_eq());
            follow = true;
        } else if is_exactly(part, &[0x2du8, 0x6e]) {
            if i + 1 < parts.len() {
                i = i + 1;
                assert(parts@[i as int]@ == w[i as int]);
                num_lines = number_or_exec(&parts[i], num_lines);
            }
        } else if has_prefix(part, &[0x2du8, 0x6e]) {
            let rest = bytes_from(part, 2);
            num_lines = number_or_exec(&rest, num_lines);
        } else if has_prefix(part, &[0x2du8, 0x2d, 0x6c, 0x69, 0x6e, 0x65, 0x73, 0x3d]) {
            let rest = bytes_from(part, 8);
            num_lines = number_or_exec(&rest, num_lines);
        } else if !has_prefix(part, &[0x2du8]) {
            assert(!seq![0x2du8, 0x2d, 0x66, 0x6f, 0x6c, 0x6c, 0x6f, 0x77, 0x3d].is_prefix_of(part@));
            path = Some(part.clone());
        } else {
            assert(!seq![0x2du8, 0x2d, 0x66, 0x6f, 0x6c, 0x6c, 0x6f, 0x77, 0x3d].is_prefix_of(part@));
        }
        i = i + 1;
    }
    if follow {
        match path {
            Some(p) => Some((p, num_lines)),
            None => None,
        }
    } else {
        None
    }
}

// ─── Enter and the input state machine ───────────────────────────────────────

/// What Enter does to the state and asks for: a non-empty line is saved in the
/// next history slot; a `tail -f` line asks to follow its file, any other line
/// to be run; the line is then cleared and history browsing ends.
pub open spec fn enter_post(o: &ShellState, f: &ShellState, a: EnterAction) -> bool {
    let line = line_of(o);
    &&& if o.len > 0 {
        &&& history_of(f) == history_of(o).update(
            (o.history_count % HISTORY_SIZE) as int,
            line,
        )
        &&& f.history_count == o.history_count + 1
    } else {
        &&& f.history == o.history
        &&& f.history_count == o.history_count
    }
    &&& f.len == 0
    &&& !f.browsing_history
    &&& f.history_pos == 0
    &&& match tail_follow_request(line) {
        Some((path, n)) => a matches EnterAction::Follow { path: p, num_lines } && p@ == path
            && num_lines == n,
        None => a matches EnterAction::Execute { line: l } && l@ == line,
    }
}

/// Enter: save the line in the history, decide what it asks for, and clear it.
pub fn handle_enter(st: &mut ShellState) -> (a: EnterAction)
    requires
        old(st).wf(),
        old(st).len > 0 ==> old(st).history_count < usize::MAX,
    ensures
        final(st).wf(),
        final(st).buffer@.len() == BUFFER_SIZE,
        same_modes(old(st), final(st)),
        enter_post(old(st), final(st), a),
{
    let line = st.line();
    if st.len > 0 {
        let idx = st.history_count % HISTORY_SIZE;
        let ghost before = st.history@;
        st.history.set(idx, line.clone());
        st.history_count = st.history_count + 1;
        assert(byte_views(st.history@) =~= byte_views(before).update(idx as int, line@));
    }
    let action = match parse_tail_follow_command(line.as_slice()) {
        Some((path, num_lines)) => EnterAction::Follow { path, num_lines },
        None => EnterAction::Execute { line },
    };
    st.len = 0;
    st.browsing_history = false;
    st.history_pos = 0;
    action
}

/// Everything but the line and the newline memory stays.
pub open spec fn only_line_changes(o: &ShellState, f: &ShellState) -> bool {
    &&& f.history == o.history
    &&& f.history_count == o.history_count
    &&& f.history_pos == o.history_pos
    &&& f.browsing_history == o.browsing_history
    &&& f.initialized == o.initialized
    &&& f.tail_follow_mode == o.tail_follow_mode
}

/// What an ordinary byte does (not in `tail -f` mode, no escape sequence open):
/// ESC opens one; a line terminator ends the line, unless it completes a
/// "\r\n" or "\n\r" pair; backspace and DEL rub out a character; Tab asks for
/// completion; any other byte is added to the line while there is room.
pub open spec fn plain_byte_post(o: &ShellState, f: &ShellState, b: u8, a: ShellAction) -> bool {
    if b == 0x1b {
        &&& a is Nothing
        &&& f.esc_state == 1
        &&& f.last_newline == o.last_newline
        &&& line_of(f) == line_of(o)
        &&& only_line_changes(o, f)
        &&& f.buffer@ == o.buffer@
        &&& f.len == o.len
    } else if b == 0x0d || b == 0x0a {
        if (o.last_newline == 0x0d && b == 0x0a) || (o.last_newline == 0x0a && b == 0x0d) {
            &&& a is Nothing
            &&& f.last_newline == 0
            &&& f.esc_state == o.esc_state
            &&& line_of(f) == line_of(o)
            &&& only_line_changes(o, f)
            &&& f.buffer@ == o.buffer@
            &&& f.len == o.len
        } else {
            &&& a matches ShellAction::Enter(e) && enter_post(o, f, e)
            &&& f.last_newline == b
            &&& f.esc_state == o.esc_state
            &&& f.initialized == o.initialized
            &&& f.tail_follow_mode == o.tail_follow_mode
        }
    } else if b == 0x08 || b == 0x7f {
        &&& f.last_newline == o.last_newline
        &&& f.esc_state == o.esc_state
        &&& only_line_changes(o, f)
        &&& f.buffer@ == o.buffer@
        &&& if o.len > 0 {
            &&& a is Erase
            &&& line_of(f) == line_of(o).drop_last()
            &&& f.len == o.len - 1
        } else {
            &&& a is Nothing
            &&& line_of(f) == line_of(o)
        }
    } else if b == 0x09 {
        &&& a is Complete
        &&& f.last_newline == 0
        &&& f.esc_state == o.esc_state
        &&& line_of(f) == line_of(o)
        &&& only_line_changes(o, f)
        &&& f.buffer@ == o.buffer@
        &&& f.len == o.len
    } else {
        &&& f.last_newline == 0
        &&& f.esc_state == o.esc_state
        &&& only_line_changes(o, f)
        &&& if o.len < BUFFER_SIZE {
            &&& a == ShellAction::Echo(b)
            &&& line_of(f) == line_of(o).push(b)
            &&& f.buffer@ == o.buffer@.update(o.len as int, b)
            &&& f.len == o.len + 1
        } else {
            &&& a is Nothing
            &&& line_of(f) == line_of(o)
            &&& f.buffer@ == o.buffer@
            &&& f.len == o.len
        }
    }
}

fn plain_byte(st: &mut ShellState, byte: u8) -> (a: ShellAction)
    requires
        old(st).wf(),
        old(st).history_count < usize::MAX,
    ensures
        final(st).wf(),
        plain_byte_post(old(st), final(st), byte, a),
{
    if byte == 0x1b {
        st.esc_state = 1;
        ShellAction::Nothing
    } else if byte == 0x0d || byte == 0x0a {
        if (st.last_newline == 0x0d && byte == 0x0a) || (st.last_newline == 0x0a && byte == 0x0d) {
            st.last_newline = 0;
            return ShellAction::Nothing;
        }
        st.last_newline = byte;
        let ghost mid = *st;
        let e = handle_enter(st);
        assert(line_of(&mid) == line_of(old(st)));
        ShellAction::Enter(e)
    } else if byte == 0x08 || byte == 0x7f {
        if st.len > 0 {
            st.len = st.len - 1;
            assert(line_of(st) =~= line_of(old(st)).drop_last());
            ShellAction::Erase
        } else {
            ShellAction::Nothing
        }
    } else if byte == 0x09 {
        st.last_newline = 0;
        ShellAction::Complete
    } else {
        st.last_newline = 0;
        if st.len < BUFFER_SIZE {
            st.buffer.set(st.len, byte);
            st.len = st.len + 1;
            assert(line_of(st) =~= line_of(old(st)).push(byte));
            ShellAction::Echo(byte)
        } else {
            ShellAction::Nothing
        }
    }
}

/// What one received byte does to the shell (see `process_input_byte`).
pub open spec fn input_step(o: &ShellState, f: &ShellState, byte: u8, a: ShellAction) -> bool {
    if byte == 0x03 {
        if o.tail_follow_mode {
            &&& a is StopFollow
            &&& !f.tail_follow_mode
            &&& line_of(f) == line_of(o)
            &&& f.buffer@ == o.buffer@
            &&& f.len == o.len
            &&& f.history == o.history
            &&& f.history_count == o.history_count
            &&& f.esc_state == o.esc_state
        } else {
            &&& a is Cancel
            &&& line_of(f) == line_of(o)
            &&& f.buffer@ == o.buffer@
            &&& f.len == o.len
            &&& same_modes(o, f)
            &&& only_line_changes(o, f)
        }
    } else if o.tail_follow_mode {
        &&& line_of(f) == line_of(o)
        &&& f.buffer@ == o.buffer@
        &&& f.len == o.len
        &&& f.history == o.history
        &&& f.history_count == o.history_count
        &&& f.esc_state == o.esc_state
        &&& if byte == 0x71 || byte == 0x51 {
            &&& a is StopFollow
            &&& !f.tail_follow_mode
        } else {
            &&& a is Nothing
            &&& f.tail_follow_mode
        }
    } else if o.esc_state == 1 && byte == 0x5b {
        &&& a is Nothing
        &&& f.esc_state == 2
        &&& line_of(f) == line_of(o)
        &&& f.buffer@ == o.buffer@
        &&& f.len == o.len
        &&& only_line_changes(o, f)
    } else if o.esc_state == 2 {
        &&& f.esc_state == 0
        &&& f.last_newline == o.last_newline
        &&& !f.tail_follow_mode
        &&& if byte == 0x41 {
            history_up_post(o, f, a)
        } else if byte == 0x42 {
            history_down_post(o, f, a)
        } else {
            &&& a is Nothing
            &&& line_of(f) == line_of(o)
            &&& f.buffer@ == o.buffer@
            &&& f.len == o.len
            &&& only_line_changes(o, f)
        }
    } else {
        exists|mid: ShellState|
            mid.esc_state == 0 && #[trigger] line_of(&mid) == line_of(o) && mid.len
                == o.len && mid.buffer == o.buffer && mid.last_newline
                == o.last_newline && only_line_changes(o, &mid)
                && plain_byte_post(&mid, f, byte, a)
    }
}

/// Feed one received byte to the shell.
///
/// Ctrl+C stops `tail -f`, or else asks to cancel the running command; in
/// `tail -f` mode 'q' and 'Q' stop following and other input is ignored; the
/// arrow sequences ESC '[' 'A' and ESC '[' 'B' walk the history (other
/// sequences are swallowed); every other byte edits the line.
pub fn process_input_byte(st: &mut ShellState, byte: u8) -> (a: ShellAction)
    requires
        old(st).wf(),
        old(st).history_count < usize::MAX,
    ensures
        final(st).wf(),
        input_step(old(st), final(st), byte, a),
        final(st).initialized == old(st).initialized,
{
    if byte == 0x03 {
        if st.tail_follow_mode {
            st.tail_follow_mode = false;
            return ShellAction::StopFollow;
        }
        return ShellAction::Cancel;
    }
    if st.tail_follow_mode {
        if byte == 0x71 || byte == 0x51 {
            st.tail_follow_mode = false;
            return ShellAction::StopFollow;
        }
        return ShellAction::Nothing;
    }
    if st.esc_state == 1 {
        if byte == 0x5b {
            st.esc_state = 2;
            return ShellAction::Nothing;
        }
        st.esc_state = 0;
    } else if st.esc_state == 2 {
        st.esc_state = 0;
        if byte == 0x41 {
            return handle_history_up(st);
        } else if byte == 0x42 {
            return handle_history_down(st);
        } else {
            return ShellAction::Nothing;
        }
    }
    let ghost mid = *st;
    let a = plain_byte(st, byte);
    assert(line_of(&mid) == line_of(old(st)));
    a
}

/// What Ctrl+C does about a running command.
pub enum CancelOutcome {
    /// No command was running.
    NotRunning,
    /// A continuous ping was running: print "^C" and its statistics, and drop it.
    PingStopped,
    /// Another command was running: print "^C".
    Cancelled,
}

/// Cancel the running command, if any; true (a prompt is due) when one was.
pub fn cancel_running_command(command_running: &mut bool, ping_continuous: bool) -> (r: CancelOutcome)
    ensures
        !*final(command_running),
        !*old(command_running) ==> r is NotRunning,
        *old(command_running) && ping_continuous ==> r is PingStopped,
        *old(command_running) && !ping_continuous ==> r is Cancelled,
{
    if !*command_running {
        return CancelOutcome::NotRunning;
    }
    *command_running = false;
    if ping_continuous {
        CancelOutcome::PingStopped
    } else {
        CancelOutcome::Cancelled
    }
}

/// The shell's pid, once it has recorded one.
pub fn get_shell_pid(pid: usize) -> (r: Option<u32>)
    ensures
        pid > 0 ==> r == Some(pid as u32),
        pid == 0 ==> r is None,
{
    if pid > 0 {
        Some(pid as u32)
    } else {
        None
    }
}

/// Whether the shell has started.
pub fn is_shell_running(st: &ShellState) -> (r: bool)
    ensures
        r == st.initialized,
{
    st.initialized
}

// ─── Ping statistics ─────────────────────────────────────────────────────────

pub open spec fn lit_stats_open() -> Seq<u8> {
    seq![0x0au8, 0x2d, 0x2d, 0x2d, 0x20]
}

pub open spec fn lit_stats_title() -> Seq<u8> {
    seq![0x20u8, 0x70, 0x69, 0x6e, 0x67, 0x20, 0x73, 0x74, 0x61, 0x74, 0x69, 0x73, 0x74, 0x69, 0x63, 0x73, 0x20, 0x2d, 0x2d, 0x2d, 0x0a]
}

pub open spec fn lit_transmitted() -> Seq<u8> {
    seq![0x20u8, 0x70, 0x61, 0x63, 0x6b, 0x65, 0x74, 0x73, 0x20, 0x74, 0x72, 0x61, 0x6e, 0x73, 0x6d, 0x69, 0x74, 0x74, 0x65, 0x64, 0x2c, 0x20]
}

pub open spec fn lit_received() -> Seq<u8> {
    seq![0x20u8, 0x72, 0x65, 0x63, 0x65, 0x69, 0x76, 0x65, 0x64, 0x2c, 0x20]
}

pub open spec fn lit_loss() -> Seq<u8> {
    seq![0x25u8, 0x20, 0x70, 0x61, 0x63, 0x6b, 0x65, 0x74, 0x20, 0x6c, 0x6f, 0x73, 0x73, 0x0a]
}

pub open spec fn lit_rtt() -> Seq<u8> {
    seq![0x72u8, 0x74, 0x74, 0x20, 0x6d, 0x69, 0x6e, 0x2f, 0x61, 0x76, 0x67, 0x2f, 0x6d, 0x61, 0x78, 0x20, 0x3d, 0x20]
}

pub open spec fn lit_slash() -> Seq<u8> {
    seq![0x2fu8]
}

pub open spec fn lit_ms() -> Seq<u8> {
    seq![0x20u8, 0x6d, 0x73, 0x0a]
}

pub open spec fn lit_nl() -> Seq<u8> {
    seq![0x0au8]
}

/// The summary a stopped ping prints, like Linux `ping`: the target, how
/// many requests went out and came back, the loss, and the round-trip
/// times (min/avg/max, as unsigned numbers) when any reply came.
pub open spec fn ping_statistics_text(p: PingState) -> Seq<u8> {
    let head = lit_stats_open() + ipv4_text(p.target@) + lit_stats_title() + dec_text(p.packets_sent as nat)
        + lit_transmitted() + dec_text(p.packets_received as nat) + lit_received() + dec_text(
        ping_loss(p) as nat,
    ) + lit_loss();
    let rtt = if p.packets_received > 0 {
        lit_rtt() + dec_text((p.min_rtt as u64) as nat) + lit_slash() + dec_text((ping_avg(p) as u64) as nat)
            + lit_slash() + dec_text((p.max_rtt as u64) as nat) + lit_ms()
    } else {
        seq![]
    };
    head + rtt + lit_nl()
}

/// The loss percentage of `p` (see `PingState::packet_loss_percent`).
pub open spec fn ping_loss(p: PingState) -> u32 {
    if p.packets_sent > 0 {
        ((p.packets_sent - p.packets_received) * 100 / p.packets_sent as int) as u32
    } else {
        0
    }
}

/// The mean round-trip time of `p` (see `PingState::avg_rtt`).
pub open spec fn ping_avg(p: PingState) -> i64 {
    if p.packets_received > 0 {
        (if p.total_rtt >= 0 {
            p.total_rtt as int / p.packets_received as int
        } else {
            -((-p.total_rtt as int) / p.packets_received as int)
        }) as i64
    } else {
        0
    }
}

fn push_lit(out: &mut Vec<u8>, lit: &[u8], Ghost(s): Ghost<Seq<u8>>)
    requires
        lit@ == s,
    ensures
        final(out)@ == old(out)@ + s,
{
    push_bytes(out, lit);
}

/// Print the statistics of a stopped ping (see `ping_statistics_text`).
#[verifier::rlimit(50)]
#[verifier::spinoff_prover]
pub fn print_ping_statistics(p: &PingState) -> (text: Vec<u8>)
    requires
        p.packets_received <= p.packets_sent,
        (p.packets_sent - p.packets_received) * 100 <= u32::MAX,
    ensures
        text@ == ping_statistics_text(*p),
{
    let mut out: Vec<u8> = Vec::new();
    let a1: [u8; 5] = [0x0a, 0x2d, 0x2d, 0x2d, 0x20];
    assert(a1@ =~= lit_stats_open());
    push_lit(&mut out, &a1, Ghost(lit_stats_open()));
    let mut ip_buf: [u8; 16] = [0u8; 16];
    proof {
        crate::net::utils::lemma_ipv4_text_len(p.target@);
    }
    let n = format_ipv4(p.target, &mut ip_buf);
    let mut i: usize = 0;
    let ghost o0 = out@;
    while i < n
        invariant
            i <= n,
            n <= 16,
            ip_buf@.len() == 16,
            ip_buf@.take(n as int) == ipv4_text(p.target@),
            out@ == o0 + ip_buf@.take(i as int),
        decreases n - i,
    {
        out.push(ip_buf[i]);
        i = i + 1;
        assert(out@ =~= o0 + ip_buf@.take(i as int));
    }
    let a2: [u8; 21] = [0x20, 0x70, 0x69, 0x6e, 0x67, 0x20, 0x73, 0x74, 0x61, 0x74, 0x69, 0x73, 0x74, 0x69, 0x63, 0x73, 0x20, 0x2d, 0x2d, 0x2d, 0x0a];
    assert(a2@ =~= lit_stats_title());
    push_lit(&mut out, &a2, Ghost(lit_stats_title()));
    push_decimal(&mut out, p.packets_sent as u64);
    let a3: [u8; 22] = [0x20, 0x70, 0x61, 0x63, 0x6b, 0x65, 0x74, 0x73, 0x20, 0x74, 0x72, 0x61, 0x6e, 0x73, 0x6d, 0x69, 0x74, 0x74, 0x65, 0x64, 0x2c, 0x20];
    assert(a3@ =~= lit_transmitted());
    push_lit(&mut out, &a3, Ghost(lit_transmitted()));
    push_decimal(&mut out, p.packets_received as u64);
    let a4: [u8; 11] = [0x20, 0x72, 0x65, 0x63, 0x65, 0x69, 0x76, 0x65, 0x64, 0x2c, 0x20];
    assert(a4@ =~= lit_received());
    push_lit(&mut out, &a4, Ghost(lit_received()));
    push_decimal(&mut out, p.packet_loss_percent() as u64);
    let a5: [u8; 14] = [0x25, 0x20, 0x70, 0x61, 0x63, 0x6b, 0x65, 0x74, 0x20, 0x6c, 0x6f, 0x73, 0x73, 0x0a];
    assert(a5@ =~= lit_loss());
    push_lit(&mut out, &a5, Ghost(lit_loss()));
    let ghost head = out@;
    if p.packets_received > 0 {
        let a6: [u8; 18] = [0x72, 0x74, 0x74, 0x20, 0x6d, 0x69, 0x6e, 0x2f, 0x61, 0x76, 0x67, 0x2f, 0x6d, 0x61, 0x78, 0x20, 0x3d, 0x20];
        assert(a6@ =~= lit_rtt());
        push_lit(&mut out, &a6, Ghost(lit_rtt()));
        push_decimal(&mut out, p.min_rtt as u64);
        out.push(0x2f);
        push_decimal(&mut out, p.avg_rtt() as u64);
        out.push(0x2f);
        push_decimal(&mut out, p.max_rtt as u64);
        let a7: [u8; 4] = [0x20, 0x6d, 0x73, 0x0a];
        assert(a7@ =~= lit_ms());
        push_lit(&mut out, &a7, Ghost(lit_ms()));
    }
    out.push(0x0a);
    assert(out@ =~= ping_statistics_text(*p));
    out
}

// ─── tail -f ─────────────────────────────────────────────────────────────────

pub open spec fn lit_fs_unavailable() -> Seq<u8> {
    seq![0x1bu8, 0x5b, 0x31, 0x3b, 0x33, 0x31, 0x6d, 0x74, 0x61, 0x69, 0x6c, 0x3a, 0x20, 0x66, 0x69, 0x6c, 0x65, 0x73, 0x79, 0x73, 0x74, 0x65, 0x6d, 0x20, 0x6e, 0x6f, 0x74, 0x20, 0x61, 0x76, 0x61, 0x69, 0x6c, 0x61, 0x62, 0x6c, 0x65, 0x1b, 0x5b, 0x30, 0x6d, 0x0a]
}

pub open spec fn lit_cannot_open() -> Seq<u8> {
    seq![0x1bu8, 0x5b, 0x31, 0x3b, 0x33, 0x31, 0x6d, 0x74, 0x61, 0x69, 0x6c, 0x3a, 0x20, 0x63, 0x61, 0x6e, 0x6e, 0x6f, 0x74, 0x20, 0x6f, 0x70, 0x65, 0x6e, 0x20, 0x27]
}

pub open spec fn lit_no_such_file() -> Seq<u8> {
    seq![0x27u8, 0x3a, 0x20, 0x4e, 0x6f, 0x20, 0x73, 0x75, 0x63, 0x68, 0x20, 0x66, 0x69, 0x6c, 0x65, 0x1b, 0x5b, 0x30, 0x6d, 0x0a]
}

pub open spec fn lit_following() -> Seq<u8> {
    seq![0x0au8, 0x1b, 0x5b, 0x32, 0x6d, 0x2d, 0x2d, 0x2d, 0x20, 0x46, 0x6f, 0x6c, 0x6c, 0x6f, 0x77, 0x69, 0x6e, 0x67, 0x20, 0x28, 0x43, 0x74, 0x72, 0x6c, 0x2b, 0x43, 0x20, 0x6f, 0x72, 0x20, 0x27, 0x71, 0x27, 0x20, 0x74, 0x6f, 0x20, 0x73, 0x74, 0x6f, 0x70, 0x29, 0x20, 0x2d, 0x2d, 0x2d, 0x1b, 0x5b, 0x30, 0x6d, 0x0a]
}

/// The last `n` of `ls` (all of them when there are no more).
pub open spec fn last_lines(ls: Seq<Seq<u8>>, n: nat) -> Seq<Seq<u8>> {
    if ls.len() > n {
        ls.skip(ls.len() - n)
    } else {
        ls
    }
}

/// Lines written one after another, each ended by '\n'.
pub open spec fn joined_lines(ls: Seq<Seq<u8>>) -> Seq<u8>
    decreases ls.len(),
{
    if ls.len() == 0 {
        Seq::empty()
    } else {
        joined_lines(ls.drop_last()) + ls.last() + seq![0x0au8]
    }
}

/// Start following a file for `tail -f`: what was printed, whether it
/// worked, and the file's size. Without a filesystem, or when the file
/// cannot be read (`content` is `None`), an error is printed. Otherwise its
/// last `num_lines` lines are shown (when it is UTF-8 text) and a banner
/// says it is being followed.
pub fn start_tail_follow(path: &str, num_lines: usize, fs_available: bool, content: Option<&Vec<u8>>) -> (r: (bool, usize, Vec<u8>))
    ensures
        !fs_available ==> r.0 == false && r.1 == 0 && r.2@ == lit_fs_unavailable(),
        fs_available && content is None ==> r.0 == false && r.1 == 0 && r.2@ == lit_cannot_open() + path.spec_bytes()
            + lit_no_such_file(),
        fs_available && content is Some ==> {
            let c = content.unwrap()@;
            &&& r.0 == true
            &&& r.1 == c.len()
            &&& r.2@ == (if vstd::utf8::valid_utf8(c) {
                joined_lines(last_lines(lines_from(c, 0, Seq::empty()), num_lines as nat))
            } else {
                Seq::empty()
            }) + lit_following()
        },
{
    let mut out: Vec<u8> = Vec::new();
    if !fs_available {
    let l_fs_unavailable: [u8; 42] = [0x1b, 0x5b, 0x31, 0x3b, 0x33, 0x31, 0x6d, 0x74, 0x61, 0x69, 0x6c, 0x3a, 0x20, 0x66, 0x69, 0x6c, 0x65, 0x73, 0x79, 0x73, 0x74, 0x65, 0x6d, 0x20, 0x6e, 0x6f, 0x74, 0x20, 0x61, 0x76, 0x61, 0x69, 0x6c, 0x61, 0x62, 0x6c, 0x65, 0x1b, 0x5b, 0x30, 0x6d, 0x0a];
    assert(l_fs_unavailable@ =~= lit_fs_unavailable());
    push_lit(&mut out, &l_fs_unavailable, Ghost(lit_fs_unavailable()));
        return (false, 0, out);
    }
    let c = match content {
        Some(c) => c,
        None => {
            let l_cannot_open: [u8; 26] = [0x1b, 0x5b, 0x31, 0x3b, 0x33, 0x31, 0x6d, 0x74, 0x61, 0x69, 0x6c, 0x3a, 0x20, 0x63, 0x61, 0x6e, 0x6e, 0x6f, 0x74, 0x20, 0x6f, 0x70, 0x65, 0x6e, 0x20, 0x27];
            assert(l_cannot_open@ =~= lit_cannot_open());
            push_lit(&mut out, &l_cannot_open, Ghost(lit_cannot_open()));
            push_bytes(&mut out, path.as_bytes());
            let l_no_such_file: [u8; 20] = [0x27, 0x3a, 0x20, 0x4e, 0x6f, 0x20, 0x73, 0x75, 0x63, 0x68, 0x20, 0x66, 0x69, 0x6c, 0x65, 0x1b, 0x5b, 0x30, 0x6d, 0x0a];
            assert(l_no_such_file@ =~= lit_no_such_file());
            push_lit(&mut out, &l_no_such_file, Ghost(lit_no_such_file()));
            return (false, 0, out);
        },
    };
    match str_from_utf8(c.as_slice()) {
        Some(_) => {
            let ls = text_lines(c);
            let ghost lv = byte_views(ls@);
            let start: usize = if ls.len() > num_lines { ls.len() - num_lines } else { 0 };
            let mut i: usize = start;
            while i < ls.len()
                invariant
                    start <= i <= ls@.len(),
                    lv == byte_views(ls@),
                    lv.len() == ls@.len(),
                    start == if ls@.len() > num_lines { ls@.len() - num_lines } else { 0 },
                    out@ == joined_lines(lv.subrange(start as int, i as int)),
                decreases ls@.len() - i,
            {
                let ghost before = out@;
                push_bytes(&mut out, ls[i].as_slice());
                out.push(0x0a);
                assert(lv.subrange(start as int, i + 1).drop_last() =~= lv.subrange(start as int, i as int));
                assert(lv[i as int] == ls@[i as int]@);
                i = i + 1;
            }
            assert(lv.subrange(start as int, lv.len() as int) =~= last_lines(lv, num_lines as nat));
        },
        None => {},
    }
    let l_following: [u8; 51] = [0x0a, 0x1b, 0x5b, 0x32, 0x6d, 0x2d, 0x2d, 0x2d, 0x20, 0x46, 0x6f, 0x6c, 0x6c, 0x6f, 0x77, 0x69, 0x6e, 0x67, 0x20, 0x28, 0x43, 0x74, 0x72, 0x6c, 0x2b, 0x43, 0x20, 0x6f, 0x72, 0x20, 0x27, 0x71, 0x27, 0x20, 0x74, 0x6f, 0x20, 0x73, 0x74, 0x6f, 0x70, 0x29, 0x20, 0x2d, 0x2d, 0x2d, 0x1b, 0x5b, 0x30, 0x6d, 0x0a];
    assert(l_following@ =~= lit_following());
    push_lit(&mut out, &l_following, Ghost(lit_following()));
    (true, c.len(), out)
}

// ─── The shell daemon's tick ─────────────────────────────────────────────────

/// Bytes one tick handles at most.
pub const TICK_BYTES: usize = 64;

/// How many received bytes a tick feeds to the shell, from `i` on: up to
/// `limit`, stopping at a NUL (which means nothing was there).
pub open spec fn fed_len_from(input: Seq<u8>, limit: int, i: int) -> int
    decreases limit - i,
{
    if i < 0 || i >= limit || i >= input.len() || input[i] == 0 {
        if i < 0 { 0 } else { i }
    } else {
        fed_len_from(input, limit, i + 1)
    }
}

pub open spec fn fed_len(input: Seq<u8>, limit: int) -> int {
    fed_len_from(input, limit, 0)
}

/// The shell went from `states[0]` through one step per fed byte.
pub open spec fn stepped(states: Seq<ShellState>, input: Seq<u8>, actions: Seq<ShellAction>, n: int) -> bool {
    &&& states.len() == n + 1
    &&& actions.len() == n
    &&& forall|k: int| 0 <= k < n ==> #[trigger] input_step(&states[k], &states[k + 1], input[k], actions[k])
}

proof fn lemma_step_history(o: &ShellState, f: &ShellState, b: u8, a: ShellAction)
    requires
        input_step(o, f, b, a),
    ensures
        f.history_count <= o.history_count + 1,
{
}

/// Feed the shell the bytes the console received (`input`, in order), at
/// most `limit` of them and none from a NUL on; returns how many were fed
/// and what each asked for, each step as `process_input_byte` takes it.
pub fn feed_input(st: &mut ShellState, input: &[u8], limit: usize) -> (r: (usize, Vec<ShellAction>))
    requires
        old(st).wf(),
        old(st).history_count + limit < usize::MAX,
    ensures
        final(st).wf(),
        r.0 == fed_len(input@, limit as int),
        r.0 <= limit,
        final(st).history_count <= old(st).history_count + r.0,
        final(st).initialized == old(st).initialized,
        exists|states: Seq<ShellState>|
            #[trigger] stepped(states, input@, r.1@, r.0 as int) && states[0] == *old(st) && states[r.0 as int]
                == *final(st),
{
    let mut actions: Vec<ShellAction> = Vec::new();
    let ghost mut states: Seq<ShellState> = seq![*st];
    let mut i: usize = 0;
    while i < limit && i < input.len() && input[i] != 0
        invariant
            st.wf(),
            i <= limit,
            i <= input@.len(),
            fed_len(input@, limit as int) == fed_len_from(input@, limit as int, i as int),
            st.history_count <= old(st).history_count + i,
            old(st).history_count + limit < usize::MAX,
            stepped(states, input@, actions@, i as int),
            states[0] == *old(st),
            states[i as int] == *st,
            st.initialized == old(st).initialized,
        decreases limit - i,
    {
        let ghost before = *st;
        let a = process_input_byte(st, input[i]);
        proof {
            lemma_step_history(&before, st, input@[i as int], a);
            states = states.push(*st);
        }
        actions.push(a);
        i = i + 1;
    }
    let r = (i, actions);
    assert(stepped(states, input@, r.1@, r.0 as int) && states[0] == *old(st) && states[r.0 as int] == *st);
    r
}

/// One tick of the shell daemon: feed it up to TICK_BYTES received bytes
/// (see `feed_input`). The caller then polls `tail -f`.
pub fn shell_tick(st: &mut ShellState, input: &[u8]) -> (r: (usize, Vec<ShellAction>))
    requires
        old(st).wf(),
        old(st).history_count + TICK_BYTES < usize::MAX,
    ensures
        final(st).wf(),
        r.0 == fed_len(input@, TICK_BYTES as int),
        r.0 <= TICK_BYTES,
        final(st).history_count <= old(st).history_count + r.0,
        final(st).initialized == old(st).initialized,
        exists|states: Seq<ShellState>|
            #[trigger] stepped(states, input@, r.1@, r.0 as int) && states[0] == *old(st) && states[r.0 as int]
                == *final(st),
{
    feed_input(st, input, TICK_BYTES)
}

/// What a run of the shell daemon did: the first tick, whether the shell
/// started (then the caller sets up the working directory, prints the
/// prompt and records the pid), and the second tick.
pub struct ServiceRun {
    pub first: (usize, Vec<ShellAction>),
    pub started: bool,
    pub second: (usize, Vec<ShellAction>),
}

/// One run of the shell daemon: a tick, the first-run start, another tick.
pub fn shell_service(st: &mut ShellState, input1: &[u8], input2: &[u8]) -> (r: ServiceRun)
    requires
        old(st).wf(),
        old(st).history_count + 2 * TICK_BYTES < usize::MAX,
    ensures
        final(st).wf(),
        final(st).initialized,
        r.first.0 == fed_len(input1@, TICK_BYTES as int),
        r.second.0 == fed_len(input2@, TICK_BYTES as int),
        r.started ==> !old(st).initialized,
{
    let first = shell_tick(st, input1);
    let started = st.start();
    let second = shell_tick(st, input2);
    ServiceRun { first, started, second }
}

} // verus!
