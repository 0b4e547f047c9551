//! The bounded, deduplicating and filtered store of diagnostic messages.

use std::collections::VecDeque;
use std::sync::mpsc::Sender;
use vstd::prelude::*;
use crate::text::{chars_of, has_infix, joined, seq_has_infix, str_contains, str_eq};

verus! {

/// How many messages the store keeps; the oldest leaves first.
pub const MAX_MESSAGES: usize = 1000;

/// How many recently accepted (level, message) pairs suppress a repeat.
pub const RECENT_WINDOW: usize = 10;

#[verifier::external_type_specification]
#[verifier::external_body]
#[verifier::reject_recursive_types(T)]
pub struct ExSender<T>(Sender<T>);

/// Relies on chrono's `Local::now` and `format`: the local time as
/// `YYYY-MM-DD HH:MM:SS`. It depends on the clock, so nothing is stated of it.
#[verifier::external_body]
fn local_timestamp() -> (r: String) {
    chrono::Local::now().format("%Y-%m-%d %H:%M:%S").to_string()
}

/// Relies on std's `Sender::send`: hands the line to the channel. A channel
/// without a receiver refuses it, and that refusal is ignored.
#[verifier::external_body]
fn forward_line(sender: &Sender<String>, line: String) {
    let _ = sender.send(line);
}

/// One stored diagnostic message.
pub struct LogMessage {
    pub level: String,
    pub message: String,
    pub timestamp: String,
}

/// The value of a [`LogMessage`].
pub struct LogRecord {
    pub level: Seq<char>,
    pub message: Seq<char>,
    pub timestamp: Seq<char>,
}

impl View for LogMessage {
    type V = LogRecord;

    open spec fn view(&self) -> LogRecord {
        LogRecord { level: self.level@, message: self.message@, timestamp: self.timestamp@ }
    }
}

impl LogMessage {
    /// A field-by-field copy.
    pub fn copy(&self) -> (r: LogMessage)
        ensures
            r@ == self@,
    {
        LogMessage {
            level: self.level.clone(),
            message: self.message.clone(),
            timestamp: self.timestamp.clone(),
        }
    }
}

/// The value of a [`LogState`].
pub struct LogView {
    /// Stored messages, oldest first.
    pub messages: Seq<LogRecord>,
    /// Recently accepted (level, message) pairs, oldest first.
    pub recent: Seq<(Seq<char>, Seq<char>)>,
    /// Whether accepted messages are forwarded to a terminal channel.
    pub forwarding: bool,
    /// Whether an initialization message has already been echoed to the console.
    pub init_echoed: bool,
    /// The lines sent to the terminal channel so far, oldest first.
    pub forwarded: Seq<Seq<char>>,
}

impl LogView {
    pub open spec fn wf(self) -> bool {
        &&& self.messages.len() <= MAX_MESSAGES
        &&& self.recent.len() <= RECENT_WINDOW
        &&& forall|i: int| 0 <= i < self.messages.len() ==> #[trigger] self.messages[i].level != "debug"@
    }
}

/// Levels that are always kept.
pub open spec fn is_severe(level: Seq<char>) -> bool {
    level == "error"@ || level == "warning"@ || level == "fatal"@
}

/// The message reports application initialization.
pub open spec fn mentions_init(message: Seq<char>) -> bool {
    has_infix(message, "앱 초기화"@)
}

/// The message speaks of user input, file work or running something.
pub open spec fn significant(message: Seq<char>) -> bool {
    ||| has_infix(message, "입력"@)
    ||| has_infix(message, "클릭"@)
    ||| has_infix(message, "선택"@)
    ||| has_infix(message, "파일"@)
    ||| has_infix(message, "저장"@)
    ||| has_infix(message, "열기"@)
    ||| has_infix(message, "실행"@)
    ||| has_infix(message, "시작"@)
    ||| has_infix(message, "종료"@)
}

/// Some stored message already reports initialization.
pub open spec fn init_already_logged(stored: Seq<LogRecord>) -> bool {
    exists|i: int| 0 <= i < stored.len() && mentions_init(#[trigger] stored[i].message)
}

/// The importance filter, rule by rule in order.
pub open spec fn important(stored: Seq<LogRecord>, level: Seq<char>, message: Seq<char>) -> bool {
    if is_severe(level) {
        true
    } else if level == "debug"@ {
        false
    } else if mentions_init(message) && init_already_logged(stored) {
        false
    } else if significant(message) {
        true
    } else {
        level == "info"@
    }
}

/// Whether the store takes a message: not a recent repeat, and important.
pub open spec fn admits(s: LogView, level: Seq<char>, message: Seq<char>) -> bool {
    !s.recent.contains((level, message)) && important(s.messages, level, message)
}

/// `q` with `x` appended, its first element dropped when `q` had reached `cap`.
pub open spec fn push_bounded<A>(q: Seq<A>, x: A, cap: nat) -> Seq<A> {
    if q.len() >= cap {
        q.drop_first().push(x)
    } else {
        q.push(x)
    }
}

/// The store after offering it a message stamped with `timestamp`.
pub open spec fn logged(s: LogView, level: Seq<char>, message: Seq<char>, timestamp: Seq<char>) -> LogView {
    if admits(s, level, message) {
        LogView {
            messages: push_bounded(
                s.messages,
                LogRecord { level, message, timestamp },
                MAX_MESSAGES as nat,
            ),
            recent: push_bounded(s.recent, (level, message), RECENT_WINDOW as nat),
            forwarded: if s.forwarding {
                s.forwarded.push(terminal_text(level, message))
            } else {
                s.forwarded
            },
            ..s
        }
    } else {
        s
    }
}

/// The console gate, rule by rule in order, given whether an initialization
/// message was echoed before.
pub open spec fn console_verdict(echoed: bool, level: Seq<char>, message: Seq<char>) -> bool {
    if is_severe(level) {
        true
    } else if mentions_init(message) && echoed {
        false
    } else if has_infix(message, "터미널 로그"@) {
        false
    } else if significant(message) {
        true
    } else if level == "debug"@ {
        false
    } else {
        level == "info"@
    }
}

/// The console gate's latch after it has seen a message.
pub open spec fn console_latch(echoed: bool, level: Seq<char>, message: Seq<char>) -> bool {
    echoed || (!is_severe(level) && mentions_init(message))
}

/// The store after the console gate has seen a message.
pub open spec fn gated(s: LogView, level: Seq<char>, message: Seq<char>) -> LogView {
    LogView { init_echoed: console_latch(s.init_echoed, level, message), ..s }
}

/// The line forwarded to the terminal channel for an accepted message.
pub open spec fn terminal_text(level: Seq<char>, message: Seq<char>) -> Seq<char> {
    "["@ + level + "] "@ + message
}

/// The line appended to the log file.
pub open spec fn file_text(timestamp: Seq<char>, level: Seq<char>, message: Seq<char>) -> Seq<char> {
    "["@ + timestamp + "] ["@ + level + "] "@ + message + "\n"@
}

proof fn lemma_important_not_debug(stored: Seq<LogRecord>, level: Seq<char>, message: Seq<char>)
    requires
        important(stored, level, message),
    ensures
        level != "debug"@,
{
    reveal_strlit("error");
    reveal_strlit("warning");
    reveal_strlit("fatal");
    reveal_strlit("debug");
    reveal_strlit("info");
    assert("error"@[0] != "debug"@[0]);
    assert("fatal"@[0] != "debug"@[0]);
}

/// `"[level] message"`.
pub fn terminal_line(level: &str, message: &str) -> (r: String)
    ensures
        r@ == terminal_text(level@, message@),
{
    joined("[", level).concat("] ").concat(message)
}

/// `"[timestamp] [level] message\n"`, one line of the log file.
pub fn log_line(timestamp: &str, level: &str, message: &str) -> (r: String)
    ensures
        r@ == file_text(timestamp@, level@, message@),
{
    joined("[", timestamp).concat("] [").concat(level).concat("] ").concat(message).concat("\n")
}

fn is_severe_level(level: &str) -> (r: bool)
    ensures
        r == is_severe(level@),
{
    str_eq(level, "error") || str_eq(level, "warning") || str_eq(level, "fatal")
}

fn is_significant(message: &str) -> (r: bool)
    ensures
        r == significant(message@),
{
    let w = chars_of(message);
    seq_has_infix(&w, &chars_of("입력")) || seq_has_infix(&w, &chars_of("클릭"))
        || seq_has_infix(&w, &chars_of("선택")) || seq_has_infix(&w, &chars_of("파일"))
        || seq_has_infix(&w, &chars_of("저장")) || seq_has_infix(&w, &chars_of("열기"))
        || seq_has_infix(&w, &chars_of("실행")) || seq_has_infix(&w, &chars_of("시작"))
        || seq_has_infix(&w, &chars_of("종료"))
}

/// The diagnostic log: stored messages, the recency window that suppresses
/// repeats, the optional terminal channel and the console gate's latch.
pub struct LogState {
    messages: VecDeque<LogMessage>,
    terminal_sender: Option<Sender<String>>,
    last_messages: VecDeque<(String, String)>,
    init_echoed: bool,
    forwarded: Ghost<Seq<Seq<char>>>,
}

impl View for LogState {
    type V = LogView;

    closed spec fn view(&self) -> LogView {
        LogView {
            messages: self.messages@.map_values(|m: LogMessage| m@),
            recent: self.last_messages@.map_values(|k: (String, String)| (k.0@, k.1@)),
            forwarding: self.terminal_sender is Some,
            init_echoed: self.init_echoed,
            forwarded: self.forwarded@,
        }
    }
}

impl LogState {
    /// An empty store with no terminal channel.
    pub fn new() -> (r: LogState)
        ensures
            r@ == (LogView {
                messages: Seq::empty(),
                recent: Seq::empty(),
                forwarding: false,
                init_echoed: false,
                forwarded: Seq::empty(),
            }),
            r@.wf(),
    {
        let r = LogState {
            messages: VecDeque::with_capacity(MAX_MESSAGES),
            terminal_sender: None,
            last_messages: VecDeque::with_capacity(RECENT_WINDOW),
            init_echoed: false,
            forwarded: Ghost(Seq::empty()),
        };
        assert(r@.messages =~= Seq::empty());
        assert(r@.recent =~= Seq::empty());
        r
    }

    /// A copy of the stored messages, oldest first.
    pub fn get_messages(&self) -> (r: Vec<LogMessage>)
        ensures
            r@.map_values(|m: LogMessage| m@) == self@.messages,
    {
        let n = self.messages.len();
        let mut r: Vec<LogMessage> = Vec::new();
        let mut i: usize = 0;
        while i < n
            invariant
                n == self.messages@.len(),
                i <= n,
                r@.map_values(|m: LogMessage| m@) =~= self@.messages.subrange(0, i as int),
            decreases n - i,
        {
            let m = self.messages[i].copy();
            assert(m@ == self@.messages[i as int]);
            let ghost before = r@;
            r.push(m);
            assert(r@.map_values(|m: LogMessage| m@) =~= before.map_values(|m: LogMessage| m@).push(
                self@.messages[i as int],
            ));
            i += 1;
        }
        assert(self@.messages.subrange(0, n as int) =~= self@.messages);
        r
    }

    /// From now on every accepted message is also sent, as `"[level] message"`,
    /// to `sender`.
    pub fn set_terminal_sender(&mut self, sender: Sender<String>)
        ensures
            final(self)@ == (LogView { forwarding: true, ..old(self)@ }),
    {
        self.terminal_sender = Some(sender);
    }

    /// Whether (level, message) is among the recently accepted pairs.
    pub fn is_duplicate_message(&self, level: &str, message: &str) -> (r: bool)
        ensures
            r == self@.recent.contains((level@, message@)),
    {
        let l = level.to_owned();
        let m = message.to_owned();
        let n = self.last_messages.len();
        let mut i: usize = 0;
        while i < n
            invariant
                n == self.last_messages@.len(),
                l@ == level@,
                m@ == message@,
                i <= n,
                forall|k: int| 0 <= k < i ==> self@.recent[k] != (level@, message@),
            decreases n - i,
        {
            let key = &self.last_messages[i];
            if key.0 == l && key.1 == m {
                assert(self@.recent[i as int] == (level@, message@));
                return true;
            }
            i += 1;
        }
        false
    }

    fn init_already_logged(&self) -> (r: bool)
        ensures
            r == init_already_logged(self@.messages),
    {
        let n = self.messages.len();
        let mut i: usize = 0;
        while i < n
            invariant
                n == self.messages@.len(),
                i <= n,
                forall|k: int| 0 <= k < i ==> !mentions_init(#[trigger] self@.messages[k].message),
            decreases n - i,
        {
            if str_contains(self.messages[i].message.as_str(), "앱 초기화") {
                assert(mentions_init(self@.messages[i as int].message));
                return true;
            }
            i += 1;
        }
        false
    }

    /// Whether the importance filter keeps this message, given what is stored.
    pub fn is_important_log(&self, level: &str, message: &str) -> (r: bool)
        ensures
            r == important(self@.messages, level@, message@),
    {
        if is_severe_level(level) {
            return true;
        }
        if str_eq(level, "debug") {
            return false;
        }
        if str_contains(message, "앱 초기화") && self.init_already_logged() {
            return false;
        }
        if is_significant(message) {
            return true;
        }
        str_eq(level, "info")
    }

    /// Offers a message stamped with `timestamp`. A repeat of a recently
    /// accepted pair, or one the importance filter drops, changes nothing.
    /// Otherwise the pair enters the recency window and the message the store,
    /// each dropping its oldest element when full, and the line
    /// `"[level] message"` goes to the terminal channel if there is one. A
    /// message that is not taken sends nothing.
    pub fn add_message_at(&mut self, level: &str, message: &str, timestamp: String)
        requires
            old(self)@.wf(),
        ensures
            final(self)@ == logged(old(self)@, level@, message@, timestamp@),
            final(self)@.wf(),
    {
        let ghost s0 = self@;
        if self.is_duplicate_message(level, message) {
            return;
        }
        if !self.is_important_log(level, message) {
            return;
        }
        proof {
            lemma_important_not_debug(s0.messages, level@, message@);
        }
        let ghost recent0 = self.last_messages@;
        if self.last_messages.len() >= RECENT_WINDOW {
            let _ = self.last_messages.pop_front();
        }
        self.last_messages.push_back((level.to_owned(), message.to_owned()));
        assert(self@.recent =~= push_bounded(s0.recent, (level@, message@), RECENT_WINDOW as nat));
        let record = LogMessage { level: level.to_owned(), message: message.to_owned(), timestamp };
        let ghost rec = record@;
        if self.messages.len() >= MAX_MESSAGES {
            let _ = self.messages.pop_front();
        }
        self.messages.push_back(record);
        assert(self@.messages =~= push_bounded(s0.messages, rec, MAX_MESSAGES as nat));
        let sent = match &self.terminal_sender {
            Some(sender) => {
                forward_line(sender, terminal_line(level, message));
                true
            },
            None => false,
        };
        if sent {
            self.forwarded = Ghost(self.forwarded@.push(terminal_text(level@, message@)));
        }
    }

    /// Offers a message stamped with the local time now (see
    /// [`LogState::add_message_at`]).
    pub fn add_message(&mut self, level: &str, message: &str)
        requires
            old(self)@.wf(),
        ensures
            exists|t: Seq<char>| final(self)@ == logged(old(self)@, level@, message@, t),
            final(self)@.wf(),
    {
        let timestamp = local_timestamp();
        let ghost t = timestamp@;
        self.add_message_at(level, message, timestamp);
        assert(self@ == logged(old(self)@, level@, message@, t));
    }

    /// The console gate: whether a message is also echoed to the console.
    /// Only the first initialization message gets through; the latch that
    /// remembers it is set here.
    pub fn is_important_console_log(&mut self, level: &str, message: &str) -> (r: bool)
        ensures
            r == console_verdict(old(self)@.init_echoed, level@, message@),
            final(self)@ == gated(old(self)@, level@, message@),
    {
        if is_severe_level(level) {
            return true;
        }
        if str_contains(message, "앱 초기화") {
            if self.init_echoed {
                return false;
            }
            self.init_echoed = true;
        }
        if str_contains(message, "터미널 로그") {
            return false;
        }
        if is_significant(message) {
            return true;
        }
        if str_eq(level, "debug") {
            return false;
        }
        str_eq(level, "info")
    }

    /// One diagnostic event: applies the console gate, then offers the
    /// message to the store. Returns whether the caller echoes it to the
    /// console.
    pub fn add_log(&mut self, level: &str, message: &str) -> (echo: bool)
        requires
            old(self)@.wf(),
        ensures
            echo == console_verdict(old(self)@.init_echoed, level@, message@),
            exists|t: Seq<char>|
                final(self)@ == logged(gated(old(self)@, level@, message@), level@, message@, t),
            final(self)@.wf(),
    {
        let echo = self.is_important_console_log(level, message);
        self.add_message(level, message);
        echo
    }
}

} // verus!
