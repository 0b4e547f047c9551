//! The filter that decides which forwarded log lines are echoed to the
//! console: a short window of recent distinct lines suppresses repeats.

use vstd::prelude::*;
use crate::log_store::mentions_init;
use crate::text::{has_infix, str_contains, str_eq};

verus! {

/// How many distinct lines the window holds before it starts over.
pub const TERMINAL_WINDOW: usize = 20;

/// The window after seeing `line`, and whether `line` is echoed.
pub open spec fn echo_step(recent: Seq<Seq<char>>, line: Seq<char>) -> (Seq<Seq<char>>, bool) {
    if recent.contains(line) {
        (recent, false)
    } else {
        let grown = recent.push(line);
        (
            if grown.len() > TERMINAL_WINDOW {
                seq![line]
            } else {
                grown
            },
            !mentions_init(line) && !has_infix(line, "터미널 로그"@),
        )
    }
}

/// The console side of the terminal channel.
pub struct TerminalFilter {
    recent: Vec<String>,
}

impl View for TerminalFilter {
    type V = Seq<Seq<char>>;

    closed spec fn view(&self) -> Seq<Seq<char>> {
        self.recent@.map_values(|s: String| s@)
    }
}

impl TerminalFilter {
    /// A filter that has seen nothing.
    pub fn new() -> (r: TerminalFilter)
        ensures
            r@ == Seq::<Seq<char>>::empty(),
    {
        let r = TerminalFilter { recent: Vec::new() };
        assert(r@ =~= Seq::<Seq<char>>::empty());
        r
    }

    /// Sees one forwarded line and says whether it is echoed: a line still in
    /// the window is not; a new one joins the window (which starts over with
    /// it once it would exceed its size) and is echoed unless it speaks of
    /// initialization or of the terminal log itself.
    pub fn accept(&mut self, line: &str) -> (r: bool)
        ensures
            (final(self)@, r) == echo_step(old(self)@, line@),
    {
        let mut i: usize = 0;
        while i < self.recent.len()
            invariant
                i <= self.recent@.len(),
                forall|k: int| 0 <= k < i ==> self@[k] != line@,
            decreases self.recent@.len() - i,
        {
            if str_eq(self.recent[i].as_str(), line) {
                assert(self@[i as int] == line@);
                return false;
            }
            i += 1;
        }
        let ghost before = self@;
        self.recent.push(line.to_owned());
        assert(self@ =~= before.push(line@));
        if self.recent.len() > TERMINAL_WINDOW {
            self.recent = vec![line.to_owned()];
            assert(self@ =~= seq![line@]);
        }
        !str_contains(line, "앱 초기화") && !str_contains(line, "터미널 로그")
    }
}

} // verus!
