use vstd::prelude::*;
use std::collections::VecDeque;
use crate::text::{trim, trimmed};

verus! {

/// The number of entries the history holds at most.
pub const MAX_COMMAND: usize = 1000;

/// An input line and what it evaluated to.
pub type Entry = (Seq<char>, Seq<char>);

/// The last `MAX_COMMAND` entries of `entries`.
pub open spec fn newest(entries: Seq<Entry>) -> Seq<Entry> {
    if entries.len() > MAX_COMMAND {
        entries.subrange(entries.len() - MAX_COMMAND, entries.len() as int)
    } else {
        entries
    }
}

/// The history after one more line: the entry goes to the back with both
/// strings trimmed, and the oldest entries beyond the cap leave.
pub open spec fn pushed(history: Seq<Entry>, command: Seq<char>, result: Seq<char>) -> Seq<Entry> {
    newest(history.push((trimmed(command), trimmed(result))))
}

/// The history after a run of lines, given as they will be stored.
pub open spec fn pushed_all(history: Seq<Entry>, entries: Seq<Entry>) -> Seq<Entry>
    decreases entries.len(),
{
    if entries.len() == 0 {
        history
    } else {
        newest(pushed_all(history, entries.drop_last()).push(entries.last()))
    }
}

/// One stored line as the listing shows it.
pub open spec fn entry_line(entry: Entry) -> Seq<char> {
    "  "@ + entry.0 + ": "@ + entry.1 + "\n"@
}

/// The listing of a history, oldest line first.
pub open spec fn listing(entries: Seq<Entry>) -> Seq<char>
    decreases entries.len(),
{
    if entries.len() == 0 {
        Seq::empty()
    } else {
        listing(entries.drop_last()) + entry_line(entries.last())
    }
}

/// A bounded history of input lines and their results, oldest first.
#[derive(Debug, PartialEq)]
pub struct Commands {
    pub data: VecDeque<Box<(String, String)>>,
}

impl View for Commands {
    type V = Seq<Entry>;

    open spec fn view(&self) -> Seq<Entry> {
        self.data@.map_values(|b: Box<(String, String)>| (b.0@, b.1@))
    }
}

impl Commands {
    /// The history never holds more than `MAX_COMMAND` entries.
    pub open spec fn wf(&self) -> bool {
        self@.len() <= MAX_COMMAND
    }

    /// The empty history.
    pub fn new() -> (commands: Commands)
        ensures
            commands@ == Seq::<Entry>::empty(),
            commands.wf(),
    {
        let commands = Commands { data: VecDeque::new() };
        assert(commands@ =~= Seq::<Entry>::empty());
        commands
    }

    /// Number of stored entries.
    pub fn len(&self) -> (n: usize)
        ensures
            n == self@.len(),
    {
        broadcast use vstd::std_specs::vecdeque::group_vec_dequeue_axioms;

        self.data.len()
    }

    /// Stores a line and its result, trimmed, and drops the oldest entries
    /// beyond the cap.
    pub fn push(&mut self, command: String, result: String)
        requires
            old(self).wf(),
        ensures
            final(self)@ == pushed(old(self)@, command@, result@),
            final(self).wf(),
    {
        broadcast use vstd::std_specs::vecdeque::group_vec_dequeue_axioms;

        let command = String::from_str(trim(command.as_str()));
        let result = String::from_str(trim(result.as_str()));
        let ghost entry = (command@, result@);
        self.data.push_back(Box::new((command, result)));
        assert(self@ =~= old(self)@.push(entry));
        let ghost full = self@;
        while self.data.len() > MAX_COMMAND
            invariant
                self@.len() <= full.len(),
                self@.len() == full.len() || self@.len() >= MAX_COMMAND,
                self@ == full.subrange(full.len() - self@.len(), full.len() as int),
            decreases self.data.len(),
        {
            let ghost before = self@;
            self.data.pop_front();
            assert(self@ =~= before.subrange(1, before.len() as int));
            assert(self@ =~= full.subrange(full.len() - self@.len(), full.len() as int));
        }
        assert(self@ =~= newest(full)) by {
            if full.len() <= MAX_COMMAND {
                assert(full.subrange(0, full.len() as int) =~= full);
            }
        }
    }

    /// Every stored line with its result, oldest first.
    pub fn show(&self) -> (text: String)
        ensures
            text@ == listing(self@),
    {
        broadcast use vstd::std_specs::vecdeque::group_vec_dequeue_axioms;

        let mut text = String::new();
        let n = self.data.len();
        let mut i: usize = 0;
        assert(self@.subrange(0, 0) =~= Seq::<Entry>::empty());
        while i < n
            invariant
                n == self@.len(),
                n == self.data@.len(),
                i <= n,
                text@ == listing(self@.subrange(0, i as int)),
            decreases n - i,
        {
            let b = &self.data[i];
            let ghost before = text@;
            text.append("  ");
            text.append(b.0.as_str());
            text.append(": ");
            text.append(b.1.as_str());
            text.append("\n");
            proof {
                let upto = self@.subrange(0, i + 1);
                assert(upto.drop_last() =~= self@.subrange(0, i as int));
                assert(upto.last() == self@[i as int]);
                assert(text@ =~= before + entry_line(self@[i as int]));
            }
            i += 1;
        }
        assert(self@.subrange(0, n as int) =~= self@);
        text
    }

    /// The input of the entry `index` steps back from the newest.
    pub fn at(&self, index: usize) -> (input: Option<String>)
        ensures
            index < self@.len() ==> input is Some && input->Some_0@ == self@[self@.len() - 1
                - index].0,
            index >= self@.len() ==> input is None,
    {
        broadcast use vstd::std_specs::vecdeque::group_vec_dequeue_axioms;

        if self.data.len() <= index {
            None
        } else {
            let b = &self.data[self.data.len() - index - 1];
            Some(b.0.clone())
        }
    }
}

/// The row to show after a history key, and how far back it lies.
///
/// `index` tells how far back the row shown so far lies, `None` for the
/// row that the user is typing; `typed` is what stands on the row, and
/// `kept` what the user had typed before going back. The key for older
/// lines goes one line further back if there is one. The key for newer
/// lines comes one line forward, and from the newest line back to what
/// was kept. Where there is no line to go to, the row stays.
pub open spec fn recalled(
    history: Seq<Entry>,
    index: Option<usize>,
    up: bool,
    typed: Seq<char>,
    kept: Seq<char>,
) -> (Option<usize>, Seq<char>) {
    if up {
        let older = match index {
            None => 0,
            Some(i) => i + 1,
        };
        if older < history.len() {
            (Some(older as usize), history[history.len() - 1 - older].0)
        } else {
            (index, typed)
        }
    } else {
        match index {
            None => (None, typed),
            Some(i) => if i == 0 {
                (None, kept)
            } else if i - 1 < history.len() {
                (Some((i - 1) as usize), history[history.len() - i].0)
            } else {
                (index, typed)
            },
        }
    }
}

/// The row to show after a history key, and how far back it lies.
pub fn recall(commands: &Commands, index: Option<usize>, up: bool, typed: &String, kept: &String) -> (res:
    (Option<usize>, String))
    ensures
        res.0 == recalled(commands@, index, up, typed@, kept@).0,
        res.1@ == recalled(commands@, index, up, typed@, kept@).1,
{
    if up {
        let older = match index {
            None => 0,
            Some(i) => {
                if i >= commands.len() {
                    return (index, typed.clone());
                }
                i + 1
            },
        };
        match commands.at(older) {
            Some(line) => (Some(older), line),
            None => (index, typed.clone()),
        }
    } else {
        match index {
            None => (None, typed.clone()),
            Some(i) => {
                if i == 0 {
                    (None, kept.clone())
                } else {
                    match commands.at(i - 1) {
                        Some(line) => (Some(i - 1), line),
                        None => (index, typed.clone()),
                    }
                }
            },
        }
    }
}

/// From an empty history, a run of more than `MAX_COMMAND` lines leaves
/// exactly the last `MAX_COMMAND` of them, in order: the oldest line kept is
/// the one at position `entries.len() - MAX_COMMAND` of the run.
pub proof fn lemma_history_cap(entries: Seq<Entry>)
    requires
        entries.len() > MAX_COMMAND,
    ensures
        pushed_all(Seq::empty(), entries).len() == MAX_COMMAND,
        pushed_all(Seq::empty(), entries) == entries.subrange(
            entries.len() - MAX_COMMAND,
            entries.len() as int,
        ),
        pushed_all(Seq::empty(), entries)[0] == entries[entries.len() - MAX_COMMAND],
{
    lemma_pushed_all(entries);
}

/// From an empty history, any run of lines leaves its newest entries.
pub proof fn lemma_pushed_all(entries: Seq<Entry>)
    ensures
        pushed_all(Seq::empty(), entries) == newest(entries),
    decreases entries.len(),
{
    if entries.len() == 0 {
    } else {
        lemma_pushed_all(entries.drop_last());
        let before = newest(entries.drop_last());
        assert(newest(before.push(entries.last())) =~= newest(entries));
    }
}

} // verus!
