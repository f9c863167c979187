//! The task record: a free-text description, a status, and an optional
//! assignee, together with the keyword-driven status change and the rendering
//! of one display line.

use vstd::prelude::*;

use crate::chars::char_str;
use crate::chars::str_eq;
use crate::digits::spec_decimal;
use crate::digits::usize_to_string;
use crate::status::Status;

verus! {

/// One task of the list.
pub struct Item {
    pub text: String,
    pub status: Status,
    pub person: Option<String>,
}

/// The mathematical content of an `Item`: its description and assignee as
/// character sequences, and its status.
#[verifier::ext_equal]
pub struct ItemView {
    pub text: Seq<char>,
    pub status: Status,
    pub person: Option<Seq<char>>,
}

impl View for Item {
    type V = ItemView;

    open spec fn view(&self) -> ItemView {
        ItemView {
            text: self.text@,
            status: self.status,
            person: match self.person {
                Some(p) => Some(p@),
                None => None,
            },
        }
    }
}

/// The status a change keyword selects: the five keywords each select their
/// status, any other keyword keeps the current one.
pub open spec fn spec_keyword_status(k: Seq<char>, cur: Status) -> Status {
    if k == seq!['p', 'e', 'n', 'd', 'i', 'n', 'g'] {
        Status::Pending
    } else if k == seq!['s', 't', 'o', 'p'] {
        Status::Stopped
    } else if k == seq!['c', 'o', 'm', 'p', 'l', 'e', 't', 'e'] {
        Status::Completed
    } else if k == seq!['f', 'i', 'n', 'i', 's', 'h'] {
        Status::Finished
    } else if k == seq!['t', 'o', 'd', 'o'] {
        Status::ToDo
    } else {
        cur
    }
}

/// A task's assignee as the library keeps it: absent, or a trimmed,
/// non-empty name. Loading and every editing operation leave each task so.
pub open spec fn spec_person_wf(t: ItemView) -> bool {
    match t.person {
        None => true,
        Some(p) => p.len() > 0 && p == crate::chars::spec_trim(p),
    }
}

/// Whatever a task's current status, the `finish` keyword sets the finished
/// status, whose stored symbol is the check mark, while an unrecognised
/// keyword such as `bogus` keeps the current status.
pub proof fn lemma_keyword_finish_bogus(cur: Status)
    ensures
        spec_keyword_status(seq!['f', 'i', 'n', 'i', 's', 'h'], cur) == Status::Finished,
        spec_keyword_status(seq!['f', 'i', 'n', 'i', 's', 'h'], cur).spec_symbol() == '✓',
        spec_keyword_status(seq!['b', 'o', 'g', 'u', 's'], cur) == cur,
{
}

/// The display line for a task: its color, its 1-based number, its status
/// symbol in brackets, its description, a "(for: ...)" note when an assignee
/// is present, and the escape sequence that resets the color.
pub open spec fn spec_render_line(t: ItemView, num: nat) -> Seq<char> {
    t.status.spec_color() + spec_decimal(num) + seq!['.', ' ', '['] + seq![t.status.spec_symbol()]
        + seq![']', ' '] + t.text + (match t.person {
        Some(p) => if p.len() > 0 {
            seq![' ', '(', 'f', 'o', 'r', ':', ' '] + p + seq![')']
        } else {
            Seq::<char>::empty()
        },
        None => Seq::<char>::empty(),
    }) + seq!['\u{1b}', '[', '0', 'm']
}

impl Item {
    /// Change the status as the (already lowercased) keyword directs: an
    /// unrecognised keyword changes nothing.
    pub fn check_task(&mut self, to: &str)
        ensures
            final(self)@.status == spec_keyword_status(to@, old(self)@.status),
            final(self)@.text == old(self)@.text,
            final(self)@.person == old(self)@.person,
    {
        proof {
            reveal_strlit("pending");
            reveal_strlit("stop");
            reveal_strlit("complete");
            reveal_strlit("finish");
            reveal_strlit("todo");
            assert("pending"@ =~= seq!['p', 'e', 'n', 'd', 'i', 'n', 'g']);
            assert("stop"@ =~= seq!['s', 't', 'o', 'p']);
            assert("complete"@ =~= seq!['c', 'o', 'm', 'p', 'l', 'e', 't', 'e']);
            assert("finish"@ =~= seq!['f', 'i', 'n', 'i', 's', 'h']);
            assert("todo"@ =~= seq!['t', 'o', 'd', 'o']);
        }
        if str_eq(to, "pending") {
            self.status = Status::Pending;
        } else if str_eq(to, "stop") {
            self.status = Status::Stopped;
        } else if str_eq(to, "complete") {
            self.status = Status::Completed;
        } else if str_eq(to, "finish") {
            self.status = Status::Finished;
        } else if str_eq(to, "todo") {
            self.status = Status::ToDo;
        }
    }

    /// Render the task's display line, numbered `num`.
    pub fn render_line(&self, num: usize) -> (r: String)
        ensures
            r@ == spec_render_line(self@, num as nat),
    {
        proof {
            reveal_strlit(". [");
            reveal_strlit("] ");
            reveal_strlit(" (for: ");
            reveal_strlit(")");
            reveal_strlit("\u{1b}[0m");
            assert(". ["@ =~= seq!['.', ' ', '[']);
            assert("] "@ =~= seq![']', ' ']);
            assert(" (for: "@ =~= seq![' ', '(', 'f', 'o', 'r', ':', ' ']);
            assert(")"@ =~= seq![')']);
            assert("\u{1b}[0m"@ =~= seq!['\u{1b}', '[', '0', 'm']);
        }
        let mut r = self.status.color();
        let num_str = usize_to_string(num);
        r.append(num_str.as_str());
        r.append(". [");
        let sym = char_str(self.status.symbol());
        r.append(sym.as_str());
        r.append("] ");
        r.append(self.text.as_str());
        match &self.person {
            Some(p) => {
                if !p.as_str().is_empty() {
                    r.append(" (for: ");
                    r.append(p.as_str());
                    r.append(")");
                }
            },
            None => {},
        }
        r.append("\u{1b}[0m");
        proof {
            assert(r@ =~= spec_render_line(self@, num as nat));
        }
        r
    }
}

} // verus!
