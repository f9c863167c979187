//! One interactive session: the task list and the current page, the paging
//! arithmetic, the menu dispatch, and the editing operations the menu offers.
//! Reading the terminal and writing the storage file stay outside; everything
//! decided here is verified.

use vstd::prelude::*;

use crate::chars::spec_lower;
use crate::chars::spec_trim;
use crate::chars::str_eq;
use crate::chars::to_lower;
use crate::chars::trim;
use crate::digits::parse_usize;
use crate::digits::spec_parse_usize;
use crate::status::Status;
use crate::store::views_of;
use crate::task::spec_keyword_status;
use crate::task::spec_render_line;
use crate::task::Item;
use crate::task::ItemView;

verus! {

/// How many tasks one page shows.
pub const PAGE_SIZE: usize = 9;

/// What one menu choice asks for.
#[derive(Clone, Copy, PartialEq, Eq, Structural, Debug)]
pub enum Action {
    AddTask,
    ChangeStatus,
    RemoveTask,
    EditText,
    EditPerson,
    PrevPage,
    NextPage,
    Quit,
    Invalid,
}

/// The action a menu choice selects: the digits 1 to 5 select the editing
/// operations, `a` and `e` turn the page, and `q`, `quit` or `exit` ends the
/// session; anything else is invalid.
pub open spec fn spec_action_of(s: Seq<char>) -> Action {
    if s == seq!['1'] {
        Action::AddTask
    } else if s == seq!['2'] {
        Action::ChangeStatus
    } else if s == seq!['3'] {
        Action::RemoveTask
    } else if s == seq!['4'] {
        Action::EditText
    } else if s == seq!['5'] {
        Action::EditPerson
    } else if s == seq!['a'] {
        Action::PrevPage
    } else if s == seq!['e'] {
        Action::NextPage
    } else if s == seq!['q'] || s == seq!['q', 'u', 'i', 't'] || s == seq!['e', 'x', 'i', 't'] {
        Action::Quit
    } else {
        Action::Invalid
    }
}

/// Map a menu choice to its action.
pub fn action_of(choice: &str) -> (a: Action)
    ensures
        a == spec_action_of(choice@),
{
    proof {
        reveal_strlit("1");
        reveal_strlit("2");
        reveal_strlit("3");
        reveal_strlit("4");
        reveal_strlit("5");
        reveal_strlit("a");
        reveal_strlit("e");
        reveal_strlit("q");
        reveal_strlit("quit");
        reveal_strlit("exit");
        assert("1"@ =~= seq!['1']);
        assert("2"@ =~= seq!['2']);
        assert("3"@ =~= seq!['3']);
        assert("4"@ =~= seq!['4']);
        assert("5"@ =~= seq!['5']);
        assert("a"@ =~= seq!['a']);
        assert("e"@ =~= seq!['e']);
        assert("q"@ =~= seq!['q']);
        assert("quit"@ =~= seq!['q', 'u', 'i', 't']);
        assert("exit"@ =~= seq!['e', 'x', 'i', 't']);
    }
    if str_eq(choice, "1") {
        Action::AddTask
    } else if str_eq(choice, "2") {
        Action::ChangeStatus
    } else if str_eq(choice, "3") {
        Action::RemoveTask
    } else if str_eq(choice, "4") {
        Action::EditText
    } else if str_eq(choice, "5") {
        Action::EditPerson
    } else if str_eq(choice, "a") {
        Action::PrevPage
    } else if str_eq(choice, "e") {
        Action::NextPage
    } else if str_eq(choice, "q") || str_eq(choice, "quit") || str_eq(choice, "exit") {
        Action::Quit
    } else {
        Action::Invalid
    }
}

/// The assignee a raw input stands for: the trimmed input, or none when the
/// trimmed input is empty.
pub open spec fn spec_person_of(p: Seq<char>) -> Option<Seq<char>> {
    if spec_trim(p).len() == 0 {
        None
    } else {
        Some(spec_trim(p))
    }
}

/// Editing keeps the assignee invariant: whatever the raw input, the
/// assignee stored for it is absent, or trimmed and non-empty. Together with
/// the same fact about loading, every task the library ever holds is so.
pub proof fn lemma_person_of_wf(p: Seq<char>)
    ensures
        match spec_person_of(p) {
            None => true,
            Some(q) => q.len() > 0 && q == spec_trim(q),
        },
{
    crate::chars::lemma_trim_props(p);
}

/// The task a fresh add makes: trimmed description, the to-do status, and
/// the assignee the raw input stands for.
pub open spec fn spec_new_task(text: Seq<char>, person: Seq<char>) -> ItemView {
    ItemView { text: spec_trim(text), status: Status::ToDo, person: spec_person_of(person) }
}

/// `t` with its status replaced.
pub open spec fn spec_with_status(t: ItemView, st: Status) -> ItemView {
    ItemView { text: t.text, status: st, person: t.person }
}

/// `t` with its description replaced.
pub open spec fn spec_with_text(t: ItemView, text: Seq<char>) -> ItemView {
    ItemView { text, status: t.status, person: t.person }
}

/// `t` with its assignee replaced.
pub open spec fn spec_with_person(t: ItemView, person: Option<Seq<char>>) -> ItemView {
    ItemView { text: t.text, status: t.status, person }
}

/// The state of one session: the tasks, in order, and the zero-based index
/// of the page on show.
pub struct Session {
    pub tasks: Vec<Item>,
    pub page: usize,
}

impl Session {
    /// The task views, in list order.
    pub open spec fn views(self) -> Seq<ItemView> {
        views_of(self.tasks@)
    }

    /// The position of the first task of the page on show.
    pub open spec fn spec_page_start(self) -> int {
        self.page * PAGE_SIZE
    }

    /// How many tasks the page on show holds: up to `PAGE_SIZE`, none when
    /// the page starts beyond the list.
    pub open spec fn spec_visible_count(self) -> int {
        if self.spec_page_start() >= self.views().len() {
            0
        } else if self.spec_page_start() + PAGE_SIZE <= self.views().len() {
            PAGE_SIZE as int
        } else {
            self.views().len() - self.spec_page_start()
        }
    }

    /// Whether more tasks stand beyond the page on show.
    pub open spec fn spec_has_next(self) -> bool {
        self.spec_page_start() + PAGE_SIZE < self.views().len()
    }

    /// Whether a page stands before the one on show.
    pub open spec fn spec_has_prev(self) -> bool {
        self.page > 0
    }

    /// Start a session on the given tasks, on the first page.
    pub fn new(tasks: Vec<Item>) -> (s: Session)
        ensures
            s.views() == views_of(tasks@),
            s.page == 0,
    {
        Session { tasks, page: 0 }
    }

    pub fn has_prev(&self) -> (b: bool)
        ensures
            b == self.spec_has_prev(),
    {
        self.page > 0
    }

    pub fn has_next(&self) -> (b: bool)
        ensures
            b == self.spec_has_next(),
    {
        let len = self.tasks.len();
        match self.page.checked_mul(PAGE_SIZE) {
            None => false,
            Some(st) => match st.checked_add(PAGE_SIZE) {
                None => false,
                Some(e) => e < len,
            },
        }
    }

    /// Turn to the next page when more tasks stand beyond the page on show;
    /// otherwise stay.
    pub fn next_page(&mut self)
        ensures
            final(self).tasks@ == old(self).tasks@,
            final(self).page as int == if old(self).spec_has_next() {
                old(self).page + 1
            } else {
                old(self).page as int
            },
    {
        if self.has_next() {
            let len = self.tasks.len();
            proof {
                assert(self.views().len() == len as int);
                assert(self.page * PAGE_SIZE >= self.page);
            }
            self.page = self.page + 1;
        }
    }

    /// Turn to the previous page when the page on show is not the first;
    /// otherwise stay.
    pub fn prev_page(&mut self)
        ensures
            final(self).tasks@ == old(self).tasks@,
            final(self).page as int == if old(self).spec_has_prev() {
                old(self).page - 1
            } else {
                0
            },
    {
        if self.page > 0 {
            self.page = self.page - 1;
        }
    }

    /// The display lines of the page on show, numbered from the page's first
    /// task, 1-based.
    pub fn page_lines(&self) -> (r: Vec<String>)
        ensures
            r@.len() == self.spec_visible_count(),
            forall|k: int|
                0 <= k < r@.len() ==> r@[k]@ == spec_render_line(
                    self.views()[self.spec_page_start() + k],
                    (self.spec_page_start() + k + 1) as nat,
                ),
    {
        let mut r: Vec<String> = Vec::new();
        let len = self.tasks.len();
        let start = match self.page.checked_mul(PAGE_SIZE) {
            None => {
                return r;
            },
            Some(st) => st,
        };
        if start >= len {
            return r;
        }
        let end = match start.checked_add(PAGE_SIZE) {
            None => len,
            Some(e) => if e < len {
                e
            } else {
                len
            },
        };
        let mut k = start;
        while k < end
            invariant
                start <= k <= end <= len,
                len == self.views().len(),
                start == self.spec_page_start(),
                end == start + self.spec_visible_count(),
                r@.len() == k - start,
                forall|j: int|
                    0 <= j < r@.len() ==> r@[j]@ == spec_render_line(
                        self.views()[start + j],
                        (start + j + 1) as nat,
                    ),
            decreases end - k,
        {
            let line = self.tasks[k].render_line(k + 1);
            proof {
                assert(self.views()[k as int] == self.tasks@[k as int]@);
            }
            r.push(line);
            k = k + 1;
        }
        r
    }

    /// The zero-based position a typed 1-based index selects, when it parses
    /// as a number and lies within the list; anything else selects nothing.
    pub open spec fn spec_select(self, s: Seq<char>) -> Option<int> {
        match spec_parse_usize(s) {
            Some(v) => if 1 <= v <= self.views().len() {
                Some(v - 1)
            } else {
                None
            },
            None => None,
        }
    }

    /// Parse a typed 1-based task index and check it against the list.
    pub fn select_index(&self, s: &str) -> (r: Option<usize>)
        ensures
            match r {
                Some(i) => self.spec_select(s@) == Some(i as int) && i < self.views().len(),
                None => self.spec_select(s@) is None,
            },
    {
        match parse_usize(s) {
            Some(v) => if 1 <= v && v <= self.tasks.len() {
                Some(v - 1)
            } else {
                None
            },
            None => None,
        }
    }

    /// Append a task: trimmed description, the to-do status, and the
    /// assignee the raw input stands for. The page does not move.
    pub fn add_task(&mut self, text: &str, person: &str)
        ensures
            final(self).views() == old(self).views().push(spec_new_task(text@, person@)),
            final(self).page == old(self).page,
    {
        let t = trim(text).to_owned();
        let praw = trim(person);
        let item = Item {
            text: t,
            status: Status::ToDo,
            person: if praw.is_empty() {
                None
            } else {
                Some(praw.to_owned())
            },
        };
        self.tasks.push(item);
        proof {
            assert(self.views() =~= old(self).views().push(spec_new_task(text@, person@)));
        }
    }

    /// Change the status of the task at `i` as the keyword directs, matched
    /// without regard to ASCII case; an unrecognised keyword changes nothing.
    pub fn change_status(&mut self, i: usize, keyword: &str)
        requires
            i < old(self).views().len(),
        ensures
            final(self).views() == old(self).views().update(
                i as int,
                spec_with_status(
                    old(self).views()[i as int],
                    spec_keyword_status(
                        spec_lower(spec_trim(keyword@)),
                        old(self).views()[i as int].status,
                    ),
                ),
            ),
            final(self).page == old(self).page,
    {
        let kw = to_lower(trim(keyword));
        self.tasks[i].check_task(kw.as_str());
        proof {
            assert(self.views() =~= old(self).views().update(
                i as int,
                spec_with_status(
                    old(self).views()[i as int],
                    spec_keyword_status(
                        spec_lower(spec_trim(keyword@)),
                        old(self).views()[i as int].status,
                    ),
                ),
            ));
        }
    }

    /// Remove the task at `i`; the tasks after it move up one position. The
    /// page does not move, even when the last page empties.
    pub fn remove_task(&mut self, i: usize)
        requires
            i < old(self).views().len(),
        ensures
            final(self).views() == old(self).views().remove(i as int),
            final(self).page == old(self).page,
    {
        self.tasks.remove(i);
        proof {
            assert(self.views() =~= old(self).views().remove(i as int));
        }
    }

    /// Replace the description of the task at `i` with the trimmed input.
    pub fn edit_text(&mut self, i: usize, text: &str)
        requires
            i < old(self).views().len(),
        ensures
            final(self).views() == old(self).views().update(
                i as int,
                spec_with_text(old(self).views()[i as int], spec_trim(text@)),
            ),
            final(self).page == old(self).page,
    {
        let t = trim(text).to_owned();
        self.tasks[i].text = t;
        proof {
            assert(self.views() =~= old(self).views().update(
                i as int,
                spec_with_text(old(self).views()[i as int], spec_trim(text@)),
            ));
        }
    }

    /// Replace the assignee of the task at `i` with the one the raw input
    /// stands for: the trimmed input, or none when that is empty.
    pub fn edit_person(&mut self, i: usize, person: &str)
        requires
            i < old(self).views().len(),
        ensures
            final(self).views() == old(self).views().update(
                i as int,
                spec_with_person(old(self).views()[i as int], spec_person_of(person@)),
            ),
            final(self).page == old(self).page,
    {
        let praw = trim(person);
        let p = if praw.is_empty() {
            None
        } else {
            Some(praw.to_owned())
        };
        self.tasks[i].person = p;
        proof {
            assert(self.views() =~= old(self).views().update(
                i as int,
                spec_with_person(old(self).views()[i as int], spec_person_of(person@)),
            ));
        }
    }
}

} // verus!
