//! The five task states, with their one-character storage symbols and their
//! terminal colors.

use vstd::prelude::*;

verus! {

/// State of a task. Every task is in exactly one of these five states; the
/// state is persisted as a one-character symbol and rendered in its own color.
#[derive(Clone, Copy, PartialEq, Eq, Structural, Debug)]
pub enum Status {
    Pending,
    Finished,
    Stopped,
    Completed,
    ToDo,
}

impl Status {
    /// The one-character symbol under which this status is stored.
    pub open spec fn spec_symbol(self) -> char {
        match self {
            Status::Pending => 'O',
            Status::Finished => '✓',
            Status::Stopped => '!',
            Status::Completed => '#',
            Status::ToDo => '.',
        }
    }

    /// The status a stored symbol character stands for; anything unknown
    /// falls back to `Pending`.
    pub open spec fn spec_of_symbol_char(c: char) -> Status {
        if c == '✓' {
            Status::Finished
        } else if c == 'O' {
            Status::Pending
        } else if c == '!' {
            Status::Stopped
        } else if c == '#' {
            Status::Completed
        } else if c == '.' {
            Status::ToDo
        } else {
            Status::Pending
        }
    }

    /// The status a stored symbol field stands for: a recognised one-character
    /// symbol selects its status, everything else falls back to `Pending`.
    pub open spec fn spec_of_symbol(s: Seq<char>) -> Status {
        if s.len() == 1 {
            Status::spec_of_symbol_char(s[0])
        } else {
            Status::Pending
        }
    }

    /// The escape sequence that selects this status's display color.
    pub open spec fn spec_color(self) -> Seq<char> {
        match self {
            Status::Pending => seq!['\u{1b}', '[', '9', '3', 'm'],
            Status::Completed => seq!['\u{1b}', '[', '9', '2', 'm'],
            Status::Finished => seq!['\u{1b}', '[', '9', '4', 'm'],
            Status::Stopped => seq!['\u{1b}', '[', '9', '1', 'm'],
            Status::ToDo => seq!['\u{1b}', '[', '9', '0', 'm'],
        }
    }

    pub fn symbol(&self) -> (c: char)
        ensures
            c == self.spec_symbol(),
    {
        match self {
            Status::Pending => 'O',
            Status::Finished => '✓',
            Status::Stopped => '!',
            Status::Completed => '#',
            Status::ToDo => '.',
        }
    }

    pub fn from_str(s: &str) -> (st: Status)
        ensures
            st == Status::spec_of_symbol(s@),
    {
        if s.unicode_len() == 1 {
            let c = s.get_char(0);
            if c == '✓' {
                Status::Finished
            } else if c == 'O' {
                Status::Pending
            } else if c == '!' {
                Status::Stopped
            } else if c == '#' {
                Status::Completed
            } else if c == '.' {
                Status::ToDo
            } else {
                Status::Pending
            }
        } else {
            Status::Pending
        }
    }

    pub fn to_str(&self) -> (s: &'static str)
        ensures
            s@ == seq![self.spec_symbol()],
    {
        proof {
            reveal_strlit("O");
            reveal_strlit("✓");
            reveal_strlit("!");
            reveal_strlit("#");
            reveal_strlit(".");
        }
        let r = match self {
            Status::Pending => "O",
            Status::Finished => "✓",
            Status::Stopped => "!",
            Status::Completed => "#",
            Status::ToDo => ".",
        };
        proof {
            assert(r@ =~= seq![self.spec_symbol()]);
        }
        r
    }

    pub fn color(&self) -> (s: String)
        ensures
            s@ == self.spec_color(),
    {
        proof {
            reveal_strlit("\u{1b}[93m");
            reveal_strlit("\u{1b}[92m");
            reveal_strlit("\u{1b}[94m");
            reveal_strlit("\u{1b}[91m");
            reveal_strlit("\u{1b}[90m");
        }
        let r = match self {
            Status::Pending => "\u{1b}[93m",
            Status::Completed => "\u{1b}[92m",
            Status::Finished => "\u{1b}[94m",
            Status::Stopped => "\u{1b}[91m",
            Status::ToDo => "\u{1b}[90m",
        };
        proof {
            assert(r@ =~= self.spec_color());
        }
        String::from_str(r)
    }
}

} // verus!
