//! The storage format: one task per line, the three fields separated by `|`
//! in the order status symbol, description, assignee. Parsing skips lines
//! that do not have three fields; saving then loading a list of well-formed
//! tasks gives the same list back, which is proved below.

use vstd::prelude::*;

use crate::chars::lemma_find_concat;
use crate::chars::lemma_find_props;
use crate::chars::lemma_find_unique;
use crate::chars::lemma_trim_props;
use crate::chars::spec_find;
use crate::chars::spec_trim;
use crate::chars::find_char;
use crate::chars::trim;
use crate::status::Status;
use crate::task::spec_person_wf;
use crate::task::Item;
use crate::task::ItemView;

verus! {

/// The sequence of task views a sequence of records stands for.
pub open spec fn views_of(items: Seq<Item>) -> Seq<ItemView> {
    items.map_values(|it: Item| it@)
}

/// The three `|`-separated fields of a stored line, when the line has
/// exactly three: what stands before the first `|`, what stands between the
/// first and the second, and all the rest.
pub open spec fn spec_split3(line: Seq<char>) -> Option<(Seq<char>, Seq<char>, Seq<char>)> {
    match spec_find(line, '|') {
        None => None,
        Some(i) => match spec_find(line.skip(i + 1), '|') {
            None => None,
            Some(j) => Some(
                (line.take(i), line.skip(i + 1).take(j), line.skip(i + 1).skip(j + 1)),
            ),
        },
    }
}

/// The task a field triple stands for: the symbol field selects the status,
/// the trimmed assignee field is the assignee, an empty one means none.
pub open spec fn spec_item_of_fields(f: (Seq<char>, Seq<char>, Seq<char>)) -> ItemView {
    ItemView {
        text: f.1,
        status: Status::spec_of_symbol(f.0),
        person: if spec_trim(f.2).len() == 0 {
            None
        } else {
            Some(spec_trim(f.2))
        },
    }
}

/// The task a stored line stands for, or nothing for a malformed line.
pub open spec fn spec_parse_line(line: Seq<char>) -> Option<ItemView> {
    match spec_split3(line) {
        None => None,
        Some(f) => Some(spec_item_of_fields(f)),
    }
}

/// The chunks of `s` between newlines; a trailing newline closes the last
/// chunk rather than opening an empty one.
pub open spec fn spec_split_lines(s: Seq<char>) -> Seq<Seq<char>>
    decreases s.len(),
{
    if s.len() == 0 {
        Seq::empty()
    } else {
        match spec_find(s, '\n') {
            None => seq![s],
            Some(i) => if 0 <= i < s.len() {
                seq![s.take(i)] + spec_split_lines(s.skip(i + 1))
            } else {
                Seq::empty()
            },
        }
    }
}

/// The tasks of a sequence of lines, malformed lines skipped.
pub open spec fn spec_tasks_of_lines(lines: Seq<Seq<char>>) -> Seq<ItemView>
    decreases lines.len(),
{
    if lines.len() == 0 {
        Seq::empty()
    } else {
        match spec_parse_line(lines[0]) {
            Some(t) => seq![t] + spec_tasks_of_lines(lines.drop_first()),
            None => spec_tasks_of_lines(lines.drop_first()),
        }
    }
}

/// The tasks a whole file's text stands for.
pub open spec fn spec_parse_content(s: Seq<char>) -> Seq<ItemView> {
    spec_tasks_of_lines(spec_split_lines(s))
}

/// The assignee field as stored: the name, or empty for no assignee.
pub open spec fn spec_person_field(p: Option<Seq<char>>) -> Seq<char> {
    match p {
        Some(s) => s,
        None => Seq::empty(),
    }
}

/// The stored record of one task, without its closing newline.
pub open spec fn spec_item_record(t: ItemView) -> Seq<char> {
    seq![t.status.spec_symbol(), '|'] + t.text + seq!['|'] + spec_person_field(t.person)
}

/// The stored line of one task, closing newline included.
pub open spec fn spec_render_item(t: ItemView) -> Seq<char> {
    spec_item_record(t) + seq!['\n']
}

/// The whole file's text for a list of tasks, in list order.
pub open spec fn spec_render_list(ts: Seq<ItemView>) -> Seq<char>
    decreases ts.len(),
{
    if ts.len() == 0 {
        Seq::empty()
    } else {
        spec_render_item(ts[0]) + spec_render_list(ts.drop_first())
    }
}

/// A task the format can carry faithfully: no `|` or newline in the
/// description, and an assignee that is absent or a trimmed, non-empty name
/// without a newline. Descriptions holding `|` or a newline would split
/// wrongly on reload.
pub open spec fn spec_storable(t: ItemView) -> bool {
    &&& !t.text.contains('|')
    &&& !t.text.contains('\n')
    &&& match t.person {
        None => true,
        Some(p) => p.len() > 0 && p == spec_trim(p) && !p.contains('\n'),
    }
}

/// Parse one stored line.
pub fn parse_line(line: &str) -> (r: Option<Item>)
    ensures
        match r {
            Some(item) => spec_parse_line(line@) == Some(item@),
            None => spec_parse_line(line@) is None,
        },
{
    proof {
        lemma_find_props(line@, '|');
    }
    let n = line.unicode_len();
    match find_char(line, '|') {
        None => None,
        Some(i) => {
            let rest = line.substring_char(i + 1, n);
            proof {
                assert(rest@ =~= line@.skip(i + 1));
                lemma_find_props(rest@, '|');
            }
            match find_char(rest, '|') {
                None => None,
                Some(j) => {
                    let rn = rest.unicode_len();
                    let sym = line.substring_char(0, i);
                    let text = rest.substring_char(0, j);
                    let praw = trim(rest.substring_char(j + 1, rn));
                    let item = Item {
                        text: text.to_owned(),
                        status: Status::from_str(sym),
                        person: if praw.is_empty() {
                            None
                        } else {
                            Some(praw.to_owned())
                        },
                    };
                    proof {
                        assert(sym@ =~= line@.take(i as int));
                        assert(text@ =~= line@.skip(i + 1).take(j as int));
                        assert(rest@.subrange(j + 1, rn as int) =~= line@.skip(i + 1).skip(j + 1));
                        assert(spec_split3(line@) == Some(
                            (sym@, text@, line@.skip(i + 1).skip(j + 1)),
                        ));
                        assert(item@ =~~= spec_item_of_fields(
                            (sym@, text@, line@.skip(i + 1).skip(j + 1)),
                        ));
                    }
                    Some(item)
                },
            }
        },
    }
}

/// Empty text stands for the empty list.
pub proof fn lemma_content_empty()
    ensures
        spec_parse_content(Seq::<char>::empty()) == Seq::<ItemView>::empty(),
{
    assert(spec_split_lines(Seq::<char>::empty()) == Seq::<Seq<char>>::empty());
    assert(spec_tasks_of_lines(Seq::<Seq<char>>::empty()) == Seq::<ItemView>::empty());
}

/// The tasks of one line.
proof fn lemma_tasks_of_singleton(l: Seq<char>)
    ensures
        spec_tasks_of_lines(seq![l]) == match spec_parse_line(l) {
            Some(t) => seq![t],
            None => Seq::<ItemView>::empty(),
        },
{
    assert(spec_tasks_of_lines(Seq::<Seq<char>>::empty()) == Seq::<ItemView>::empty());
    assert(seq![l].drop_first() =~= Seq::<Seq<char>>::empty());
    match spec_parse_line(l) {
        Some(t) => {
            assert(spec_tasks_of_lines(seq![l]) =~= seq![t]);
        },
        None => {},
    }
}

/// The tasks of a line followed by further lines.
proof fn lemma_tasks_of_cons(l: Seq<char>, ls: Seq<Seq<char>>)
    ensures
        spec_tasks_of_lines(seq![l] + ls) == (match spec_parse_line(l) {
            Some(t) => seq![t],
            None => Seq::<ItemView>::empty(),
        }) + spec_tasks_of_lines(ls),
{
    let whole = seq![l] + ls;
    assert(whole[0] == l);
    assert(whole.drop_first() =~= ls);
    match spec_parse_line(l) {
        Some(t) => {},
        None => {
            assert(Seq::<ItemView>::empty() + spec_tasks_of_lines(ls) =~= spec_tasks_of_lines(ls));
        },
    }
}

/// The file text of a one-task list is that task's line.
proof fn lemma_render_singleton(t: ItemView)
    ensures
        spec_render_list(seq![t]) == spec_render_item(t),
{
    assert(spec_render_list(Seq::<ItemView>::empty()) == Seq::<char>::empty());
    assert(seq![t].drop_first() =~= Seq::<ItemView>::empty());
    assert(spec_render_list(seq![t]) =~= spec_render_item(t));
}

/// Parse a whole file's text, in the order the lines stand, skipping
/// malformed lines.
pub fn parse_content(s: &str) -> (r: Vec<Item>)
    ensures
        views_of(r@) == spec_parse_content(s@),
{
    let mut r: Vec<Item> = Vec::new();
    let mut rest: &str = s;
    proof {
        assert(views_of(r@) + spec_parse_content(rest@) =~= spec_parse_content(s@));
    }
    loop
        invariant_except_break
            spec_parse_content(s@) == views_of(r@) + spec_parse_content(rest@),
        ensures
            spec_parse_content(s@) == views_of(r@),
        decreases rest@.len(),
    {
        let n = rest.unicode_len();
        if n == 0 {
            proof {
                assert(rest@ =~= Seq::<char>::empty());
                lemma_content_empty();
                assert(views_of(r@) + spec_parse_content(rest@) =~= views_of(r@));
            }
            break;
        }
        proof {
            lemma_find_props(rest@, '\n');
        }
        let ghost prev = r@;
        let ghost rest_view = rest@;
        match find_char(rest, '\n') {
            None => {
                proof {
                    assert(spec_split_lines(rest_view) == seq![rest_view]);
                    lemma_tasks_of_singleton(rest_view);
                }
                match parse_line(rest) {
                    Some(item) => {
                        r.push(item);
                        proof {
                            assert(spec_parse_content(rest_view) == seq![item@]);
                            assert(views_of(prev.push(item)) =~= views_of(prev) + seq![item@]);
                            assert(views_of(r@) =~= spec_parse_content(s@));
                        }
                    },
                    None => {
                        proof {
                            assert(spec_parse_content(rest_view) == Seq::<ItemView>::empty());
                            assert(views_of(r@) =~= spec_parse_content(s@));
                        }
                    },
                }
                break;
            },
            Some(i) => {
                let line = rest.substring_char(0, i);
                let next = rest.substring_char(i + 1, n);
                proof {
                    assert(line@ =~= rest_view.take(i as int));
                    assert(next@ =~= rest_view.skip(i + 1));
                    assert(spec_split_lines(rest_view) == seq![line@] + spec_split_lines(next@));
                    lemma_tasks_of_cons(line@, spec_split_lines(next@));
                }
                match parse_line(line) {
                    Some(item) => {
                        r.push(item);
                        proof {
                            assert(spec_parse_content(rest_view) == seq![item@]
                                + spec_parse_content(next@));
                            assert(views_of(prev.push(item)) =~= views_of(prev) + seq![item@]);
                            assert(views_of(r@) + spec_parse_content(next@) =~= spec_parse_content(
                                s@,
                            ));
                        }
                    },
                    None => {
                        proof {
                            assert(spec_parse_content(rest_view) == Seq::<ItemView>::empty()
                                + spec_parse_content(next@));
                            assert(spec_parse_content(rest_view) =~= spec_parse_content(next@));
                            assert(views_of(r@) + spec_parse_content(next@) =~= spec_parse_content(
                                s@,
                            ));
                        }
                    },
                }
                rest = next;
            },
        }
    }
    r
}

/// Render the whole file's text for a list of tasks.
pub fn render_content(items: &Vec<Item>) -> (s: String)
    ensures
        s@ == spec_render_list(views_of(items@)),
{
    proof {
        reveal_strlit("|");
        reveal_strlit("\n");
        assert("|"@ =~= seq!['|']);
        assert("\n"@ =~= seq!['\n']);
    }
    let mut s = String::new();
    let mut k: usize = 0;
    proof {
        assert(views_of(items@).take(0) =~= Seq::<ItemView>::empty());
    }
    while k < items.len()
        invariant
            k <= items@.len(),
            s@ == spec_render_list(views_of(items@).take(k as int)),
        decreases items@.len() - k,
    {
        let it = &items[k];
        s.append(it.status.to_str());
        s.append("|");
        s.append(it.text.as_str());
        s.append("|");
        match &it.person {
            Some(p) => s.append(p.as_str()),
            None => {},
        }
        s.append("\n");
        proof {
            reveal_strlit("|");
            reveal_strlit("\n");
            assert("|"@ =~= seq!['|']);
            assert("\n"@ =~= seq!['\n']);
            let vs = views_of(items@);
            assert(vs[k as int] == items@[k as int]@);
            lemma_render_list_add(vs.take(k as int), seq![vs[k as int]]);
            lemma_render_singleton(vs[k as int]);
            assert(vs.take(k as int) + seq![vs[k as int]] =~= vs.take(k + 1));
            assert(s@ =~= spec_render_list(vs.take(k + 1)));
        }
        k = k + 1;
    }
    proof {
        assert(views_of(items@).take(items@.len() as int) =~= views_of(items@));
    }
    s
}

/// A storable task's record has no newline anywhere.
proof fn lemma_record_no_newline(t: ItemView)
    requires
        spec_storable(t),
    ensures
        forall|k: int| 0 <= k < spec_item_record(t).len() ==> spec_item_record(t)[k] != '\n',
{
    let rec = spec_item_record(t);
    let pf = spec_person_field(t.person);
    let tl = t.text.len() as int;
    assert forall|k: int| 0 <= k < rec.len() implies rec[k] != '\n' by {
        if k == 0 {
            assert(rec[k] == t.status.spec_symbol());
        } else if k == 1 {
            assert(rec[k] == '|');
        } else if k < 2 + tl {
            assert(rec[k] == t.text[k - 2]);
            if rec[k] == '\n' {
                assert(t.text.contains('\n'));
            }
        } else if k == 2 + tl {
            assert(rec[k] == '|');
        } else {
            assert(rec[k] == pf[k - 3 - tl]);
            if rec[k] == '\n' {
                assert(pf.contains('\n'));
            }
        }
    }
}

/// A storable task's record parses back to exactly that task.
proof fn lemma_record_parses(t: ItemView)
    requires
        spec_storable(t),
    ensures
        spec_parse_line(spec_item_record(t)) == Some(t),
{
    let sym = t.status.spec_symbol();
    let pf = spec_person_field(t.person);
    let rec = spec_item_record(t);
    let tl = t.text.len() as int;
    assert(sym != '|');
    assert(rec[0] == sym);
    assert(rec[1] == '|');
    lemma_find_unique(rec, '|', 1);
    let rest = rec.skip(2);
    assert(rest =~= t.text + (seq!['|'] + pf));
    assert forall|k: int| 0 <= k < t.text.len() implies t.text[k] != '|' by {
        if t.text[k] == '|' {
            assert(t.text.contains('|'));
        }
    }
    lemma_find_concat(t.text, seq!['|'] + pf, '|');
    assert((seq!['|'] + pf)[0] == '|');
    assert(spec_find(seq!['|'] + pf, '|') == Some(0int));
    assert(spec_find(rest, '|') == Some(tl));
    assert(rec.take(1) =~= seq![sym]);
    assert(rest.take(tl) =~= t.text);
    assert(rest.skip(tl + 1) =~= pf);
    assert(spec_split3(rec) == Some((rec.take(1), rest.take(tl), rest.skip(tl + 1))));
    assert(Status::spec_of_symbol(seq![sym]) == t.status);
    match t.person {
        None => {
            assert(pf =~= Seq::<char>::empty());
            assert(spec_trim(pf).len() == 0);
        },
        Some(p) => {
            assert(spec_trim(pf) == p);
        },
    }
    assert(spec_item_of_fields((rec.take(1), rest.take(tl), rest.skip(tl + 1))) =~~= t);
}

/// Saving a list of storable tasks and loading the text back gives the same
/// list, in the same order. Storable rules out descriptions holding `|` or a
/// newline, which the format cannot carry.
pub proof fn lemma_round_trip(ts: Seq<ItemView>)
    requires
        forall|k: int| 0 <= k < ts.len() ==> spec_storable(#[trigger] ts[k]),
    ensures
        spec_parse_content(spec_render_list(ts)) == ts,
    decreases ts.len(),
{
    if ts.len() == 0 {
        lemma_content_empty();
        assert(spec_render_list(ts) =~= Seq::<char>::empty());
        assert(ts =~= Seq::<ItemView>::empty());
    } else {
        let t = ts[0];
        assert(spec_storable(t));
        let rec = spec_item_record(t);
        let tail = spec_render_list(ts.drop_first());
        let content = spec_render_list(ts);
        assert(content == spec_render_item(t) + tail);
        assert(content =~= rec + (seq!['\n'] + tail));
        lemma_record_no_newline(t);
        lemma_find_concat(rec, seq!['\n'] + tail, '\n');
        assert((seq!['\n'] + tail)[0] == '\n');
        assert(spec_find(seq!['\n'] + tail, '\n') == Some(0int));
        assert(spec_find(content, '\n') == Some(rec.len() as int));
        assert(content.len() > 0);
        assert(content.take(rec.len() as int) =~= rec);
        assert(content.skip(rec.len() as int + 1) =~= tail);
        assert(spec_split_lines(content) == seq![rec] + spec_split_lines(tail));
        lemma_tasks_of_cons(rec, spec_split_lines(tail));
        lemma_record_parses(t);
        assert forall|k: int| 0 <= k < ts.drop_first().len() implies spec_storable(
            #[trigger] ts.drop_first()[k],
        ) by {
            assert(ts.drop_first()[k] == ts[k + 1]);
        }
        lemma_round_trip(ts.drop_first());
        assert(spec_parse_content(content) == seq![t] + ts.drop_first());
        assert(seq![t] + ts.drop_first() =~= ts);
    }
}

/// Every task of a list of lines holds an assignee of the library's shape:
/// absent, or trimmed and non-empty.
proof fn lemma_tasks_of_lines_person_wf(lines: Seq<Seq<char>>)
    ensures
        forall|k: int|
            0 <= k < spec_tasks_of_lines(lines).len() ==> spec_person_wf(
                #[trigger] spec_tasks_of_lines(lines)[k],
            ),
    decreases lines.len(),
{
    if lines.len() > 0 {
        lemma_tasks_of_lines_person_wf(lines.drop_first());
        match spec_parse_line(lines[0]) {
            Some(t) => {
                match spec_split3(lines[0]) {
                    Some(f) => {
                        lemma_trim_props(f.2);
                        assert(spec_person_wf(t));
                    },
                    None => {},
                }
                assert forall|k: int|
                    0 <= k < spec_tasks_of_lines(lines).len() implies spec_person_wf(
                    #[trigger] spec_tasks_of_lines(lines)[k],
                ) by {
                    if k > 0 {
                        assert(spec_tasks_of_lines(lines)[k] == spec_tasks_of_lines(
                            lines.drop_first(),
                        )[k - 1]);
                    }
                }
            },
            None => {},
        }
    }
}

/// Loading establishes the assignee invariant: every task parsed from a
/// file's text holds an assignee that is absent, or trimmed and non-empty.
pub proof fn lemma_parsed_tasks_person_wf(s: Seq<char>)
    ensures
        forall|k: int|
            0 <= k < spec_parse_content(s).len() ==> spec_person_wf(
                #[trigger] spec_parse_content(s)[k],
            ),
{
    lemma_tasks_of_lines_person_wf(spec_split_lines(s));
}

/// A malformed line contributes nothing: the tasks of a list of lines with
/// it are the tasks of the list without it.
pub proof fn lemma_malformed_line_skipped(lines: Seq<Seq<char>>, k: int)
    requires
        0 <= k < lines.len(),
        spec_parse_line(lines[k]) is None,
    ensures
        spec_tasks_of_lines(lines) == spec_tasks_of_lines(lines.remove(k)),
    decreases lines.len(),
{
    if k == 0 {
        assert(lines.remove(0) =~= lines.drop_first());
    } else {
        assert(lines.drop_first()[k - 1] == lines[k]);
        lemma_malformed_line_skipped(lines.drop_first(), k - 1);
        assert(lines.remove(k).drop_first() =~= lines.drop_first().remove(k - 1));
        assert(lines.remove(k)[0] == lines[0]);
        assert(lines.remove(k).len() > 0);
    }
}

/// Rendering a concatenation of lists renders each in turn.
pub proof fn lemma_render_list_add(a: Seq<ItemView>, b: Seq<ItemView>)
    ensures
        spec_render_list(a + b) == spec_render_list(a) + spec_render_list(b),
    decreases a.len(),
{
    if a.len() == 0 {
        assert(a + b =~= b);
        assert(spec_render_list(a) + spec_render_list(b) =~= spec_render_list(b));
    } else {
        lemma_render_list_add(a.drop_first(), b);
        assert((a + b).drop_first() =~= a.drop_first() + b);
        assert((a + b)[0] == a[0]);
        assert(spec_render_item(a[0]) + (spec_render_list(a.drop_first()) + spec_render_list(b))
            =~= (spec_render_item(a[0]) + spec_render_list(a.drop_first())) + spec_render_list(b));
    }
}

} // verus!
