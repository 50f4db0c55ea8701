//! The catalogue of wireless interfaces, read off the kernel's table of
//! wireless statistics.
//!
//! The table is text: two header lines, then one line for each interface,
//! which begins with the interface's name and a colon. Lines are cut at the
//! delimiters, never at fixed columns.

use crate::error::InterfaceListError;
use crate::text::{
    find_char, is_blank, is_space, lemma_position, lemma_position_is, lemma_trim_blank,
    lemma_trim_is_trimmed, position, trim, trim_bounds,
};
use vstd::prelude::*;

verus! {

/// Where the kernel publishes the table.
pub const STATUS_FILE: &'static str = "/proc/net/wireless";

/// The number of lines that the table begins with before the first
/// interface.
pub const HEADER_LINES: usize = 2;

/// A network interface that reports wireless statistics, known by its name.
#[derive(Debug)]
pub struct Interface {
    name: String,
}

impl View for Interface {
    type V = Seq<char>;

    /// The interface's name.
    closed spec fn view(&self) -> Seq<char> {
        self.name@
    }
}

impl Interface {
    /// The name the kernel gave the interface.
    pub fn name(&self) -> (name: &str)
        ensures
            name@ == self@,
    {
        self.name.as_str()
    }
}

/// The names of `found`, in order.
pub open spec fn names_of(found: Seq<Interface>) -> Seq<Seq<char>> {
    found.map_values(|i: Interface| i@)
}

/// `text` cut at each line feed: the pieces between the line feeds, in
/// order.
pub open spec fn lines(text: Seq<char>) -> Seq<Seq<char>>
    decreases text.len(),
{
    let end = position(text, '\n');
    if end >= text.len() {
        seq![text]
    } else {
        seq![text.take(end as int)] + lines(text.skip(end as int + 1))
    }
}

/// The pieces put together again, with a line feed between each two.
pub open spec fn joined(pieces: Seq<Seq<char>>) -> Seq<char>
    decreases pieces.len(),
{
    if pieces.len() == 0 {
        Seq::empty()
    } else if pieces.len() == 1 {
        pieces[0]
    } else {
        pieces[0] + seq!['\n'] + joined(pieces.drop_first())
    }
}

/// A text has at least one line, no line holds a line feed, and the lines
/// put together again are the text.
pub proof fn lemma_lines(text: Seq<char>)
    ensures
        lines(text).len() >= 1,
        joined(lines(text)) == text,
        forall|i: int|
            0 <= i < lines(text).len() ==> position(#[trigger] lines(text)[i], '\n') == lines(
                text,
            )[i].len(),
    decreases text.len(),
{
    lemma_position(text, '\n');
    let end = position(text, '\n') as int;
    if end < text.len() {
        let head = text.take(end);
        let rest = text.skip(end + 1);
        lemma_lines(rest);
        lemma_position_is(head, '\n', end);
        assert(lines(text).drop_first() =~= lines(rest));
    }
}

/// What a line says before its first colon, the whole line where it has no
/// colon, without the white space at either end.
pub open spec fn entry_name(line: Seq<char>) -> Seq<char> {
    trim(line.take(position(line, ':') as int))
}

/// The lines of a table that follow its header.
pub open spec fn data_lines(all: Seq<Seq<char>>) -> Seq<Seq<char>> {
    if all.len() <= HEADER_LINES {
        Seq::empty()
    } else {
        all.skip(HEADER_LINES as int)
    }
}

/// The names that the lines `all` of a table list: of each line after the
/// header its name, unless that is empty.
pub open spec fn names_in(all: Seq<Seq<char>>) -> Seq<Seq<char>> {
    data_lines(all).map_values(|line: Seq<char>| entry_name(line)).filter(
        |name: Seq<char>| name.len() > 0,
    )
}

/// The names of the interfaces that `table` lists, in the table's order.
pub open spec fn interface_names(table: Seq<char>) -> Seq<Seq<char>> {
    names_in(lines(table))
}

/// One more line adds its name to the names, if it follows the header and
/// the name is not empty.
proof fn lemma_names_in_push(all: Seq<Seq<char>>, line: Seq<char>)
    ensures
        names_in(all.push(line)) == if all.len() >= HEADER_LINES && entry_name(line).len() > 0 {
            names_in(all).push(entry_name(line))
        } else {
            names_in(all)
        },
{
    let name_of = |line: Seq<char>| entry_name(line);
    let kept = |name: Seq<char>| name.len() > 0;
    if all.len() >= HEADER_LINES {
        let data = data_lines(all);
        assert(data_lines(all.push(line)) =~= data.push(line));
        data.lemma_push_map_commute(name_of, line);
        data.map_values(name_of).lemma_filter_push(entry_name(line), kept);
    }
}

/// Whether every line after the header is blank or names an interface, and
/// the header is complete.
pub open spec fn well_formed(table: Seq<char>) -> bool {
    &&& lines(table).len() >= HEADER_LINES
    &&& forall|i: int|
        HEADER_LINES <= i < lines(table).len() ==> is_blank(#[trigger] lines(table)[i])
            || entry_name(lines(table)[i]).len() > 0
}

/// A line that names an interface is not blank.
pub proof fn lemma_named_line_is_not_blank(line: Seq<char>)
    requires
        entry_name(line).len() > 0,
    ensures
        !is_blank(line),
{
    lemma_position(line, ':');
    lemma_trim_blank(line.take(position(line, ':') as int));
}

/// Among lines of which the blank ones are those without a name, the names
/// that are not empty are the names of the lines that are not blank.
proof fn lemma_names_of_entries(data: Seq<Seq<char>>)
    requires
        forall|i: int|
            0 <= i < data.len() ==> is_blank(#[trigger] data[i]) || entry_name(data[i]).len() > 0,
    ensures
        data.map_values(|line: Seq<char>| entry_name(line)).filter(
            |name: Seq<char>| name.len() > 0,
        ) == data.filter(|line: Seq<char>| !is_blank(line)).map_values(
            |line: Seq<char>| entry_name(line),
        ),
    decreases data.len(),
{
    let name_of = |line: Seq<char>| entry_name(line);
    let kept = |name: Seq<char>| name.len() > 0;
    let entry = |line: Seq<char>| !is_blank(line);
    if data.len() > 0 {
        let front = data.drop_last();
        let line = data.last();
        assert(data =~= front.push(line));
        lemma_names_of_entries(front);
        front.lemma_push_map_commute(name_of, line);
        front.map_values(name_of).lemma_filter_push(entry_name(line), kept);
        front.lemma_filter_push(line, entry);
        if entry_name(line).len() > 0 {
            lemma_named_line_is_not_blank(line);
            front.filter(entry).lemma_push_map_commute(name_of, line);
        }
    }
}

/// A well-formed table lists as many names as it has lines after the
/// header that are not blank, and each name is what its line says before
/// the first colon, trimmed.
pub proof fn lemma_well_formed_table(table: Seq<char>)
    requires
        well_formed(table),
    ensures
        ({
            let entries = data_lines(lines(table)).filter(|line: Seq<char>| !is_blank(line));
            &&& interface_names(table).len() == entries.len()
            &&& forall|i: int|
                0 <= i < entries.len() ==> #[trigger] interface_names(table)[i] == trim(
                    entries[i].take(position(entries[i], ':') as int),
                )
        }),
{
    let all = lines(table);
    let data = data_lines(all);
    assert forall|i: int| 0 <= i < data.len() implies is_blank(#[trigger] data[i]) || entry_name(
        data[i],
    ).len() > 0 by {
        assert(data[i] == all[i + HEADER_LINES]);
    }
    lemma_names_of_entries(data);
}

/// A table whose lines after the header are all blank, or that has none,
/// lists nothing.
pub proof fn lemma_empty_data_section(table: Seq<char>)
    requires
        forall|i: int|
            HEADER_LINES <= i < lines(table).len() ==> is_blank(#[trigger] lines(table)[i]),
    ensures
        interface_names(table) == Seq::<Seq<char>>::empty(),
{
    let all = lines(table);
    let data = data_lines(all);
    let names = data.map_values(|line: Seq<char>| entry_name(line));
    let kept = |name: Seq<char>| name.len() > 0;
    assert forall|i: int| 0 <= i < names.len() implies !kept(#[trigger] names[i]) by {
        assert(data[i] == all[i + HEADER_LINES]);
        if entry_name(data[i]).len() > 0 {
            lemma_named_line_is_not_blank(data[i]);
        }
    }
    names.lemma_all_neg_filter_empty(kept);
}

/// No listed name is empty, and none begins or ends with white space.
pub proof fn lemma_listed_names(table: Seq<char>)
    ensures
        forall|i: int|
            0 <= i < interface_names(table).len() ==> {
                let name = #[trigger] interface_names(table)[i];
                name.len() > 0 && !is_space(name[0]) && !is_space(name.last())
            },
{
    let data = data_lines(lines(table));
    let names = data.map_values(|line: Seq<char>| entry_name(line));
    let kept = |name: Seq<char>| name.len() > 0;
    assert forall|i: int| 0 <= i < names.filter(kept).len() implies {
        let name = #[trigger] names.filter(kept)[i];
        name.len() > 0 && !is_space(name[0]) && !is_space(name.last())
    } by {
        let name = names.filter(kept)[i];
        names.lemma_filter_pred(kept, i);
        names.lemma_filter_contains_rev(kept, name);
        let j = choose|j: int| 0 <= j < names.len() && names[j] == name;
        lemma_trim_is_trimmed(data[j].take(position(data[j], ':') as int));
    }
}

/// A line after the header whose name is empty lists nothing: the table
/// lists what it would list without that line.
pub proof fn lemma_line_without_name(before: Seq<Seq<char>>, line: Seq<char>, after: Seq<Seq<char>>)
    requires
        before.len() >= HEADER_LINES,
        entry_name(line).len() == 0,
    ensures
        names_in(before + seq![line] + after) == names_in(before + after),
{
    let name_of = |line: Seq<char>| entry_name(line);
    let kept = |name: Seq<char>| name.len() > 0;
    let head = data_lines(before);
    assert(data_lines(before + seq![line] + after) =~= head + seq![line] + after);
    assert(data_lines(before + after) =~= head + after);
    assert((head + seq![line] + after).map_values(name_of) =~= head.map_values(name_of)
        + seq![entry_name(line)] + after.map_values(name_of));
    assert((head + after).map_values(name_of) =~= head.map_values(name_of) + after.map_values(
        name_of,
    ));
    let h = head.map_values(name_of);
    let a = after.map_values(name_of);
    Seq::filter_distributes_over_add(h + seq![entry_name(line)], a, kept);
    Seq::filter_distributes_over_add(h, seq![entry_name(line)], kept);
    Seq::filter_distributes_over_add(h, a, kept);
    Seq::<Seq<char>>::empty().lemma_filter_push(entry_name(line), kept);
}

/// Copies the characters of `text` into a vector.
fn characters(text: &str) -> (chars: Vec<char>)
    ensures
        chars@ == text@,
{
    let mut chars: Vec<char> = Vec::new();
    for c in it: text.chars()
        invariant
            chars@ == text@.take(it.index() as int),
            it.seq() == text@,
    {
        chars.push(c);
    }
    chars
}

/// Lists the interfaces of a table of wireless statistics.
///
/// Each line after the two header lines is cut at its first colon; what
/// stands before it, trimmed, names an interface. A line whose name is
/// empty lists nothing. A table without lines after the header lists
/// nothing either.
pub fn parse_interfaces(table: &str) -> (found: Vec<Interface>)
    ensures
        names_of(found@) == interface_names(table@),
        found.len() == interface_names(table@).len(),
        forall|i: int| 0 <= i < found.len() ==> (#[trigger] found[i])@ == interface_names(table@)[i],
{
    let chars = characters(table);
    let mut found: Vec<Interface> = Vec::new();
    let mut header: usize = HEADER_LINES;
    let mut start: usize = 0;
    let ghost mut done: Seq<Seq<char>> = Seq::empty();
    proof {
        assert(table@.skip(0) =~= table@);
    }
    loop
        invariant_except_break
            chars@ == table@,
            start <= chars.len(),
            lines(table@) == done + lines(table@.skip(start as int)),
            header == if done.len() >= HEADER_LINES {
                0
            } else {
                HEADER_LINES - done.len()
            },
            names_of(found@) == names_in(done),
        ensures
            names_of(found@) == interface_names(table@),
        decreases chars.len() - start,
    {
        let end = find_char(&chars, start, chars.len(), '\n');
        let ghost rest = table@.skip(start as int);
        let ghost line = table@.subrange(start as int, end as int);
        proof {
            assert(rest.take(end - start) =~= line);
            lemma_names_in_push(done, line);
        }
        if header > 0 {
            header -= 1;
        } else {
            let colon = find_char(&chars, start, end, ':');
            let (a, b) = trim_bounds(&chars, start, colon);
            proof {
                assert(line.take(colon - start) =~= table@.subrange(start as int, colon as int));
            }
            if a < b {
                found.push(Interface { name: table.substring_char(a, b).to_owned() });
            }
        }
        proof {
            if end < chars.len() {
                assert(rest.skip(end - start + 1) =~= table@.skip(end + 1));
            }
            assert(done + seq![line] =~= done.push(line));
            done = done.push(line);
        }
        if end == chars.len() {
            break ;
        }
        start = end + 1;
    }
    assert forall|i: int| 0 <= i < found.len() implies (#[trigger] found[i])@ == interface_names(
        table@,
    )[i] by {
        assert(names_of(found@)[i] == found[i]@);
    }
    found
}

/// Lists the interfaces from what reading the statistics file gave: all
/// of them where the file was read in full, none where it was not.
pub fn list_interfaces_from(read: Result<String, std::io::Error>) -> (listed: Result<
    Vec<Interface>,
    InterfaceListError,
>)
    ensures
        match read {
            Ok(table) => listed matches Ok(found) && names_of(found@) == interface_names(table@),
            Err(io) => listed == Err::<Vec<Interface>, InterfaceListError>(
                InterfaceListError::Io { io },
            ),
        },
{
    match read {
        Ok(table) => Ok(parse_interfaces(table.as_str())),
        Err(io) => Err(InterfaceListError::from(io)),
    }
}

} // verus!
