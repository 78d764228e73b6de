//! Lists of timers written as tables of text.

use crate::listing::{listing_views, ListingView, TimerListing};
use crate::sort::{is_stable_sort, stable_sort, views_of, Keyed};
use crate::text::texts;
use vstd::prelude::*;
use vstd::string::StringExecFns;
use vstd::utf8::encode_utf8;

verus! {

/// `n` times the character `c`.
pub open spec fn repeat(c: char, n: nat) -> Seq<char> {
    Seq::new(n, |i: int| c)
}

/// A text at the left of a field of `width` characters: filled up with
/// `fill` at its right; a longer text is left as it is.
pub open spec fn at_left(s: Seq<char>, width: nat, fill: char) -> Seq<char> {
    if s.len() >= width {
        s
    } else {
        s + repeat(fill, (width - s.len()) as nat)
    }
}

/// A text in the middle of a field of `width` characters: filled up with
/// spaces on both sides, the odd one at the right; a longer text is left
/// as it is.
pub open spec fn centred(s: Seq<char>, width: nat) -> Seq<char> {
    if s.len() >= width {
        s
    } else {
        let pad = (width - s.len()) as nat;
        repeat(' ', pad / 2) + s + repeat(' ', (pad - pad / 2) as nat)
    }
}

/// Appends `n` times the character `c`.
fn push_repeat(out: &mut String, c: char, n: usize)
    ensures
        final(out)@ == old(out)@ + repeat(c, n as nat),
{
    let ghost start = out@;
    let mut i: usize = 0;
    assert(out@ =~= start + repeat(c, 0));
    while i < n
        invariant
            i <= n,
            out@ == start + repeat(c, i as nat),
        decreases n - i,
    {
        out.push(c);
        i += 1;
        assert(out@ =~= start + repeat(c, i as nat));
    }
}

/// Appends a text at the left of a field.
pub fn push_left(out: &mut String, s: &str, width: usize, fill: char)
    ensures
        final(out)@ == old(out)@ + at_left(s@, width as nat, fill),
{
    let n = s.unicode_len();
    out.append(s);
    if n < width {
        push_repeat(out, fill, width - n);
    }
    assert(out@ =~= old(out)@ + at_left(s@, width as nat, fill));
}

/// Appends a text in the middle of a field.
pub fn push_centred(out: &mut String, s: &str, width: usize)
    ensures
        final(out)@ == old(out)@ + centred(s@, width as nat),
{
    let n = s.unicode_len();
    if n >= width {
        out.append(s);
    } else {
        let pad = width - n;
        push_repeat(out, ' ', pad / 2);
        out.append(s);
        push_repeat(out, ' ', pad - pad / 2);
    }
    assert(out@ =~= old(out)@ + centred(s@, width as nat));
}

/// In a list of active timers the order is that of the text of the next firing.
impl Keyed for TimerListing {
    open spec fn key_of(listing: ListingView) -> Seq<char> {
        listing.next_hit
    }

    fn key(&self) -> (k: &str) {
        self.next_hit.as_str()
    }
}

/// The width of the column of identifiers: that of the longest identifier
/// in bytes, and `least` at least.
pub open spec fn id_width(rows: Seq<ListingView>, least: nat) -> nat
    decreases rows.len(),
{
    if rows.len() == 0 {
        least
    } else {
        let before = id_width(rows.drop_last(), least);
        let this = encode_utf8(rows.last().id).len();
        if this > before {
            this
        } else {
            before
        }
    }
}

/// The width of the column of commands: that of the longest command in
/// bytes, and `least` at least.
pub open spec fn command_width(rows: Seq<ListingView>, least: nat) -> nat
    decreases rows.len(),
{
    if rows.len() == 0 {
        least
    } else {
        let before = command_width(rows.drop_last(), least);
        let this = encode_utf8(rows.last().command).len();
        if this > before {
            this
        } else {
            before
        }
    }
}

fn widths(rows: &Vec<TimerListing>, least_id: usize, least_command: usize) -> (w: (usize, usize))
    ensures
        w.0 == id_width(listing_views(rows@), least_id as nat),
        w.1 == command_width(listing_views(rows@), least_command as nat),
{
    let mut w_id = least_id;
    let mut w_cmd = least_command;
    let ghost all = listing_views(rows@);
    let mut i: usize = 0;
    assert(all.take(0) =~= Seq::<ListingView>::empty());
    while i < rows.len()
        invariant
            i <= rows.len(),
            all == listing_views(rows@),
            w_id == id_width(all.take(i as int), least_id as nat),
            w_cmd == command_width(all.take(i as int), least_command as nat),
        decreases rows.len() - i,
    {
        proof {
            let next = all.take(i + 1);
            assert(next.drop_last() =~= all.take(i as int));
            assert(next.last() == rows@[i as int]@);
        }
        let id_len = rows[i].id.as_str().as_bytes().len();
        let cmd_len = rows[i].command.as_str().as_bytes().len();
        if id_len > w_id {
            w_id = id_len;
        }
        if cmd_len > w_cmd {
            w_cmd = cmd_len;
        }
        i += 1;
    }
    assert(all.take(all.len() as int) =~= all);
    (w_id, w_cmd)
}

/// The texts of a list put one after the other, with `sep` between two of them.
pub open spec fn glue_text(parts: Seq<Seq<char>>, sep: Seq<char>) -> Seq<char>
    decreases parts.len(),
{
    if parts.len() == 0 {
        Seq::empty()
    } else if parts.len() == 1 {
        parts[0]
    } else {
        glue_text(parts.drop_last(), sep) + sep + parts.last()
    }
}

/// Puts the strings of a list one after the other, with `sep` between two
/// of them, and `end` at the end.
fn glue_line(parts: &Vec<String>, sep: &str, end: &str) -> (s: String)
    ensures
        s@ == glue_text(texts(parts@), sep@) + end@,
{
    let mut s = String::new();
    let mut i: usize = 0;
    let ghost all = texts(parts@);
    assert(all.take(0) =~= Seq::<Seq<char>>::empty());
    while i < parts.len()
        invariant
            i <= parts.len(),
            all == texts(parts@),
            s@ == glue_text(all.take(i as int), sep@),
        decreases parts.len() - i,
    {
        proof {
            let next = all.take(i + 1);
            assert(next.drop_last() =~= all.take(i as int));
            assert(next.last() == parts@[i as int]@);
        }
        if i > 0 {
            s.append(sep);
        }
        s.append(parts[i].as_str());
        i += 1;
    }
    assert(all.take(all.len() as int) =~= all);
    s.append(end);
    s
}

/// A text at the left of a field, as a string of its own.
fn left_cell(s: &str, width: usize, fill: char) -> (cell: String)
    ensures
        cell@ == at_left(s@, width as nat, fill),
{
    let mut cell = String::new();
    push_left(&mut cell, s, width, fill);
    assert(cell@ =~= at_left(s@, width as nat, fill));
    cell
}

/// A text in the middle of a field, as a string of its own.
fn centred_cell(s: &str, width: usize) -> (cell: String)
    ensures
        cell@ == centred(s@, width as nat),
{
    let mut cell = String::new();
    push_centred(&mut cell, s, width);
    assert(cell@ =~= centred(s@, width as nat));
    cell
}

/// A rule of the given width.
fn rule_cell(width: usize) -> (cell: String)
    ensures
        cell@ == repeat('-', width as nat),
{
    let mut cell = String::new();
    push_repeat(&mut cell, '-', width);
    assert(cell@ =~= repeat('-', width as nat));
    cell
}

/// The letter that says whether a timer is dynamic.
pub open spec fn flag(dynamic: bool) -> Seq<char> {
    if dynamic {
        "Y"@
    } else {
        "N"@
    }
}

/// The cells of a line: seven, or six in a table without the column of
/// the next firing, which is the fourth.
pub open spec fn cells(
    id: Seq<char>,
    kind: Seq<char>,
    interval: Seq<char>,
    next_hit: Seq<char>,
    days: Seq<char>,
    dynamic: Seq<char>,
    command: Seq<char>,
    next_run: bool,
) -> Seq<Seq<char>> {
    if next_run {
        seq![id, kind, interval, next_hit, days, dynamic, command]
    } else {
        seq![id, kind, interval, days, dynamic, command]
    }
}

/// The first line of the table: the titles of the columns, centred but
/// for the last, with bars between them.
pub open spec fn title_line(w_id: nat, w_cmd: nat, next_run: bool) -> Seq<char> {
    glue_text(
        cells(
            centred("ID"@, w_id),
            centred("Type"@, 7),
            centred("Period"@, 8),
            centred("Next run"@, 19),
            centred("Days"@, 7),
            centred("D"@, 1),
            at_left("Command"@, w_cmd, ' '),
            next_run,
        ),
        " | "@,
    ) + "\n"@
}

/// The second line of the table: a rule under the titles, with crosses
/// under the bars.
pub open spec fn rule_line(w_id: nat, w_cmd: nat, next_run: bool) -> Seq<char> {
    glue_text(
        cells(
            repeat('-', w_id),
            repeat('-', 7),
            repeat('-', 8),
            repeat('-', 19),
            repeat('-', 7),
            repeat('-', 1),
            repeat('-', w_cmd),
            next_run,
        ),
        " + "@,
    ) + "\n"@
}

/// The line of a timer: each field at the left of its column, with bars
/// between them.
pub open spec fn timer_line(row: ListingView, w_id: nat, w_cmd: nat, next_run: bool) -> Seq<char> {
    glue_text(
        cells(
            at_left(row.id, w_id, ' '),
            at_left(row.kind, 7, ' '),
            at_left(row.interval, 8, ' '),
            at_left(row.next_hit, 19, ' '),
            at_left(row.days, 7, ' '),
            at_left(flag(row.dynamic), 1, ' '),
            at_left(row.command, w_cmd, ' '),
            next_run,
        ),
        " | "@,
    ) + "\n"@
}

/// The lines of the timers, one after the other.
pub open spec fn timer_lines(rows: Seq<ListingView>, w_id: nat, w_cmd: nat, next_run: bool) -> Seq<
    char,
>
    decreases rows.len(),
{
    if rows.len() == 0 {
        Seq::empty()
    } else {
        timer_lines(rows.drop_last(), w_id, w_cmd, next_run) + timer_line(
            rows.last(),
            w_id,
            w_cmd,
            next_run,
        )
    }
}

/// The table of the timers in the given order: titles, rule, and a line
/// for each timer. The column of identifiers is as wide as the longest of
/// them, and two at least, that of commands as wide as the longest of
/// them, and seven at least.
pub open spec fn table_of(rows: Seq<ListingView>, next_run: bool) -> Seq<char> {
    let w_id = id_width(rows, 2);
    let w_cmd = command_width(rows, 7);
    title_line(w_id, w_cmd, next_run) + rule_line(w_id, w_cmd, next_run) + timer_lines(
        rows,
        w_id,
        w_cmd,
        next_run,
    )
}

/// Puts the cells of a line into a list, without the fourth in a table
/// that does not show the next firing.
fn line_cells(
    id: String,
    kind: String,
    interval: String,
    next_hit: String,
    days: String,
    dynamic: String,
    command: String,
    next_run: bool,
) -> (list: Vec<String>)
    ensures
        texts(list@) == cells(
            id@,
            kind@,
            interval@,
            next_hit@,
            days@,
            dynamic@,
            command@,
            next_run,
        ),
{
    let mut list: Vec<String> = Vec::new();
    list.push(id);
    list.push(kind);
    list.push(interval);
    if next_run {
        list.push(next_hit);
    }
    list.push(days);
    list.push(dynamic);
    list.push(command);
    assert(texts(list@) =~= cells(
        id@,
        kind@,
        interval@,
        next_hit@,
        days@,
        dynamic@,
        command@,
        next_run,
    ));
    list
}

fn timer_line_string(row: &TimerListing, w_id: usize, w_cmd: usize, next_run: bool) -> (line: String)
    ensures
        line@ == timer_line(row@, w_id as nat, w_cmd as nat, next_run),
{
    let list = line_cells(
        left_cell(row.id.as_str(), w_id, ' '),
        left_cell(row.kind.as_str(), 7, ' '),
        left_cell(row.interval.as_str(), 8, ' '),
        left_cell(row.next_hit.as_str(), 19, ' '),
        left_cell(row.days.as_str(), 7, ' '),
        left_cell(if row.dynamic { "Y" } else { "N" }, 1, ' '),
        left_cell(row.command.as_str(), w_cmd, ' '),
        next_run,
    );
    glue_line(&list, " | ", "\n")
}

fn title_line_string(w_id: usize, w_cmd: usize, next_run: bool) -> (line: String)
    ensures
        line@ == title_line(w_id as nat, w_cmd as nat, next_run),
{
    let list = line_cells(
        centred_cell("ID", w_id),
        centred_cell("Type", 7),
        centred_cell("Period", 8),
        centred_cell("Next run", 19),
        centred_cell("Days", 7),
        centred_cell("D", 1),
        left_cell("Command", w_cmd, ' '),
        next_run,
    );
    glue_line(&list, " | ", "\n")
}

fn rule_line_string(w_id: usize, w_cmd: usize, next_run: bool) -> (line: String)
    ensures
        line@ == rule_line(w_id as nat, w_cmd as nat, next_run),
{
    let list = line_cells(
        rule_cell(w_id),
        rule_cell(7),
        rule_cell(8),
        rule_cell(19),
        rule_cell(7),
        rule_cell(1),
        rule_cell(w_cmd),
        next_run,
    );
    glue_line(&list, " + ", "\n")
}

/// Writes the timers, in the order given, as a table.
pub fn table(rows: &Vec<TimerListing>, next_run: bool) -> (text: String)
    ensures
        text@ == table_of(listing_views(rows@), next_run),
{
    let (w_id, w_cmd) = widths(rows, 2, 7);
    let mut text = title_line_string(w_id, w_cmd, next_run);
    text.append(rule_line_string(w_id, w_cmd, next_run).as_str());
    let ghost head = text@;
    let ghost all = listing_views(rows@);
    let mut i: usize = 0;
    assert(all.take(0) =~= Seq::<ListingView>::empty());
    assert(text@ =~= head + timer_lines(all.take(0), w_id as nat, w_cmd as nat, next_run));
    while i < rows.len()
        invariant
            i <= rows.len(),
            all == listing_views(rows@),
            text@ == head + timer_lines(all.take(i as int), w_id as nat, w_cmd as nat, next_run),
        decreases rows.len() - i,
    {
        proof {
            let next = all.take(i + 1);
            assert(next.drop_last() =~= all.take(i as int));
            assert(next.last() == rows@[i as int]@);
        }
        let line = timer_line_string(&rows[i], w_id, w_cmd, next_run);
        text.append(line.as_str());
        i += 1;
        assert(text@ =~= head + timer_lines(
            all.take(i as int),
            w_id as nat,
            w_cmd as nat,
            next_run,
        ));
    }
    assert(all.take(all.len() as int) =~= all);
    text
}

/// Writes the timers as a table, in the order of the text of their next
/// firing, those with the same text in the order given. The next firing
/// has a column of its own where `need_next_hit` says so.
pub fn print_timers(timers: Vec<TimerListing>, need_next_hit: bool) -> (text: String)
    ensures
        exists|rows: Seq<ListingView>| #[trigger]
            is_stable_sort::<TimerListing>(rows, listing_views(timers@)) && text@ == table_of(
                rows,
                need_next_hit,
            ),
{
    let sorted = stable_sort(timers);
    assert(views_of(sorted@) =~= listing_views(sorted@));
    assert(views_of(timers@) =~= listing_views(timers@));
    let text = table(&sorted, need_next_hit);
    assert(is_stable_sort::<TimerListing>(listing_views(sorted@), listing_views(timers@)));
    text
}

} // verus!
