//! Round-trip times from the `ping` program.
use vstd::prelude::*;

use crate::text::{chars_of, decimal, lemma_next_index_bounds, next_index, to_decimal};

verus! {

/// Seconds that `ping` waits for a reply within a budget of `timeout_ms`: at least one.
pub open spec fn wait_secs(timeout_ms: u64) -> nat {
    if timeout_ms < 1000 {
        1
    } else {
        (timeout_ms / 1000) as nat
    }
}

/// The arguments for a single probe of `host`, with a reply timeout where the program takes one.
pub fn ping_args(host: &str, timeout_ms: u64, with_wait: bool) -> (args: Vec<String>)
    ensures
        args@.map_values(|a: String| a@) == seq!["-c"@, "1"@] + (if with_wait {
            seq!["-W"@, decimal(wait_secs(timeout_ms))]
        } else {
            Seq::empty()
        }) + seq![host@],
{
    let mut args: Vec<String> = Vec::new();
    args.push("-c".to_string());
    args.push("1".to_string());
    if with_wait {
        let secs: u64 = if timeout_ms < 1000 { 1 } else { timeout_ms / 1000 };
        args.push("-W".to_string());
        args.push(to_decimal(secs));
    }
    args.push(host.to_string());
    assert(args@.map_values(|a: String| a@) =~= seq!["-c"@, "1"@] + (if with_wait {
        seq!["-W"@, decimal(wait_secs(timeout_ms))]
    } else {
        Seq::empty()
    }) + seq![host@]);
    args
}

/// `c` is white space in the sense of Unicode.
pub open spec fn is_space(c: char) -> bool {
    ||| '\u{9}' <= c <= '\u{d}'
    ||| c == '\u{20}'
    ||| c == '\u{85}'
    ||| c == '\u{a0}'
    ||| c == '\u{1680}'
    ||| '\u{2000}' <= c <= '\u{200a}'
    ||| c == '\u{2028}'
    ||| c == '\u{2029}'
    ||| c == '\u{202f}'
    ||| c == '\u{205f}'
    ||| c == '\u{3000}'
}

fn is_space_char(c: char) -> (space: bool)
    ensures
        space == is_space(c),
{
    ('\u{9}' <= c && c <= '\u{d}') || c == '\u{20}' || c == '\u{85}' || c == '\u{a0}' || c
        == '\u{1680}' || ('\u{2000}' <= c && c <= '\u{200a}') || c == '\u{2028}' || c == '\u{2029}'
        || c == '\u{202f}' || c == '\u{205f}' || c == '\u{3000}'
}

/// The first position at or after `from` whose character is white space, or is not, as `space`
/// asks; the length of `s` where there is none.
pub open spec fn next_space(s: Seq<char>, from: int, space: bool) -> int
    decreases s.len() - from,
{
    if from >= s.len() {
        s.len() as int
    } else if is_space(s[from]) == space {
        from
    } else {
        next_space(s, from + 1, space)
    }
}

/// `s` holds "time=" at `at`.
pub open spec fn label_at(s: Seq<char>, at: int) -> bool {
    &&& at + 5 <= s.len()
    &&& s[at] == 't'
    &&& s[at + 1] == 'i'
    &&& s[at + 2] == 'm'
    &&& s[at + 3] == 'e'
    &&& s[at + 4] == '='
}

/// The first position at or after `from` where `s` holds "time=".
pub open spec fn next_label(s: Seq<char>, from: int) -> Option<int>
    decreases s.len() - from,
{
    if from >= s.len() {
        None
    } else if label_at(s, from) {
        Some(from)
    } else {
        next_label(s, from + 1)
    }
}

/// `s` without any number of "ms" at its end.
pub open spec fn without_unit(s: Seq<char>) -> Seq<char>
    decreases s.len(),
{
    if s.len() >= 2 && s[s.len() - 2] == 'm' && s[s.len() - 1] == 's' {
        without_unit(s.take(s.len() - 2))
    } else {
        s
    }
}

/// The first word of `s` from `from` on, empty where there is none.
pub open spec fn first_word(s: Seq<char>, from: int) -> Seq<char> {
    let start = next_space(s, from, false);
    s.subrange(start, next_space(s, start, true))
}

/// The time that a line of output reports, as text without its unit.
pub open spec fn line_time(line: Seq<char>) -> Option<Seq<char>> {
    match next_label(line, 0) {
        Some(at) => Some(without_unit(first_word(line, at + 5))),
        None => None,
    }
}

/// The times reported by the lines of `s` from `from` on, in order.
pub open spec fn reported_times(s: Seq<char>, from: int) -> Seq<Seq<char>>
    decreases s.len() + 1 - from,
{
    if from < 0 || from >= s.len() {
        Seq::empty()
    } else {
        let end = next_index(s, '\n', from);
        proof {
            lemma_next_index_bounds(s, '\n', from);
        }
        let rest = reported_times(s, end + 1);
        match line_time(s.subrange(from, end)) {
            Some(time) => seq![time] + rest,
            None => rest,
        }
    }
}

fn find_space(chars: &Vec<char>, from: usize, space: bool) -> (at: usize)
    requires
        from <= chars@.len(),
    ensures
        at == next_space(chars@, from as int, space),
        from <= at <= chars@.len(),
{
    let mut i: usize = from;
    while i < chars.len() && is_space_char(chars[i]) != space
        invariant
            from <= i <= chars@.len(),
            next_space(chars@, from as int, space) == next_space(chars@, i as int, space),
        decreases chars@.len() - i,
    {
        i += 1;
    }
    i
}

/// The position behind the first "time=".
fn find_label(chars: &Vec<char>) -> (behind: Option<usize>)
    ensures
        match behind {
            Some(i) => next_label(chars@, 0) == Some(i - 5) && i <= chars@.len(),
            None => next_label(chars@, 0) is None,
        },
{
    let n: usize = chars.len();
    let mut i: usize = 0;
    while i < n
        invariant
            i <= n == chars@.len(),
            next_label(chars@, 0) == next_label(chars@, i as int),
        decreases n - i,
    {
        if n - i >= 5 && chars[i] == 't' && chars[i + 1] == 'i' && chars[i + 2] == 'm' && chars[i
            + 3] == 'e' && chars[i + 4] == '=' {
            return Some(i + 5);
        }
        i += 1;
    }
    None
}

/// The time that a line of output reports, as text without its unit.
pub fn read_line_time(line: &str) -> (time: Option<String>)
    ensures
        match line_time(line@) {
            Some(t) => time is Some && time->Some_0@ == t,
            None => time is None,
        },
{
    let chars: Vec<char> = chars_of(line);
    match find_label(&chars) {
        None => None,
        Some(behind) => {
            let start: usize = find_space(&chars, behind, false);
            let stop: usize = find_space(&chars, start, true);
            let ghost word = line@.subrange(start as int, stop as int);
            let mut end: usize = stop;
            while end - start >= 2 && chars[end - 2] == 'm' && chars[end - 1] == 's'
                invariant
                    chars@ == line@,
                    start <= end <= stop <= line@.len(),
                    word == line@.subrange(start as int, stop as int),
                    without_unit(word) == without_unit(line@.subrange(start as int, end as int)),
                decreases end,
            {
                let ghost cut = line@.subrange(start as int, end as int);
                assert(cut.take(cut.len() - 2) =~= line@.subrange(start as int, end - 2));
                end -= 2;
            }
            Some(line.substring_char(start, end).to_string())
        },
    }
}

/// The times that the output of `ping` reports, line by line, as text without their unit.
pub fn read_times(output: &str) -> (times: Vec<String>)
    ensures
        times@.map_values(|t: String| t@) == reported_times(output@, 0),
{
    let chars: Vec<char> = chars_of(output);
    let n: usize = chars.len();
    let mut times: Vec<String> = Vec::new();
    let mut start: usize = 0;
    assert(times@.map_values(|t: String| t@) + reported_times(output@, 0) =~= reported_times(
        output@,
        0,
    ));
    while start < n
        invariant
            chars@ == output@,
            n == output@.len(),
            start <= n,
            times@.map_values(|t: String| t@) + reported_times(output@, start as int)
                == reported_times(output@, 0),
        decreases n - start,
    {
        let mut end: usize = start;
        while end < n && chars[end] != '\n'
            invariant
                chars@ == output@,
                n == output@.len(),
                start <= end <= n,
                next_index(output@, '\n', start as int) == next_index(output@, '\n', end as int),
            decreases n - end,
        {
            end += 1;
        }
        let ghost before = times@.map_values(|t: String| t@);
        let ghost rest = reported_times(output@, end + 1);
        if let Some(time) = read_line_time(output.substring_char(start, end)) {
            let ghost found = time@;
            times.push(time);
            assert(times@.map_values(|t: String| t@) =~= before.push(found));
            assert(before.push(found) + rest =~= before + (seq![found] + rest));
        }
        start = if end < n { end + 1 } else { n };
        assert(reported_times(output@, start as int) =~= rest);
    }
    assert(times@.map_values(|t: String| t@) =~= reported_times(output@, 0));
    times
}

proof fn lemma_next_label_skips(s: Seq<char>, from: int, to: int)
    requires
        0 <= from <= to <= s.len(),
        forall|k: int| from <= k < to ==> !#[trigger] label_at(s, k),
    ensures
        next_label(s, from) == next_label(s, to),
    decreases to - from,
{
    if from < to {
        assert(!label_at(s, from));
        lemma_next_label_skips(s, from + 1, to);
    }
}

proof fn lemma_next_space_skips(s: Seq<char>, from: int, to: int, space: bool)
    requires
        0 <= from <= to <= s.len(),
        forall|k: int| from <= k < to ==> is_space(#[trigger] s[k]) != space,
    ensures
        next_space(s, from, space) == next_space(s, to, space),
    decreases to - from,
{
    if from < to {
        lemma_next_space_skips(s, from + 1, to, space);
    }
}

/// The word behind the first "time=" of a line is what is read from it, without a unit written
/// directly behind it.
pub proof fn law_word_behind_label_is_read(before: Seq<char>, word: Seq<char>, after: Seq<char>)
    requires
        forall|k: int| 0 <= k < before.len() ==> !#[trigger] label_at(before, k),
        word.len() > 0,
        forall|k: int| 0 <= k < word.len() ==> !is_space(#[trigger] word[k]),
        after.len() == 0 || is_space(after[0]),
    ensures
        line_time(before + "time="@ + word + after) == Some(without_unit(word)),
{
    reveal_strlit("time=");
    let s = before + "time="@ + word + after;
    let at = before.len() as int;
    assert forall|k: int| 0 <= k < at implies !#[trigger] label_at(s, k) by {
        if label_at(s, k) {
            if k + 5 <= at {
                assert(label_at(before, k));
            } else {
                assert(s[at] == 't');
            }
        }
    }
    lemma_next_label_skips(s, 0, at);
    assert(s[at] == 't' && s[at + 1] == 'i' && s[at + 2] == 'm' && s[at + 3] == 'e' && s[at + 4]
        == '=');
    assert(label_at(s, at));
    assert(s[at + 5] == word[0]);
    assert(next_space(s, at + 5, false) == at + 5);
    let stop = at + 5 + word.len();
    assert forall|k: int| at + 5 <= k < stop implies is_space(#[trigger] s[k]) != true by {
        assert(s[k] == word[k - at - 5]);
    }
    lemma_next_space_skips(s, at + 5, stop, true);
    if after.len() > 0 {
        assert(s[stop] == after[0]);
    }
    assert(next_space(s, stop, true) == stop);
    assert(s.subrange(at + 5, stop) =~= word);
}

proof fn lemma_search_behind(a: Seq<char>, b: Seq<char>, c: char, from: int)
    requires
        0 <= from <= b.len(),
    ensures
        next_index(a + b, c, a.len() + from) == a.len() + next_index(b, c, from),
    decreases b.len() - from,
{
    if from < b.len() && b[from] != c {
        lemma_search_behind(a, b, c, from + 1);
    }
}

proof fn lemma_times_behind(a: Seq<char>, b: Seq<char>, from: int)
    requires
        0 <= from,
    ensures
        reported_times(a + b, a.len() + from) == reported_times(b, from),
    decreases b.len() + 1 - from,
{
    if from < b.len() {
        let end = next_index(b, '\n', from);
        lemma_next_index_bounds(b, '\n', from);
        lemma_search_behind(a, b, '\n', from);
        lemma_times_behind(a, b, end + 1);
        assert((a + b).subrange(a.len() + from, a.len() + end) =~= b.subrange(from, end));
    }
}

/// Output is read line by line: the time of the first line, if it reports one, comes before those
/// of the lines that follow.
pub proof fn law_lines_are_read_in_turn(line: Seq<char>, rest: Seq<char>)
    requires
        !line.contains('\n'),
    ensures
        reported_times(line + seq!['\n'] + rest, 0) == (match line_time(line) {
            Some(time) => seq![time],
            None => Seq::empty(),
        }) + reported_times(rest, 0),
        reported_times(line, 0) == (match line_time(line) {
            Some(time) => seq![time],
            None => Seq::empty(),
        }),
{
    let n = line.len() as int;
    let head = line + seq!['\n'];
    let s = head + rest;
    assert forall|i: int| 0 <= i < n implies s[i] != '\n' by {
        assert(s[i] == line[i]);
    }
    assert(s[n] == '\n');
    crate::text::law_search_finds_the_first(s, '\n', 0, n);
    assert(s.subrange(0, n) =~= line);
    lemma_times_behind(head, rest, 0);
    let found = match line_time(line) {
        Some(time) => seq![time],
        None => Seq::empty(),
    };
    assert(reported_times(s, n + 1) == reported_times(rest, 0));
    assert(reported_times(s, 0) =~= found + reported_times(rest, 0));
    if n > 0 {
        crate::text::law_search_finds_the_first(line, '\n', 0, n);
        assert(line.subrange(0, n) =~= line);
        assert(reported_times(line, n + 1) =~= Seq::empty());
    } else {
        assert(next_label(line, 0) is None);
    }
    assert(reported_times(line, 0) =~= found);
}

/// A line without "time=" reports no time.
pub proof fn law_lines_without_label_report_nothing(line: Seq<char>)
    requires
        forall|k: int| 0 <= k < line.len() ==> !#[trigger] label_at(line, k),
    ensures
        line_time(line) is None,
{
    lemma_next_label_skips(line, 0, line.len() as int);
}

/// A unit at the end is taken off, however often it stands there, and nothing else is.
pub proof fn law_units_are_taken_off(word: Seq<char>)
    ensures
        without_unit(word + seq!['m', 's']) == without_unit(word),
        word.len() < 2 || word[word.len() - 2] != 'm' || word[word.len() - 1] != 's'
            ==> without_unit(word) == word,
{
    let long = word + seq!['m', 's'];
    assert(long.take(long.len() - 2) =~= word);
}

/// A ping waits for the whole seconds of its budget, and at least for one.
pub proof fn law_pings_wait_whole_seconds(timeout_ms: u64)
    ensures
        wait_secs(timeout_ms) >= 1,
        timeout_ms >= 1000 ==> wait_secs(timeout_ms) * 1000 <= timeout_ms < (wait_secs(timeout_ms)
            + 1) * 1000,
        timeout_ms < 1000 ==> wait_secs(timeout_ms) == 1,
{
}

/// Blanks, tabs and line ends separate words; printed characters do not.
pub proof fn law_words_are_separated_by_blanks(c: char)
    ensures
        c == ' ' || c == '\t' || c == '\n' || c == '\r' ==> is_space(c),
        '!' <= c <= '~' ==> !is_space(c),
{
}

} // verus!
