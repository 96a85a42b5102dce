//! Time series emulated on sorted sets, and records as hashes: the commands and their replies.
use vstd::prelude::*;

use crate::binary64::Binary64;
use crate::text::{
    decimal, law_decimal_is_digits, law_decimal_is_injective, next_index, push_decimal,
    second_field, second_field_of,
};

verus! {

/// An argument of a command.
#[derive(Debug)]
pub enum Arg {
    Text(String),
    /// A sorted-set score, sent as a floating point number.
    Score(u64),
    Count(usize),
}

/// A command and its arguments.
#[derive(Debug)]
pub struct Command {
    pub name: &'static str,
    pub args: Vec<Arg>,
}

/// The contents of an [`Arg`].
pub enum ArgView {
    Text(Seq<char>),
    Score(u64),
    Count(usize),
}

/// The contents of a [`Command`].
pub struct CommandView {
    pub name: Seq<char>,
    pub args: Seq<ArgView>,
}

impl View for Arg {
    type V = ArgView;

    open spec fn view(&self) -> ArgView {
        match self {
            Arg::Text(s) => ArgView::Text(s@),
            Arg::Score(x) => ArgView::Score(*x),
            Arg::Count(n) => ArgView::Count(*n),
        }
    }
}

impl View for Command {
    type V = CommandView;

    open spec fn view(&self) -> CommandView {
        CommandView { name: self.name@, args: self.args@.map_values(|a: Arg| a@) }
    }
}

/// The contents of a list of commands.
pub open spec fn command_views(commands: Seq<Command>) -> Seq<CommandView> {
    commands.map_values(|c: Command| c@)
}

/// Numbers the members written to the store, so that equal measurements stay apart. All writes of
/// a process must go through one such numbering: two of them number alike, and of two equal
/// measurements under the same number the store keeps one.
#[derive(Debug)]
pub struct RedisStore {
    pub next_sample: u64,
}

/// A series member: timestamp, value and sample number, separated by colons.
pub open spec fn member_chars(ts_ns: u64, val: Seq<char>, sample: u64) -> Seq<char> {
    decimal(ts_ns as nat) + ":"@ + val + ":"@ + decimal(sample as nat)
}

/// The last timestamp that leaves a series of `window_ns` ending at `ts_ns`.
pub open spec fn cutoff(ts_ns: u64, window_ns: u64) -> u64 {
    if ts_ns >= window_ns {
        (ts_ns - window_ns) as u64
    } else {
        0
    }
}

/// The command that inserts a member under its timestamp.
pub open spec fn insertion_view(key: Seq<char>, ts_ns: u64, member: Seq<char>) -> CommandView {
    CommandView {
        name: "ZADD"@,
        args: seq![ArgView::Text(key), ArgView::Score(ts_ns), ArgView::Text(member)],
    }
}

/// The commands that add a point to a series: one insertion, and for a nonzero window the removal
/// of everything up to the cutoff.
pub open spec fn ts_add_views(
    key: Seq<char>,
    ts_ns: u64,
    val: Seq<char>,
    window_ns: u64,
    sample: u64,
) -> Seq<CommandView> {
    let insertion = insertion_view(key, ts_ns, member_chars(ts_ns, val, sample));
    let removal = CommandView {
        name: "ZREMRANGEBYSCORE"@,
        args: seq![
            ArgView::Text(key),
            ArgView::Text("-inf"@),
            ArgView::Score(cutoff(ts_ns, window_ns)),
        ],
    };
    if window_ns > 0 {
        seq![insertion, removal]
    } else {
        seq![insertion]
    }
}

fn text_arg(s: &str) -> (arg: Arg)
    ensures
        arg@ == ArgView::Text(s@),
{
    Arg::Text(s.to_string())
}

impl RedisStore {
    /// A store whose first sample has number one.
    pub fn new() -> (store: Self)
        ensures
            store.next_sample == 1,
    {
        RedisStore { next_sample: 1 }
    }

    /// The commands that add the value written as `val` to a time series emulated via sorted
    /// sets, trimming by `window_ns`.
    pub fn ts_add(&mut self, key: &str, ts_ns: u64, val: &str, window_ns: u64) -> (commands: Vec<
        Command,
    >)
        ensures
            command_views(commands@) == ts_add_views(
                key@,
                ts_ns,
                val@,
                window_ns,
                old(self).next_sample,
            ),
            final(self).next_sample == sample_after(old(self).next_sample),
    {
        let sample: u64 = self.next_sample;
        self.next_sample = sample.wrapping_add(1);
        let mut member = String::new();
        push_decimal(&mut member, ts_ns);
        member.append(":");
        member.append(val);
        member.append(":");
        push_decimal(&mut member, sample);
        assert(member@ =~= member_chars(ts_ns, val@, sample));
        let mut commands: Vec<Command> = Vec::new();
        let insertion = Command {
            name: "ZADD",
            args: vec![text_arg(key), Arg::Score(ts_ns), Arg::Text(member)],
        };
        commands.push(insertion);
        if window_ns > 0 {
            let limit: u64 = ts_ns.saturating_sub(window_ns);
            let removal = Command {
                name: "ZREMRANGEBYSCORE",
                args: vec![text_arg(key), text_arg("-inf"), Arg::Score(limit)],
            };
            commands.push(removal);
        }
        proof {
            let want = ts_add_views(key@, ts_ns, val@, window_ns, sample);
            assert(commands@[0]@.args =~= want[0].args);
            if window_ns > 0 {
                assert(commands@[1]@.args =~= want[1].args);
            }
            assert(command_views(commands@) =~= want);
        }
        commands
    }

    /// The query for the points of a series since `since_ns`, newest first, at most `limit` of
    /// them unless that is zero.
    pub fn ts_recent(key: &str, since_ns: u64, limit: usize) -> (command: Command)
        ensures
            command@ == ts_recent_view(key@, since_ns, limit),
    {
        let mut args: Vec<Arg> = vec![
            text_arg(key),
            text_arg("+inf"),
            Arg::Score(since_ns),
            text_arg("WITHSCORES"),
        ];
        if limit > 0 {
            args.push(text_arg("LIMIT"));
            args.push(Arg::Count(0));
            args.push(Arg::Count(limit));
        }
        let command = Command { name: "ZREVRANGEBYSCORE", args };
        assert(command@.args =~= ts_recent_view(key@, since_ns, limit).args);
        command
    }

    /// The query for the newest point of a series.
    pub fn ts_last(key: &str) -> (command: Command)
        ensures
            command@.name == "ZREVRANGE"@,
            command@.args == seq![
                ArgView::Text(key@),
                ArgView::Count(0),
                ArgView::Count(0),
                ArgView::Text("WITHSCORES"@),
            ],
    {
        let args: Vec<Arg> = vec![
            text_arg(key),
            Arg::Count(0),
            Arg::Count(0),
            text_arg("WITHSCORES"),
        ];
        let command = Command { name: "ZREVRANGE", args };
        assert(command@.args =~= seq![
            ArgView::Text(key@),
            ArgView::Count(0),
            ArgView::Count(0),
            ArgView::Text("WITHSCORES"@),
        ]);
        command
    }

    /// The command that sets the given fields of a record, each with its value as text; none
    /// where there are no fields.
    pub fn hm_set(key: &str, fields: &Vec<(&'static str, String)>) -> (command: Option<Command>)
        ensures
            fields@.len() == 0 ==> command is None,
            fields@.len() > 0 ==> command is Some && command->Some_0@.name == "HSET"@
                && command->Some_0@.args == seq![ArgView::Text(key@)] + field_args(fields@),
    {
        if fields.len() == 0 {
            return None;
        }
        let mut args: Vec<Arg> = vec![text_arg(key)];
        let mut i: usize = 0;
        while i < fields.len()
            invariant
                i <= fields@.len(),
                args@.map_values(|a: Arg| a@) == seq![ArgView::Text(key@)] + field_args(
                    fields@.take(i as int),
                ),
            decreases fields@.len() - i,
        {
            let ghost before = args@;
            args.push(text_arg(fields[i].0));
            args.push(Arg::Text(fields[i].1.clone()));
            assert(fields@.take(i + 1).drop_last() =~= fields@.take(i as int));
            assert(args@.map_values(|a: Arg| a@) =~= seq![ArgView::Text(key@)] + field_args(
                fields@.take(i + 1),
            )) by {
                let old_views = before.map_values(|a: Arg| a@);
                assert(args@.map_values(|a: Arg| a@) =~= old_views.push(
                    ArgView::Text(fields@[i as int].0@),
                ).push(ArgView::Text(fields@[i as int].1@)));
            }
            i += 1;
        }
        assert(fields@.take(i as int) =~= fields@);
        Some(Command { name: "HSET", args })
    }

    /// The query for all fields of a record.
    pub fn hm_get_all(key: &str) -> (command: Command)
        ensures
            command@.name == "HGETALL"@,
            command@.args == seq![ArgView::Text(key@)],
    {
        let command = Command { name: "HGETALL", args: vec![text_arg(key)] };
        assert(command@.args =~= seq![ArgView::Text(key@)]);
        command
    }
}

impl Default for RedisStore {
    fn default() -> (store: Self)
        ensures
            store.next_sample == 1,
    {
        RedisStore::new()
    }
}

/// See [`RedisStore::ts_recent`].
pub open spec fn ts_recent_view(key: Seq<char>, since_ns: u64, limit: usize) -> CommandView {
    let base = seq![
        ArgView::Text(key),
        ArgView::Text("+inf"@),
        ArgView::Score(since_ns),
        ArgView::Text("WITHSCORES"@),
    ];
    let limits = if limit > 0 {
        seq![ArgView::Text("LIMIT"@), ArgView::Count(0), ArgView::Count(limit)]
    } else {
        Seq::empty()
    };
    CommandView { name: "ZREVRANGEBYSCORE"@, args: base + limits }
}

/// Field names and values as arguments, alternating.
pub open spec fn field_args(fields: Seq<(&'static str, String)>) -> Seq<ArgView>
    decreases fields.len(),
{
    if fields.len() == 0 {
        Seq::empty()
    } else {
        field_args(fields.drop_last()).push(ArgView::Text(fields.last().0@)).push(
            ArgView::Text(fields.last().1@),
        )
    }
}

/// The value in a series member, as text.
pub fn parse_member_value(member: &str) -> (val: Option<String>)
    ensures
        match second_field(member@, ':') {
            Some(f) => val is Some && val->Some_0@ == f,
            None => val is None,
        },
{
    second_field_of(member, ':')
}

/// The points of a reply that lists the newest first: oldest first, without the entries whose
/// value is missing.
pub open spec fn recent_points(entries: Seq<(u64, Option<Binary64>)>) -> Seq<(u64, Binary64)>
    decreases entries.len(),
{
    if entries.len() == 0 {
        Seq::empty()
    } else {
        let rest = recent_points(entries.drop_first());
        match entries[0].1 {
            Some(val) => rest.push((entries[0].0, val)),
            None => rest,
        }
    }
}

/// Turns a reply that lists the newest entry first into a series in ascending order, leaving out
/// entries without a readable value.
pub fn read_recent(entries: &Vec<(u64, Option<Binary64>)>) -> (points: Vec<(u64, Binary64)>)
    ensures
        points@ == recent_points(entries@),
{
    let mut points: Vec<(u64, Binary64)> = Vec::new();
    let mut i: usize = entries.len();
    assert(entries@.skip(i as int) =~= Seq::empty());
    while i > 0
        invariant
            i <= entries@.len(),
            points@ == recent_points(entries@.skip(i as int)),
        decreases i,
    {
        i -= 1;
        assert(entries@.skip(i as int).drop_first() =~= entries@.skip(i + 1));
        match entries[i].1 {
            Some(val) => points.push((entries[i].0, val)),
            None => {},
        }
    }
    assert(entries@.skip(0) =~= entries@);
    points
}

/// The newest point of a reply, if there is an entry and its value is readable.
pub fn read_last(entries: &Vec<(u64, Option<Binary64>)>) -> (point: Option<(u64, Binary64)>)
    ensures
        point == (if entries@.len() == 0 {
            None
        } else {
            match entries@[0].1 {
                Some(val) => Some((entries@[0].0, val)),
                None => None,
            }
        }),
{
    if entries.len() == 0 {
        return None;
    }
    match entries[0].1 {
        Some(val) => Some((entries[0].0, val)),
        None => None,
    }
}

proof fn lemma_next_index_skips(s: Seq<char>, c: char, from: int, to: int)
    requires
        0 <= from <= to <= s.len(),
        forall|i: int| from <= i < to ==> s[i] != c,
    ensures
        next_index(s, c, from) == next_index(s, c, to),
    decreases to - from,
{
    if from < to {
        lemma_next_index_skips(s, c, from + 1, to);
    }
}

/// What is read from a stored member is the value that was written.
pub proof fn law_member_value_round_trip(ts_ns: u64, val: Seq<char>, sample: u64)
    requires
        !val.contains(':'),
    ensures
        second_field(member_chars(ts_ns, val, sample), ':') == Some(val),
{
    reveal_strlit(":");
    let s = member_chars(ts_ns, val, sample);
    let d = decimal(ts_ns as nat);
    law_decimal_is_digits(ts_ns as nat);
    let first = d.len() as int;
    let second = first + 1 + val.len();
    assert forall|i: int| 0 <= i < first implies s[i] != ':' by {
        assert(s[i] == d[i]);
    }
    lemma_next_index_skips(s, ':', 0, first);
    assert(s[first] == ':');
    assert forall|i: int| first + 1 <= i < second implies s[i] != ':' by {
        assert(s[i] == val[i - first - 1]);
    }
    lemma_next_index_skips(s, ':', first + 1, second);
    assert(s[second] == ':');
    assert(s.subrange(first + 1, second) =~= val);
}

/// No two points share a member: one member stands for one timestamp, one value and one sample
/// number, so that equal measurements are kept apart by their numbers.
pub proof fn law_members_are_distinct(
    ts_a: u64,
    val_a: Seq<char>,
    sample_a: u64,
    ts_b: u64,
    val_b: Seq<char>,
    sample_b: u64,
)
    requires
        !val_a.contains(':'),
        !val_b.contains(':'),
        member_chars(ts_a, val_a, sample_a) == member_chars(ts_b, val_b, sample_b),
    ensures
        ts_a == ts_b,
        val_a == val_b,
        sample_a == sample_b,
{
    reveal_strlit(":");
    law_member_value_round_trip(ts_a, val_a, sample_a);
    law_member_value_round_trip(ts_b, val_b, sample_b);
    let s = member_chars(ts_a, val_a, sample_a);
    let (da, db) = (decimal(ts_a as nat), decimal(ts_b as nat));
    law_decimal_is_digits(ts_a as nat);
    law_decimal_is_digits(ts_b as nat);
    assert(s[da.len() as int] == ':');
    assert(s[db.len() as int] == ':');
    if da.len() < db.len() {
        assert(s[da.len() as int] == db[da.len() as int]);
    }
    if db.len() < da.len() {
        assert(s[db.len() as int] == da[db.len() as int]);
    }
    assert(da =~= s.take(da.len() as int));
    assert(db =~= s.take(db.len() as int));
    law_decimal_is_injective(ts_a as nat, ts_b as nat);
    let tail = da.len() + val_a.len() + 2;
    assert(decimal(sample_a as nat) =~= s.skip(tail as int));
    assert(decimal(sample_b as nat) =~= s.skip(tail as int));
    law_decimal_is_injective(sample_a as nat, sample_b as nat);
}

/// The number that follows `sample`; after the last one comes zero.
pub open spec fn sample_after(sample: u64) -> u64 {
    if sample == u64::MAX {
        0
    } else {
        (sample + 1) as u64
    }
}

/// Equal samples are both kept and both read back. Adding one measurement twice to an untrimmed
/// series inserts two different members under the same score and removes nothing. The query from
/// that very time on includes the score and sets no limit. A reply that lists the two members
/// carries the value as it was written, and becomes two equal points.
pub proof fn law_equal_samples_are_both_read_back(
    key: Seq<char>,
    ts_ns: u64,
    text: Seq<char>,
    sample: u64,
    val: Binary64,
)
    requires
        !text.contains(':'),
    ensures
        ({
            let first = member_chars(ts_ns, text, sample);
            let second = member_chars(ts_ns, text, sample_after(sample));
            let reply = seq![(ts_ns, Some(val)), (ts_ns, Some(val))];
            &&& ts_add_views(key, ts_ns, text, 0, sample) == seq![insertion_view(key, ts_ns, first)]
            &&& ts_add_views(key, ts_ns, text, 0, sample_after(sample)) == seq![
                insertion_view(key, ts_ns, second),
            ]
            &&& first != second
            &&& second_field(first, ':') == Some(text)
            &&& second_field(second, ':') == Some(text)
            &&& ts_recent_view(key, ts_ns, 0).args == seq![
                ArgView::Text(key),
                ArgView::Text("+inf"@),
                ArgView::Score(ts_ns),
                ArgView::Text("WITHSCORES"@),
            ]
            &&& recent_points(reply) == seq![(ts_ns, val), (ts_ns, val)]
        }),
{
    let next = sample_after(sample);
    law_member_value_round_trip(ts_ns, text, sample);
    law_member_value_round_trip(ts_ns, text, next);
    if member_chars(ts_ns, text, sample) == member_chars(ts_ns, text, next) {
        law_members_are_distinct(ts_ns, text, sample, ts_ns, text, next);
    }
    assert(ts_recent_view(key, ts_ns, 0).args =~= seq![
        ArgView::Text(key),
        ArgView::Text("+inf"@),
        ArgView::Score(ts_ns),
        ArgView::Text("WITHSCORES"@),
    ]);
    let reply = seq![(ts_ns, Some(val)), (ts_ns, Some(val))];
    reveal_with_fuel(recent_points, 3);
    assert(reply.drop_first() =~= seq![(ts_ns, Some(val))]);
    assert(reply.drop_first().drop_first() =~= Seq::empty());
    assert(recent_points(reply) =~= seq![(ts_ns, val), (ts_ns, val)]);
}

/// The cutoff of a trim lies before every point that is less than `window_ns` older than the one
/// just added, except those of time zero. The store compares both as rounded scores.
pub proof fn law_trimming_keeps_the_window(ts_ns: u64, window_ns: u64, point_ns: u64)
    requires
        0 < point_ns,
        point_ns <= ts_ns,
        ts_ns - point_ns < window_ns,
    ensures
        point_ns > cutoff(ts_ns, window_ns),
{
}

proof fn lemma_recent_points_len(entries: Seq<(u64, Option<Binary64>)>)
    ensures
        recent_points(entries).len() <= entries.len(),
    decreases entries.len(),
{
    if entries.len() > 0 {
        lemma_recent_points_len(entries.drop_first());
    }
}

/// A reply in descending order of time becomes a series in ascending order.
pub proof fn law_recent_points_ascend(entries: Seq<(u64, Option<Binary64>)>)
    requires
        forall|i: int, j: int|
            0 <= i <= j < entries.len() ==> (#[trigger] entries[i]).0 >= (#[trigger] entries[j]).0,
    ensures
        recent_points(entries).len() <= entries.len(),
        forall|i: int, j: int|
            0 <= i <= j < recent_points(entries).len() ==> (#[trigger] recent_points(entries)[i]).0
                <= (#[trigger] recent_points(entries)[j]).0,
        forall|i: int|
            0 <= i < recent_points(entries).len() ==> (#[trigger] recent_points(entries)[i]).0
                <= entries[0].0,
    decreases entries.len(),
{
    lemma_recent_points_len(entries);
    if entries.len() > 0 {
        let rest = entries.drop_first();
        assert forall|i: int, j: int| 0 <= i <= j < rest.len() implies (#[trigger] rest[i]).0 >= (
        #[trigger] rest[j]).0 by {
            assert(entries[i + 1].0 >= entries[j + 1].0);
        }
        law_recent_points_ascend(rest);
        if rest.len() > 0 {
            assert(entries[0].0 >= entries[1].0);
            assert(rest[0] == entries[1]);
        } else {
            assert(recent_points(rest).len() == 0);
        }
    }
}

/// A readable entry of a reply, as a point.
pub open spec fn entry_point(entry: (u64, Option<Binary64>)) -> (u64, Binary64) {
    (entry.0, entry.1->Some_0)
}

/// No readable entry of a reply is lost and none is invented: the points are the reply read from
/// its end, without the entries that hold no value.
pub proof fn law_recent_points_are_the_reply_reversed(entries: Seq<(u64, Option<Binary64>)>)
    ensures
        recent_points(entries) == entries.reverse().filter(
            |e: (u64, Option<Binary64>)| e.1 is Some,
        ).map_values(|e: (u64, Option<Binary64>)| entry_point(e)),
    decreases entries.len(),
{
    let readable = |e: (u64, Option<Binary64>)| e.1 is Some;
    let point = |e: (u64, Option<Binary64>)| entry_point(e);
    reveal(Seq::filter);
    if entries.len() > 0 {
        let rest = entries.drop_first();
        law_recent_points_are_the_reply_reversed(rest);
        assert(entries.reverse().drop_last() =~= rest.reverse());
        assert(entries.reverse().last() == entries[0]);
        let kept = rest.reverse().filter(readable);
        if entries[0].1 is Some {
            assert(entries.reverse().filter(readable) == kept.push(entries[0]));
            assert(kept.push(entries[0]).map_values(point) =~= kept.map_values(point).push(
                entry_point(entries[0]),
            ));
        } else {
            assert(entries.reverse().filter(readable) == kept);
        }
    } else {
        assert(entries.reverse().filter(readable) =~= Seq::empty());
    }
    assert(recent_points(entries) =~= entries.reverse().filter(readable).map_values(point));
}

/// A reply whose entries all hold a value gives one point for each of them, the last entry first.
pub proof fn law_complete_replies_are_read_whole(entries: Seq<(u64, Option<Binary64>)>)
    requires
        forall|i: int| 0 <= i < entries.len() ==> (#[trigger] entries[i]).1 is Some,
    ensures
        recent_points(entries).len() == entries.len(),
        forall|i: int|
            0 <= i < entries.len() ==> (#[trigger] recent_points(entries)[i]).0 == entries[
                entries.len() - 1 - i
            ].0 && Some(recent_points(entries)[i].1) == entries[entries.len() - 1 - i].1,
    decreases entries.len(),
{
    if entries.len() > 0 {
        let rest = entries.drop_first();
        assert forall|i: int| 0 <= i < rest.len() implies (#[trigger] rest[i]).1 is Some by {
            assert(entries[i + 1].1 is Some);
        }
        law_complete_replies_are_read_whole(rest);
        assert(entries[0].1 is Some);
    }
}

/// Adding a point inserts its member, which spells out its time, value and number, under its time.
/// With a window it then removes everything from the beginning of time up to the cutoff.
pub proof fn law_points_are_inserted_and_trimmed(
    key: Seq<char>,
    ts_ns: u64,
    val: Seq<char>,
    window_ns: u64,
    sample: u64,
)
    ensures
        ({
            let commands = ts_add_views(key, ts_ns, val, window_ns, sample);
            &&& commands.len() == (if window_ns == 0 {
                1int
            } else {
                2
            })
            &&& commands[0].name == "ZADD"@
            &&& commands[0].args == seq![
                ArgView::Text(key),
                ArgView::Score(ts_ns),
                ArgView::Text(
                    decimal(ts_ns as nat) + ":"@ + val + ":"@ + decimal(sample as nat),
                ),
            ]
            &&& window_ns > 0 ==> commands[1].name == "ZREMRANGEBYSCORE"@ && commands[1].args
                == seq![
                ArgView::Text(key),
                ArgView::Text("-inf"@),
                ArgView::Score(cutoff(ts_ns, window_ns)),
            ]
        }),
{
}

/// The cutoff of a trim reaches every point that is at least `window_ns` older than the one just
/// added.
pub proof fn law_trimming_drops_what_is_too_old(ts_ns: u64, window_ns: u64, point_ns: u64)
    requires
        point_ns + window_ns <= ts_ns,
    ensures
        point_ns <= cutoff(ts_ns, window_ns),
{
}

/// The query for recent points runs from the end of time back to `since_ns`, with the scores, and
/// stops after `limit` points unless that is zero.
pub proof fn law_queries_run_back_to_their_start(key: Seq<char>, since_ns: u64, limit: usize)
    ensures
        ({
            let command = ts_recent_view(key, since_ns, limit);
            &&& command.name == "ZREVRANGEBYSCORE"@
            &&& command.args.len() == (if limit == 0 {
                4int
            } else {
                7
            })
            &&& command.args[0] == ArgView::Text(key)
            &&& command.args[1] == ArgView::Text("+inf"@)
            &&& command.args[2] == ArgView::Score(since_ns)
            &&& command.args[3] == ArgView::Text("WITHSCORES"@)
            &&& limit > 0 ==> command.args[4] == ArgView::Text("LIMIT"@) && command.args[5]
                == ArgView::Count(0) && command.args[6] == ArgView::Count(limit)
        }),
{
}

/// Every field of a record is sent once, its name directly before its own value, in order.
pub proof fn law_fields_are_sent_with_their_values(fields: Seq<(&'static str, String)>, i: int)
    requires
        0 <= i < fields.len(),
    ensures
        field_args(fields).len() == 2 * fields.len(),
        field_args(fields)[2 * i] == ArgView::Text(fields[i].0@),
        field_args(fields)[2 * i + 1] == ArgView::Text(fields[i].1@),
    decreases fields.len(),
{
    let rest = fields.drop_last();
    if i < rest.len() {
        law_fields_are_sent_with_their_values(rest, i);
        assert(rest[i] == fields[i]);
    } else {
        assert(field_args(rest).len() == 2 * rest.len()) by {
            if rest.len() > 0 {
                law_fields_are_sent_with_their_values(rest, 0);
            }
        }
    }
}

/// Each number is followed by the next one, and the last by zero.
pub proof fn law_samples_are_numbered_in_turn(sample: u64)
    ensures
        sample < u64::MAX ==> sample_after(sample) == sample + 1,
        sample_after(u64::MAX) == 0,
{
}

/// Commands are seen whole, one by one and argument by argument.
pub proof fn law_commands_are_seen_whole(commands: Seq<Command>, i: int, k: int)
    requires
        0 <= i < commands.len(),
        0 <= k < commands[i].args@.len(),
    ensures
        command_views(commands).len() == commands.len(),
        command_views(commands)[i].name == commands[i].name@,
        command_views(commands)[i].args.len() == commands[i].args@.len(),
        commands[i].args@[k] matches Arg::Text(text) ==> command_views(commands)[i].args[k]
            == ArgView::Text(text@),
        commands[i].args@[k] matches Arg::Score(score) ==> command_views(commands)[i].args[k]
            == ArgView::Score(score),
        commands[i].args@[k] matches Arg::Count(count) ==> command_views(commands)[i].args[k]
            == ArgView::Count(count),
{
}

} // verus!
