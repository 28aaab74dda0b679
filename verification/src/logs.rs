//! Captured log events and the bounded feed that shows them.

use vstd::prelude::*;
use std::collections::VecDeque;

use crate::text::{concat2, join};

verus! {

/// How severe a log event is.
#[derive(Clone, Copy, Debug, PartialEq, Eq, Structural)]
pub enum LogLevel {
    Trace,
    Debug,
    Info,
    Warn,
    Error,
}

impl LogLevel {
    /// The word for the level.
    pub open spec fn text(self) -> Seq<char> {
        match self {
            LogLevel::Trace => "TRACE"@,
            LogLevel::Debug => "DEBUG"@,
            LogLevel::Info => "INFO"@,
            LogLevel::Warn => "WARN"@,
            LogLevel::Error => "ERROR"@,
        }
    }

    /// The word for the level.
    pub fn as_str(self) -> (r: &'static str)
        ensures
            r@ == self.text(),
    {
        match self {
            LogLevel::Trace => "TRACE",
            LogLevel::Debug => "DEBUG",
            LogLevel::Info => "INFO",
            LogLevel::Warn => "WARN",
            LogLevel::Error => "ERROR",
        }
    }
}

/// A log event: how severe it is, where it comes from and what it says.
pub struct CapturedLog {
    pub level: LogLevel,
    pub target: String,
    pub message: String,
}

/// The line that shows a log event.
pub open spec fn log_line(log: CapturedLog) -> Seq<char> {
    "["@ + log.level.text() + "] "@ + log.target@ + ": "@ + log.message@
}

impl CapturedLog {
    /// The line that shows the event.
    pub fn line(&self) -> (r: String)
        ensures
            r@ == log_line(*self),
    {
        let mut r = concat2("[", self.level.as_str());
        r.append("] ");
        r.append(self.target.as_str());
        r.append(": ");
        r.append(self.message.as_str());
        r
    }
}

/// Picks the message out of the fields of a log event.
pub struct MessageVisitor(pub String);

impl MessageVisitor {
    /// A visitor that has seen no message.
    pub fn new() -> (r: Self)
        ensures
            r.0@ == Seq::<char>::empty(),
    {
        MessageVisitor(String::new())
    }

    /// Tells whether a field is the message, so that it needs to be rendered.
    pub fn wants(field: &str) -> (r: bool)
        ensures
            r == (field@ == "message"@),
    {
        same_text(field, "message")
    }

    /// Takes a rendered field. The message replaces what was there; all other
    /// fields are passed over.
    pub fn record_debug(&mut self, field: &str, rendered: String)
        ensures
            final(self).0@ == (if field@ == "message"@ {
                rendered@
            } else {
                old(self).0@
            }),
    {
        if Self::wants(field) {
            self.0 = rendered;
        }
    }
}

/// Two texts are the same.
pub(crate) fn same_text(a: &str, b: &str) -> (r: bool)
    ensures
        r == (a@ == b@),
{
    a.to_owned() == b.to_owned()
}

/// How many lines the feed keeps.
pub const LOG_FEED_CAP: usize = 300;

/// How many lines of the feed are shown.
pub const LOG_FEED_VISIBLE: usize = 24;

/// The most recent log lines.
pub struct BevyLogFeed {
    lines: VecDeque<String>,
}

/// The lines that show some log events.
pub open spec fn log_lines(logs: Seq<CapturedLog>) -> Seq<Seq<char>> {
    logs.map_values(|log: CapturedLog| log_line(log))
}

impl BevyLogFeed {
    /// The lines, oldest first.
    pub closed spec fn view(&self) -> Seq<Seq<char>> {
        self.lines@.map_values(|line: String| line@)
    }

    /// The feed holds no more than it may.
    pub open spec fn valid(&self) -> bool {
        self@.len() <= LOG_FEED_CAP
    }

    /// An empty feed.
    pub fn new() -> (r: Self)
        ensures
            r@ == Seq::<Seq<char>>::empty(),
            r.valid(),
    {
        let r = BevyLogFeed { lines: VecDeque::new() };
        assert(r@ == Seq::<Seq<char>>::empty());
        r
    }

    /// Adds a log event at the end, and drops the oldest line where the feed
    /// is full.
    fn push(&mut self, log: &CapturedLog)
        requires
            old(self).valid(),
        ensures
            final(self)@ == crate::text::last_of(
                old(self)@.push(log_line(*log)),
                LOG_FEED_CAP as int,
            ),
            final(self).valid(),
    {
        let ghost before = self@;
        self.lines.push_back(log.line());
        assert(self@ == before.push(log_line(*log)));
        if self.lines.len() > LOG_FEED_CAP {
            self.lines.pop_front();
            assert(self@ == before.push(log_line(*log)).skip(1));
        }
    }

    /// Takes in log events. The feed keeps the last lines of all that it saw.
    pub fn collect_bevy_logs(&mut self, logs: &Vec<CapturedLog>)
        requires
            old(self).valid(),
        ensures
            final(self)@ == crate::text::last_of(
                old(self)@ + log_lines(logs@),
                LOG_FEED_CAP as int,
            ),
            final(self).valid(),
    {
        let ghost start = self@;
        let ghost all = log_lines(logs@);
        let mut i: usize = 0;
        assert(start + all.take(0) == start);
        while i < logs.len()
            invariant
                i <= logs.len(),
                all == log_lines(logs@),
                self.valid(),
                self@ == crate::text::last_of(start + all.take(i as int), LOG_FEED_CAP as int),
            decreases logs.len() - i,
        {
            self.push(&logs[i]);
            proof {
                law_feed_forgets_only_the_oldest(
                    start + all.take(i as int),
                    seq![all[i as int]],
                    LOG_FEED_CAP as int,
                );
                assert(crate::text::last_of(start + all.take(i as int), LOG_FEED_CAP as int).push(
                    all[i as int],
                ) == crate::text::last_of(start + all.take(i as int), LOG_FEED_CAP as int) + seq![
                    all[i as int],
                ]);
                assert(start + all.take(i as int) + seq![all[i as int]] == start + all.take(i + 1));
            }
            i = i + 1;
        }
        assert(all.take(all.len() as int) == all);
    }

    /// The text that shows the last lines of the feed.
    pub fn backdrop_text(&self) -> (r: String)
        ensures
            r@ == crate::text::joined(
                crate::text::last_of(self@, LOG_FEED_VISIBLE as int),
                "\n"@,
            ),
    {
        let n = self.lines.len();
        let from: usize = if n > LOG_FEED_VISIBLE {
            n - LOG_FEED_VISIBLE
        } else {
            0
        };
        let mut tail: Vec<&str> = Vec::new();
        let mut i: usize = from;
        while i < n
            invariant
                n == self.lines.len(),
                from <= i <= n,
                crate::text::texts(tail@) == self@.subrange(from as int, i as int),
            decreases n - i,
        {
            let ghost before = crate::text::texts(tail@);
            let line: &String = &self.lines[i];
            tail.push(line.as_str());
            assert(line@ == self@[i as int]);
            assert(crate::text::texts(tail@) == before.push(line@));
            assert(crate::text::texts(tail@) == self@.subrange(from as int, i + 1));
            i = i + 1;
        }
        assert(crate::text::texts(tail@) == crate::text::last_of(self@, LOG_FEED_VISIBLE as int));
        join(&tail, "\n")
    }
}

// ---------------------------------------------------------------------------
// Laws
// ---------------------------------------------------------------------------

/// Dropping the oldest entries early loses nothing that would be kept: the
/// last entries of what was kept and what came are the last entries of all.
pub proof fn law_feed_forgets_only_the_oldest(
    seen: Seq<Seq<char>>,
    more: Seq<Seq<char>>,
    cap: int,
)
    requires
        cap >= 0,
    ensures
        crate::text::last_of(crate::text::last_of(seen, cap) + more, cap) == crate::text::last_of(
            seen + more,
            cap,
        ),
{
    assert(crate::text::last_of(crate::text::last_of(seen, cap) + more, cap)
        =~= crate::text::last_of(seen + more, cap));
}

/// Taking in logs in two batches is the same as taking them in at once.
pub proof fn law_batches_do_not_matter(
    feed: Seq<Seq<char>>,
    first: Seq<CapturedLog>,
    second: Seq<CapturedLog>,
)
    ensures
        crate::text::last_of(
            crate::text::last_of(feed + log_lines(first), LOG_FEED_CAP as int) + log_lines(second),
            LOG_FEED_CAP as int,
        ) == crate::text::last_of(feed + log_lines(first + second), LOG_FEED_CAP as int),
{
    law_feed_forgets_only_the_oldest(
        feed + log_lines(first),
        log_lines(second),
        LOG_FEED_CAP as int,
    );
    assert(feed + log_lines(first) + log_lines(second) == feed + log_lines(first + second));
}

/// The line of an event starts with its level in brackets and its target, and
/// ends with a colon, a blank and its whole message. There is nothing else.
pub proof fn law_a_line_holds_the_whole_event(log: CapturedLog)
    ensures
        ({
            let head = "["@ + log.level.text() + "] "@ + log.target@;
            let tail = ": "@ + log.message@;
            &&& log_line(log).len() == head.len() + tail.len()
            &&& log_line(log).take(head.len() as int) == head
            &&& log_line(log).skip(head.len() as int) == tail
        }),
{
    let head = "["@ + log.level.text() + "] "@ + log.target@;
    let tail = ": "@ + log.message@;
    assert(log_line(log) == head + tail);
}

/// Of two events of one level and target, those with different messages have
/// different lines; and so, of two events of one level and message, do those
/// with different targets.
pub proof fn law_lines_tell_events_apart(a: CapturedLog, b: CapturedLog)
    requires
        a.level == b.level,
        log_line(a) == log_line(b),
    ensures
        a.target@ == b.target@ ==> a.message@ == b.message@,
        a.message@ == b.message@ ==> a.target@ == b.target@,
{
    let front = "["@ + a.level.text() + "] "@;
    law_a_line_holds_the_whole_event(a);
    law_a_line_holds_the_whole_event(b);
    if a.target@ == b.target@ {
        let tail_a = ": "@ + a.message@;
        let tail_b = ": "@ + b.message@;
        assert(tail_a == tail_b);
        assert(tail_a.skip(": "@.len() as int) == a.message@);
        assert(tail_b.skip(": "@.len() as int) == b.message@);
    }
    if a.message@ == b.message@ {
        let head_a = front + a.target@;
        let head_b = front + b.target@;
        assert(head_a.len() == head_b.len());
        assert(head_a == head_b);
        assert(head_a.skip(front.len() as int) == a.target@);
        assert(head_b.skip(front.len() as int) == b.target@);
    }
}

/// Every level has a word of its own.
pub proof fn law_levels_have_words_of_their_own(a: LogLevel, b: LogLevel)
    requires
        a != b,
    ensures
        a.text() != b.text(),
        a.text().len() > 0,
{
    reveal_strlit("TRACE");
    reveal_strlit("DEBUG");
    reveal_strlit("INFO");
    reveal_strlit("WARN");
    reveal_strlit("ERROR");
    assert(a.text()[0] != b.text()[0]);
}

/// Every event has its line, in the order of the events.
pub proof fn law_every_event_has_its_line(
    first: Seq<CapturedLog>,
    log: CapturedLog,
    second: Seq<CapturedLog>,
)
    ensures
        log_lines(first + seq![log] + second) == log_lines(first) + seq![log_line(log)] + log_lines(
            second,
        ),
        log_lines(Seq::empty()) == Seq::<Seq<char>>::empty(),
{
    assert(log_lines(first + seq![log] + second) =~= log_lines(first) + seq![log_line(log)]
        + log_lines(second));
    assert(log_lines(Seq::empty()) =~= Seq::<Seq<char>>::empty());
}

/// The line that `line` gives holds the level, the target and the whole
/// message, and nothing is lost of any of them.
pub proof fn law_line_gives_the_whole_event(log: CapturedLog, r: String)
    requires
        call_ensures(CapturedLog::line, (&log,), r),
    ensures
        r@ == "["@ + log.level.text() + "] "@ + log.target@ + ": "@ + log.message@,
{
    law_a_line_holds_the_whole_event(log);
    let head = "["@ + log.level.text() + "] "@ + log.target@;
    assert(r@ == r@.take(head.len() as int) + r@.skip(head.len() as int));
    assert(head + (": "@ + log.message@) == head + ": "@ + log.message@);
}

/// After events were taken in, the feed holds as many lines as there were and
/// came, up to its limit; the newest are at its end, each in its place, and
/// those before them are the newest of what it held.
pub proof fn law_collecting_keeps_the_newest(feed: &mut BevyLogFeed, logs: Vec<CapturedLog>, i: int)
    requires
        call_ensures(BevyLogFeed::collect_bevy_logs, (feed, &logs), ()),
        0 <= i < final(feed)@.len(),
    ensures
        ({
            let before = old(feed)@;
            let after = final(feed)@;
            let came = logs@.len();
            &&& after.len() == (if before.len() + came < 300 {
                before.len() + came
            } else {
                300
            })
            &&& i < came ==> after[after.len() - 1 - i] == log_line(logs@[came - 1 - i])
            &&& i >= came ==> after[after.len() - 1 - i] == before[before.len() - 1 - (i - came)]
        }),
{
    crate::text::law_the_last_are_the_end(old(feed)@ + log_lines(logs@), 300);
    assert forall|k: int| 0 <= k < logs@.len() implies log_lines(logs@)[k] == log_line(
        #[trigger] logs@[k],
    ) by {
        let first = logs@.take(k);
        let second = logs@.skip(k + 1);
        law_every_event_has_its_line(first, logs@[k], second);
        assert(first + seq![logs@[k]] + second == logs@);
        lemma_as_many_lines(first);
        assert(log_lines(logs@)[k] == (log_lines(first) + seq![log_line(logs@[k])] + log_lines(
            second,
        ))[k]);
    }
    lemma_as_many_lines(logs@);
}

/// There are as many lines as events.
proof fn lemma_as_many_lines(logs: Seq<CapturedLog>)
    ensures
        log_lines(logs).len() == logs.len(),
{
}

/// The backdrop shows the newest lines of the feed, oldest of them first, a
/// line break between neighbours: all of them, up to its limit.
pub proof fn law_the_backdrop_shows_the_newest(feed: BevyLogFeed, r: String)
    requires
        call_ensures(BevyLogFeed::backdrop_text, (&feed,), r),
    ensures
        feed@.len() <= 24 ==> r@ == crate::text::joined(feed@, "\n"@),
        feed@.len() > 24 ==> r@ == crate::text::joined(feed@.skip(feed@.len() - 24), "\n"@),
{
    crate::text::law_the_last_are_the_end(feed@, 24);
    if feed@.len() <= 24 {
        assert(feed@.skip(0) == feed@);
    }
}

/// A visitor ends with the last message that it was given; no other field
/// leaves a trace.
pub proof fn law_only_the_message_is_recorded(
    visitor: &mut MessageVisitor,
    field: &str,
    rendered: String,
)
    requires
        call_ensures(MessageVisitor::record_debug, (visitor, field, rendered), ()),
    ensures
        field@ == "message"@ ==> final(visitor).0@ == rendered@,
        field@ != "message"@ ==> final(visitor).0@ == old(visitor).0@,
{
}

} // verus!
