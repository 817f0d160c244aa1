//! The central logger: output from every thread is collected here, buffered per origin, and
//! written line by line, one origin at a time.

use vstd::prelude::*;
use crate::identifier::TaskId;
use crate::logging::{no_origin, origin_debug, Origin, OriginKey};
use crate::text::{blank, is_blank, split_on, split_str, lemma_split_on_nonempty, views};

verus! {

/// A command sent to the central logger.
pub enum LoggingCommand {
    LogString(Origin, String),
    TaskStarted(TaskId),
    TaskEnded(TaskId),
    TaskStatus(TaskId, String),
    StartMultiProgress,
    EndMultiProgress,
    Flush,
    Stop,
}

/// Texts kept per origin, as a map from the origins' keys.
pub open spec fn to_map(entries: Seq<(Origin, String)>) -> Map<OriginKey, Seq<char>>
    decreases entries.len(),
{
    if entries.len() == 0 {
        Map::empty()
    } else {
        to_map(entries.drop_last()).insert(entries.last().0@, entries.last().1@)
    }
}

/// No origin has two entries.
pub open spec fn keys_unique(entries: Seq<(Origin, String)>) -> bool {
    forall|i: int, j: int|
        0 <= i < entries.len() && 0 <= j < entries.len() && #[trigger] entries[i].0@ == #[trigger] entries[j].0@
            ==> i == j
}

/// The text kept for `key`, or nothing.
pub open spec fn text_of(m: Map<OriginKey, Seq<char>>, key: OriginKey) -> Seq<char> {
    if m.contains_key(key) {
        m[key]
    } else {
        Seq::<char>::empty()
    }
}

proof fn lemma_to_map_contains(entries: Seq<(Origin, String)>, key: OriginKey)
    ensures
        to_map(entries).contains_key(key) <==> exists|i: int| 0 <= i < entries.len() && #[trigger] entries[i].0@ == key,
    decreases entries.len(),
{
    if entries.len() > 0 {
        let prev = entries.drop_last();
        lemma_to_map_contains(prev, key);
        if to_map(entries).contains_key(key) {
            if entries.last().0@ != key {
                let i = choose|i: int| 0 <= i < prev.len() && #[trigger] prev[i].0@ == key;
                assert(entries[i].0@ == key);
            } else {
                assert(entries[entries.len() - 1].0@ == key);
            }
        } else {
            assert forall|i: int| 0 <= i < entries.len() implies #[trigger] entries[i].0@ != key by {
                if i < entries.len() - 1 {
                    assert(prev[i] == entries[i]);
                }
            }
        }
    }
}

proof fn lemma_to_map_value(entries: Seq<(Origin, String)>, i: int)
    requires
        keys_unique(entries),
        0 <= i < entries.len(),
    ensures
        to_map(entries).contains_key(entries[i].0@),
        to_map(entries)[entries[i].0@] == entries[i].1@,
    decreases entries.len(),
{
    let prev = entries.drop_last();
    if i < entries.len() - 1 {
        assert(prev[i] == entries[i]);
        assert(keys_unique(prev)) by {
            assert forall|a: int, b: int|
                0 <= a < prev.len() && 0 <= b < prev.len() && #[trigger] prev[a].0@ == #[trigger] prev[b].0@
                implies a == b by {
                assert(prev[a] == entries[a]);
                assert(prev[b] == entries[b]);
            }
        }
        lemma_to_map_value(prev, i);
        assert(entries[entries.len() - 1].0@ != entries[i].0@);
    }
}

proof fn lemma_to_map_update(entries: Seq<(Origin, String)>, i: int, text: String)
    requires
        keys_unique(entries),
        0 <= i < entries.len(),
    ensures
        keys_unique(entries.update(i, (entries[i].0, text))),
        to_map(entries.update(i, (entries[i].0, text))) == to_map(entries).insert(entries[i].0@, text@),
    decreases entries.len(),
{
    let updated = entries.update(i, (entries[i].0, text));
    assert(keys_unique(updated)) by {
        assert forall|a: int, b: int|
            0 <= a < updated.len() && 0 <= b < updated.len() && #[trigger] updated[a].0@ == #[trigger] updated[b].0@
            implies a == b by {
            assert(updated[a].0 == entries[a].0);
            assert(updated[b].0 == entries[b].0);
        }
    }
    let prev = entries.drop_last();
    let key = entries[i].0@;
    if i == entries.len() - 1 {
        assert(updated.drop_last() =~= prev);
        assert(to_map(updated) =~= to_map(entries).insert(key, text@));
    } else {
        assert(keys_unique(prev)) by {
            assert forall|a: int, b: int|
                0 <= a < prev.len() && 0 <= b < prev.len() && #[trigger] prev[a].0@ == #[trigger] prev[b].0@
                implies a == b by {
                assert(prev[a] == entries[a]);
                assert(prev[b] == entries[b]);
            }
        }
        assert(prev[i] == entries[i]);
        lemma_to_map_update(prev, i, text);
        assert(updated.drop_last() =~= prev.update(i, (prev[i].0, text)));
        assert(updated.last() == entries.last());
        assert(entries[entries.len() - 1].0@ != key);
        assert(to_map(updated) =~= to_map(entries).insert(key, text@));
    }
}

proof fn lemma_push_unique(entries: Seq<(Origin, String)>, o: Origin, text: String)
    requires
        keys_unique(entries),
        !to_map(entries).contains_key(o@),
    ensures
        keys_unique(entries.push((o, text))),
        to_map(entries.push((o, text))) == to_map(entries).insert(o@, text@),
{
    lemma_to_map_contains(entries, o@);
    let pushed = entries.push((o, text));
    assert(pushed.drop_last() =~= entries);
    assert forall|a: int, b: int|
        0 <= a < pushed.len() && 0 <= b < pushed.len() && #[trigger] pushed[a].0@ == #[trigger] pushed[b].0@
        implies a == b by {
        if a < entries.len() {
            assert(pushed[a] == entries[a]);
        }
        if b < entries.len() {
            assert(pushed[b] == entries[b]);
        }
    }
}

/// The index of the entry of `o`, if there is one.
fn find(entries: &Vec<(Origin, String)>, o: &Origin) -> (r: Option<usize>)
    ensures
        r matches Some(i) ==> i < entries@.len() && entries@[i as int].0@ == o@,
        r is None ==> !to_map(entries@).contains_key(o@),
{
    let mut i: usize = 0;
    while i < entries.len()
        invariant
            i <= entries@.len(),
            forall|k: int| 0 <= k < i ==> #[trigger] entries@[k].0@ != o@,
        decreases entries@.len() - i,
    {
        if entries[i].0.same(o) {
            return Some(i);
        }
        i = i + 1;
    }
    proof {
        lemma_to_map_contains(entries@, o@);
    }
    None
}

/// The index of the entry of `o`, adding an empty entry when there is none.
fn entry_or_default(entries: &mut Vec<(Origin, String)>, o: &Origin) -> (r: usize)
    requires
        keys_unique(old(entries)@),
    ensures
        keys_unique(final(entries)@),
        r < final(entries)@.len(),
        final(entries)@[r as int].0@ == o@,
        to_map(final(entries)@) == to_map(old(entries)@).insert(o@, text_of(to_map(old(entries)@), o@)),
{
    match find(entries, o) {
        Some(i) => {
            proof {
                lemma_to_map_value(entries@, i as int);
                assert(to_map(entries@).insert(o@, text_of(to_map(entries@), o@)) =~= to_map(entries@));
            }
            i
        },
        None => {
            let n = entries.len();
            let ghost before = entries@;
            entries.push((o.clone(), String::new()));
            proof {
                lemma_push_unique(before, entries@[n as int].0, entries@[n as int].1);
                assert(entries@ =~= before.push((entries@[n as int].0, entries@[n as int].1)));
            }
            n
        },
    }
}

/// Replaces the text of entry `i`.
fn set_text(entries: &mut Vec<(Origin, String)>, i: usize, text: String)
    requires
        keys_unique(old(entries)@),
        i < old(entries)@.len(),
    ensures
        keys_unique(final(entries)@),
        final(entries)@.len() == old(entries)@.len(),
        final(entries)@[i as int].0 == old(entries)@[i as int].0,
        to_map(final(entries)@) == to_map(old(entries)@).insert(old(entries)@[i as int].0@, text@),
{
    proof {
        lemma_to_map_update(entries@, i as int, text);
    }
    let (origin, _) = entries.remove(i);
    entries.insert(i, (origin, text));
    assert(entries@ =~= old(entries)@.update(i as int, (old(entries)@[i as int].0, text)));
}

/// The lines that are printed, and the saved text after, when `lines` are written for an
/// origin whose saved text is `saved`: a line is skipped when it and the saved text are both
/// blank; a printed line is appended to the saved text.
pub open spec fn emit(saved: Seq<char>, lines: Seq<Seq<char>>) -> (Seq<Seq<char>>, Seq<char>)
    decreases lines.len(),
{
    if lines.len() == 0 {
        (Seq::<Seq<char>>::empty(), saved)
    } else {
        let (printed, s) = emit(saved, lines.drop_last());
        let line = lines.last();
        if is_blank(s) && is_blank(line) {
            (printed, s)
        } else {
            (printed.push(line), s + line)
        }
    }
}

/// The state of the central logger: saved text per origin, buffered text per origin, the
/// queue of origins waiting to be written, the origin written last, whether the time of a
/// query has been noted, and whether a progress bar is shown.
pub type LoggerView = (
    Map<OriginKey, Seq<char>>,
    Map<OriginKey, Seq<char>>,
    Seq<OriginKey>,
    Option<OriginKey>,
    bool,
    bool,
);

/// The queue after output from `o` arrives: an empty queue holds `o`; `o` at the front leaves
/// it unchanged; else `o` joins the back, and the front leaves first when it has been at the
/// front long enough (`elapsed`).
pub open spec fn next_queue(q: Seq<OriginKey>, o: OriginKey, elapsed: bool) -> Seq<OriginKey> {
    if q.len() == 0 {
        seq![o]
    } else if q[0] == o {
        q
    } else if elapsed {
        q.drop_first().push(o)
    } else {
        q.push(o)
    }
}

/// The state after `msg` arrives from `o`.
pub open spec fn add_model(m: LoggerView, o: OriginKey, msg: Seq<char>, elapsed: bool) -> LoggerView {
    (
        m.0,
        m.1.insert(o, text_of(m.1, o) + msg),
        next_queue(m.2, o, elapsed),
        m.3,
        if m.2.len() > 0 { true } else { m.4 },
        m.5,
    )
}

/// The origin at the front of the queue, or none.
pub open spec fn current(m: LoggerView) -> OriginKey {
    if m.2.len() > 0 {
        m.2[0]
    } else {
        no_origin()
    }
}

/// The status line owed before the lines of the current origin: one when the origin changed
/// and is a project or a task.
pub open spec fn status_of(m: LoggerView) -> Option<OriginKey> {
    let o = current(m);
    if m.3 != Some(o) && o.0 != 2 {
        Some(o)
    } else {
        None
    }
}

/// The state after the complete lines of the current origin are written.
pub open spec fn flush_current_model(m: LoggerView) -> LoggerView {
    let o = current(m);
    let saved = text_of(m.0, o);
    if m.1.contains_key(o) {
        let pieces = split_on(m.1[o], '\n');
        let tail = pieces.last();
        (
            m.0.insert(o, emit(saved, pieces.drop_last()).1),
            m.1.insert(o, tail),
            if is_blank(tail) && m.2.len() > 0 { m.2.drop_first() } else { m.2 },
            Some(o),
            true,
            m.5,
        )
    } else {
        (m.0.insert(o, saved), m.1, m.2, Some(o), true, m.5)
    }
}

/// The lines written when the complete lines of the current origin are written.
pub open spec fn flush_current_lines(m: LoggerView) -> Seq<Seq<char>> {
    let o = current(m);
    if m.1.contains_key(o) {
        emit(text_of(m.0, o), split_on(m.1[o], '\n').drop_last()).0
    } else {
        Seq::<Seq<char>>::empty()
    }
}

/// A status line is owed exactly when the origin at the front of the queue is a project or a
/// task and differs from the origin written last: then it names that origin; with no origin,
/// or with the same origin as before, none is owed.
pub proof fn status_for_new_origin(m: LoggerView, o: OriginKey)
    ensures
        m.2.len() > 0 && m.2[0] == o && (o.0 == 0 || o.0 == 1) && m.3 != Some(o) ==> status_of(m) == Some(o),
        m.2.len() > 0 && m.2[0] == o && m.3 == Some(o) ==> status_of(m) is None,
        m.2.len() == 0 ==> status_of(m) is None,
        m.2.len() > 0 && m.2[0].0 == 2 ==> status_of(m) is None,
{
}

/// A status line is written only when the origin changes: writing the same origin's lines
/// again, with no new origin at the front of the queue, writes no second status line.
pub proof fn status_only_on_change(m: LoggerView)
    requires
        current(flush_current_model(m)) == current(m),
    ensures
        status_of(flush_current_model(m)) is None,
{
}

/// The lines written, and the buffers after, when the origins of `q` are flushed in order:
/// each origin with a buffer writes `Origin: text` and empties its buffer.
pub open spec fn flush_fold(q: Seq<OriginKey>, buffers: Map<OriginKey, Seq<char>>) -> (Seq<Seq<char>>, Map<OriginKey, Seq<char>>)
    decreases q.len(),
{
    if q.len() == 0 {
        (Seq::<Seq<char>>::empty(), buffers)
    } else {
        let (lines, b) = flush_fold(q.drop_last(), buffers);
        let o = q.last();
        if b.contains_key(o) {
            (lines.push(origin_debug(o) + seq![':', ' '] + b[o]), b.insert(o, Seq::<char>::empty()))
        } else {
            (lines, b)
        }
    }
}

/// The state after everything queued is flushed.
pub open spec fn flush_model(m: LoggerView) -> LoggerView {
    (m.0, flush_fold(m.2, m.1).1, Seq::<OriginKey>::empty(), m.3, m.4, m.5)
}

/// What the central logger writes after one step: a status line for an origin, then lines.
pub struct Written {
    pub status: Option<Origin>,
    pub lines: Vec<String>,
}

/// What the central logger does for one command: what it writes, and whether it stops.
pub struct CommandOutcome {
    pub status: Option<Origin>,
    pub lines: Vec<String>,
    pub stop: bool,
}

#[derive(Debug)]
pub struct CentralLoggerOutput {
    saved_output: Vec<(Origin, String)>,
    origin_buffers: Vec<(Origin, String)>,
    origin_queue: Vec<Origin>,
    previous: Option<Origin>,
    queried: bool,
    progress_bar: bool,
}

/// The keys of a sequence of origins.
pub open spec fn keys(q: Seq<Origin>) -> Seq<OriginKey> {
    q.map_values(|o: Origin| o@)
}

impl CentralLoggerOutput {
    /// The state of the logger.
    pub closed spec fn model(self) -> LoggerView {
        (
            to_map(self.saved_output@),
            to_map(self.origin_buffers@),
            keys(self.origin_queue@),
            match self.previous {
                Some(p) => Some(p@),
                None => None,
            },
            self.queried,
            self.progress_bar,
        )
    }

    /// The logger's tables have one entry per origin.
    pub closed spec fn wf(self) -> bool {
        keys_unique(self.saved_output@) && keys_unique(self.origin_buffers@)
    }

    pub fn new() -> (r: Self)
        ensures
            r.wf(),
            r.model() == (
                Map::<OriginKey, Seq<char>>::empty(),
                Map::<OriginKey, Seq<char>>::empty(),
                Seq::<OriginKey>::empty(),
                None::<OriginKey>,
                false,
                false,
            ),
    {
        let r = Self {
            saved_output: Vec::new(),
            origin_buffers: Vec::new(),
            origin_queue: Vec::new(),
            previous: None,
            queried: false,
            progress_bar: false,
        };
        assert(keys(r.origin_queue@) =~= Seq::<OriginKey>::empty());
        r
    }

    /// Adds `msg` to the buffer of `origin`, and queues `origin`. `elapsed` tells whether the
    /// origin at the front of the queue was queried long enough ago to give way.
    ///
    /// The time of the last query must have been noted when another origin is at the front.
    pub fn add_output(&mut self, origin: Origin, msg: &str, elapsed: bool)
        requires
            old(self).wf(),
            old(self).model().2.len() > 0 && old(self).model().2[0] != origin@ ==> old(self).model().4,
        ensures
            final(self).wf(),
            final(self).model() == add_model(old(self).model(), origin@, msg@, elapsed),
    {
        let ghost m = self.model();
        let i = entry_or_default(&mut self.origin_buffers, &origin);
        let mut text = self.origin_buffers[i].1.clone();
        text.append(msg);
        proof {
            lemma_to_map_value(self.origin_buffers@, i as int);
        }
        set_text(&mut self.origin_buffers, i, text);
        assert(to_map(self.origin_buffers@) =~= m.1.insert(origin@, text_of(m.1, origin@) + msg@));
        let ghost q = self.origin_queue@;
        if self.origin_queue.len() > 0 {
            if !self.origin_queue[0].same(&origin) {
                if elapsed {
                    self.origin_queue.remove(0);
                }
                self.origin_queue.push(origin);
            }
            self.queried = true;
        } else {
            self.origin_queue.push(origin);
        }
        proof {
            if q.len() > 0 {
                assert(keys(q)[0] == q[0]@);
            }
            assert(keys(self.origin_queue@) =~= next_queue(keys(q), origin@, elapsed));
        }
    }

    /// Writes the complete lines buffered for the origin at the front of the queue, preceded by
    /// a status line when the origin differs from the one written last. The buffer is cut into
    /// lines at each `\n` by character position, so text that is not ASCII is cut at the same
    /// characters as ASCII text would be.
    pub fn flush_current_origin(&mut self) -> (r: Written)
        requires
            old(self).wf(),
        ensures
            final(self).wf(),
            final(self).model() == flush_current_model(old(self).model()),
            match r.status {
                Some(o) => status_of(old(self).model()) == Some(o@),
                None => status_of(old(self).model()) is None,
            },
            views(r.lines@) == flush_current_lines(old(self).model()),
    {
        let ghost m = self.model();
        self.queried = true;
        let origin = if self.origin_queue.len() > 0 {
            self.origin_queue[0].clone()
        } else {
            Origin::NoOrigin
        };
        proof {
            if m.2.len() > 0 {
                assert(keys(self.origin_queue@)[0] == self.origin_queue@[0]@);
            }
        }
        assert(origin@ == current(m));
        let changed = match &self.previous {
            Some(p) => !p.same(&origin),
            None => true,
        };
        let status = if changed && !origin.is_none() {
            Some(origin.clone())
        } else {
            None
        };
        self.previous = Some(origin.clone());
        let si = entry_or_default(&mut self.saved_output, &origin);
        proof {
            lemma_to_map_value(self.saved_output@, si as int);
        }
        let mut lines: Vec<String> = Vec::new();
        match find(&self.origin_buffers, &origin) {
            Some(bi) => {
                proof {
                    lemma_to_map_value(self.origin_buffers@, bi as int);
                }
                let buffer = self.origin_buffers[bi].1.clone();
                let pieces = split_str(buffer.as_str(), '\n');
                proof {
                    lemma_split_on_nonempty(buffer@, '\n');
                }
                let ghost all = views(pieces@);
                let n = pieces.len();
                let mut saved = self.saved_output[si].1.clone();
                let ghost start = saved@;
                let mut k: usize = 0;
                assert(all.drop_last().take(0) =~= Seq::<Seq<char>>::empty());
                while k + 1 < n
                    invariant
                        all == views(pieces@),
                        n == pieces@.len(),
                        n >= 1,
                        k + 1 <= n,
                        (views(lines@), saved@) == emit(start, all.drop_last().take(k as int)),
                    decreases n - k,
                {
                    let line = pieces[k].clone();
                    assert(all.drop_last().take(k + 1).drop_last() =~= all.drop_last().take(k as int));
                    assert(all.drop_last().take(k + 1).last() == line@);
                    if !(blank(saved.as_str()) && blank(line.as_str())) {
                        let ghost before = lines@;
                        lines.push(line.clone());
                        assert(views(lines@) =~= views(before).push(line@));
                        saved.append(line.as_str());
                    }
                    k = k + 1;
                }
                assert(all.drop_last().take(k as int) =~= all.drop_last());
                set_text(&mut self.saved_output, si, saved);
                let tail = pieces[n - 1].clone();
                assert(tail@ == all.last());
                let tail_blank = blank(tail.as_str());
                set_text(&mut self.origin_buffers, bi, tail);
                let ghost q = self.origin_queue@;
                if tail_blank && self.origin_queue.len() > 0 {
                    self.origin_queue.remove(0);
                    assert(keys(self.origin_queue@) =~= keys(q).drop_first());
                }
            },
            None => {},
        }
        assert(self.model() =~~= flush_current_model(m));
        Written { status, lines }
    }

    /// Writes everything that is queued, `Origin: text` for each queued origin that has a
    /// buffer, and empties those buffers and the queue.
    pub fn flush(&mut self) -> (r: Vec<String>)
        requires
            old(self).wf(),
        ensures
            final(self).wf(),
            final(self).model() == flush_model(old(self).model()),
            views(r@) == flush_fold(old(self).model().2, old(self).model().1).0,
    {
        let ghost m = self.model();
        let ghost q = keys(self.origin_queue@);
        let mut out: Vec<String> = Vec::new();
        let mut i: usize = 0;
        assert(q.take(0) =~= Seq::<OriginKey>::empty());
        while i < self.origin_queue.len()
            invariant
                q == keys(self.origin_queue@),
                i <= self.origin_queue@.len(),
                keys_unique(self.origin_buffers@),
                keys_unique(self.saved_output@),
                to_map(self.saved_output@) == m.0,
                self.model().3 == m.3,
                self.model().4 == m.4,
                self.model().5 == m.5,
                (views(out@), to_map(self.origin_buffers@)) == flush_fold(q.take(i as int), m.1),
            decreases self.origin_queue@.len() - i,
        {
            let origin = self.origin_queue[i].clone();
            assert(q.take(i + 1).drop_last() =~= q.take(i as int));
            assert(q.take(i + 1).last() == origin@);
            match find(&self.origin_buffers, &origin) {
                Some(bi) => {
                    proof {
                        lemma_to_map_value(self.origin_buffers@, bi as int);
                    }
                    let mut line = origin.debug_text();
                    line.append(": ");
                    line.append(self.origin_buffers[bi].1.as_str());
                    proof {
                        reveal_strlit(": ");
                    }
                    assert(line@ =~= origin_debug(origin@) + seq![':', ' '] + to_map(self.origin_buffers@)[origin@]);
                    let ghost before = out@;
                    out.push(line);
                    assert(views(out@) =~= views(before).push(out@.last()@));
                    set_text(&mut self.origin_buffers, bi, String::new());
                },
                None => {},
            }
            i = i + 1;
        }
        assert(q.take(i as int) =~= q);
        self.origin_queue = Vec::new();
        assert(keys(self.origin_queue@) =~= Seq::<OriginKey>::empty());
        out
    }

    /// Notes that a progress bar is shown.
    pub fn start_progress_bar(&mut self)
        requires
            old(self).wf(),
        ensures
            final(self).wf(),
            final(self).model() == (old(self).model().0, old(self).model().1, old(self).model().2,
                old(self).model().3, old(self).model().4, true),
    {
        self.progress_bar = true;
    }

    /// Ends a progress bar if it exists; tells whether one did.
    pub fn end_progress_bar(&mut self) -> (r: bool)
        requires
            old(self).wf(),
        ensures
            final(self).wf(),
            r == old(self).model().5,
            final(self).model() == (old(self).model().0, old(self).model().1, old(self).model().2,
                old(self).model().3, old(self).model().4, false),
    {
        let had = self.progress_bar;
        self.progress_bar = false;
        had
    }

    /// Handles one command, as the central logger's loop does: output is buffered and the
    /// current origin flushed; a started task is announced when the console is not rich;
    /// `Flush` writes everything; `Stop` stops the loop. `elapsed` tells whether the front of
    /// the queue was queried long enough ago to give way.
    pub fn handle_command(&mut self, command: LoggingCommand, rich: bool, elapsed: bool) -> (r: CommandOutcome)
        requires
            old(self).wf(),
            old(self).model().4 || old(self).model().2.len() == 0,
        ensures
            final(self).wf(),
            final(self).model().4 || final(self).model().2.len() == 0,
            r.stop == (command is Stop),
            match command {
                LoggingCommand::LogString(o, s) => {
                    let added = add_model(old(self).model(), o@, s@, elapsed);
                    &&& final(self).model() == flush_current_model(added)
                    &&& views(r.lines@) == flush_current_lines(added)
                    &&& (match r.status {
                        Some(x) => status_of(added) == Some(x@),
                        None => status_of(added) is None,
                    })
                },
                LoggingCommand::TaskStarted(t) => if rich {
                    final(self).model() == old(self).model() && r.lines@.len() == 0 && r.status is None
                } else {
                    let added = add_model(old(self).model(), (1int, t@), Seq::<char>::empty(), elapsed);
                    &&& final(self).model() == flush_current_model(added)
                    &&& views(r.lines@) == flush_current_lines(added)
                    &&& (match r.status {
                        Some(x) => status_of(added) == Some(x@),
                        None => status_of(added) is None,
                    })
                },
                LoggingCommand::Flush => {
                    &&& final(self).model() == flush_model(old(self).model())
                    &&& views(r.lines@) == flush_fold(old(self).model().2, old(self).model().1).0
                    &&& r.status is None
                },
                LoggingCommand::StartMultiProgress => {
                    &&& final(self).model() == (old(self).model().0, old(self).model().1, old(self).model().2,
                        old(self).model().3, old(self).model().4, true)
                    &&& r.lines@.len() == 0 && r.status is None
                },
                LoggingCommand::EndMultiProgress => {
                    &&& final(self).model() == (old(self).model().0, old(self).model().1, old(self).model().2,
                        old(self).model().3, old(self).model().4, false)
                    &&& r.lines@.len() == 0 && r.status is None
                },
                _ => final(self).model() == old(self).model() && r.lines@.len() == 0 && r.status is None,
            },
    {
        match command {
            LoggingCommand::LogString(o, s) => {
                self.add_output(o, s.as_str(), elapsed);
                let w = self.flush_current_origin();
                CommandOutcome { status: w.status, lines: w.lines, stop: false }
            },
            LoggingCommand::Flush => {
                let lines = self.flush();
                CommandOutcome { status: None, lines, stop: false }
            },
            LoggingCommand::Stop => CommandOutcome { status: None, lines: Vec::new(), stop: true },
            LoggingCommand::TaskStarted(t) => {
                if !rich {
                    let empty = "";
                    proof {
                        reveal_strlit("");
                        assert(empty@ =~= Seq::<char>::empty());
                    }
                    self.add_output(Origin::Task(t), empty, elapsed);
                    let w = self.flush_current_origin();
                    CommandOutcome { status: w.status, lines: w.lines, stop: false }
                } else {
                    CommandOutcome { status: None, lines: Vec::new(), stop: false }
                }
            },
            LoggingCommand::StartMultiProgress => {
                self.start_progress_bar();
                CommandOutcome { status: None, lines: Vec::new(), stop: false }
            },
            LoggingCommand::EndMultiProgress => {
                self.end_progress_bar();
                CommandOutcome { status: None, lines: Vec::new(), stop: false }
            },
            _ => CommandOutcome { status: None, lines: Vec::new(), stop: false },
        }
    }
}

} // verus!
