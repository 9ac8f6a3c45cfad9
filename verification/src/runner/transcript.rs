//! The transcript of one command invocation: a header block, the stdout
//! lines, and — only if any stderr arrives — one `=== STDERR ===` marker
//! followed by the stderr lines. Both stream pumps feed one transcript;
//! the laws at the end hold for every interleaving of the two streams.

use vstd::prelude::*;
use vstd::string::StringExecFns;

use crate::strutil::str_concat;

use super::timestamp::Timestamp;
use super::timestamp::rfc3339_spec;
use super::timestamp::ts_valid;

verus! {

/// One line of child output, by source stream.
pub enum StreamEvent {
    Stdout(Seq<char>),
    Stderr(Seq<char>),
}

/// The line an event carries.
pub open spec fn event_line(ev: StreamEvent) -> Seq<char> {
    match ev {
        StreamEvent::Stdout(l) => l,
        StreamEvent::Stderr(l) => l,
    }
}

/// The mathematical value of a transcript: the prefix its lines carry, the
/// lines written so far, and whether stderr has been seen.
#[verifier::ext_equal]
pub struct TranscriptView {
    pub prefix: Seq<char>,
    pub lines: Seq<Seq<char>>,
    pub stderr_seen: bool,
}

/// A line of child output as the console and the transcript show it:
/// prefixed with the repository's name.
pub open spec fn rendered_line(prefix: Seq<char>, line: Seq<char>) -> Seq<char> {
    prefix + " | "@ + line
}

/// The heading that opens the stdout section.
pub open spec fn stdout_heading() -> Seq<char> {
    "=== STDOUT ==="@
}

/// The one-time marker that opens the stderr section.
pub open spec fn stderr_marker() -> Seq<char> {
    "=== STDERR ==="@
}

/// The header block: repository name, command text, resolved directory,
/// start timestamp, and the stdout heading.
pub open spec fn header_spec(
    name: Seq<char>,
    command: Seq<char>,
    directory: Seq<char>,
    ts: Timestamp,
) -> Seq<Seq<char>> {
    seq![
        "Repository: "@ + name,
        "Command: "@ + command,
        "Directory: "@ + directory,
        "Timestamp: "@ + rfc3339_spec(ts),
        Seq::<char>::empty(),
        stdout_heading(),
    ]
}

/// A transcript holding nothing but its header.
pub open spec fn fresh_transcript(
    name: Seq<char>,
    command: Seq<char>,
    directory: Seq<char>,
    ts: Timestamp,
) -> TranscriptView {
    TranscriptView {
        prefix: name,
        lines: header_spec(name, command, directory, ts),
        stderr_seen: false,
    }
}

/// What one line of output does to the transcript: a stdout line is
/// rendered and appended; the first stderr line brings a blank line and the
/// marker before it; later stderr lines are appended like stdout ones.
pub open spec fn transcript_step(t: TranscriptView, ev: StreamEvent) -> TranscriptView {
    match ev {
        StreamEvent::Stdout(l) => TranscriptView {
            lines: t.lines.push(rendered_line(t.prefix, l)),
            ..t
        },
        StreamEvent::Stderr(l) => if t.stderr_seen {
            TranscriptView { lines: t.lines.push(rendered_line(t.prefix, l)), ..t }
        } else {
            TranscriptView {
                lines: t.lines + seq![
                    Seq::<char>::empty(),
                    stderr_marker(),
                    rendered_line(t.prefix, l),
                ],
                stderr_seen: true,
                ..t
            }
        },
    }
}

/// The transcript after a whole run of output lines.
pub open spec fn replay(t: TranscriptView, evs: Seq<StreamEvent>) -> TranscriptView
    decreases evs.len(),
{
    if evs.len() == 0 {
        t
    } else {
        replay(transcript_step(t, evs[0]), evs.skip(1))
    }
}

/// A repository-prefixed line, as both the console and the transcript show
/// it.
pub fn console_line(repo_name: &str, line: &str) -> (r: String)
    ensures
        r@ == rendered_line(repo_name@, line@),
{
    let head = str_concat(repo_name, " | ");
    head.concat(line)
}

/// The persisted transcript of one command invocation, owned by that
/// invocation alone.
pub struct Transcript {
    repo_name: String,
    lines: Vec<String>,
    stderr_seen: bool,
}

impl View for Transcript {
    type V = TranscriptView;

    closed spec fn view(&self) -> TranscriptView {
        TranscriptView {
            prefix: self.repo_name@,
            lines: self.lines.deep_view(),
            stderr_seen: self.stderr_seen,
        }
    }
}

impl Transcript {
    /// A fresh transcript holding the header block and nothing else.
    pub fn new(repo_name: &str, command: &str, directory: &str, ts: &Timestamp) -> (r: Self)
        requires
            ts_valid(*ts),
        ensures
            r@ == fresh_transcript(repo_name@, command@, directory@, *ts),
    {
        let mut lines: Vec<String> = Vec::new();
        lines.push(str_concat("Repository: ", repo_name));
        lines.push(str_concat("Command: ", command));
        lines.push(str_concat("Directory: ", directory));
        let stamp = ts.rfc3339();
        lines.push(str_concat("Timestamp: ", stamp.as_str()));
        lines.push(String::new());
        lines.push(String::from_str("=== STDOUT ==="));
        let r = Transcript { repo_name: String::from_str(repo_name), lines, stderr_seen: false };
        proof {
            assert(r@.lines =~~= header_spec(repo_name@, command@, directory@, *ts));
            assert(r@ =~= fresh_transcript(repo_name@, command@, directory@, *ts));
        }
        r
    }

    /// Appends one stdout line; hands back the rendered line, for the
    /// console and for the transcript file.
    pub fn log_stdout_line(&mut self, line: &str) -> (out: String)
        ensures
            final(self)@ == transcript_step(old(self)@, StreamEvent::Stdout(line@)),
            out@ == rendered_line(old(self)@.prefix, line@),
    {
        let rendered = console_line(self.repo_name.as_str(), line);
        let ghost old_lines = self.lines.deep_view();
        self.lines.push(rendered.clone());
        proof {
            assert(self.lines.deep_view() =~~= old_lines.push(rendered@));
            assert(self@ =~= transcript_step(old(self)@, StreamEvent::Stdout(line@)));
        }
        rendered
    }

    /// Appends one stderr line, writing the one-time marker first if this
    /// is the first; hands back every line appended, in order.
    pub fn log_stderr_line(&mut self, line: &str) -> (out: Vec<String>)
        ensures
            final(self)@ == transcript_step(old(self)@, StreamEvent::Stderr(line@)),
            out.deep_view() == final(self)@.lines.skip(old(self)@.lines.len() as int),
    {
        let rendered = console_line(self.repo_name.as_str(), line);
        let mut out: Vec<String> = Vec::new();
        let ghost old_lines = self.lines.deep_view();
        if !self.stderr_seen {
            self.lines.push(String::new());
            self.lines.push(String::from_str("=== STDERR ==="));
            self.stderr_seen = true;
            out.push(String::new());
            out.push(String::from_str("=== STDERR ==="));
        }
        self.lines.push(rendered.clone());
        out.push(rendered);
        proof {
            if old(self)@.stderr_seen {
                assert(self.lines.deep_view() =~~= old_lines.push(
                    rendered_line(old(self)@.prefix, line@),
                ));
                assert(self@ =~= transcript_step(old(self)@, StreamEvent::Stderr(line@)));
                assert(out.deep_view() =~~= self@.lines.skip(old(self)@.lines.len() as int));
            } else {
                assert(self.lines.deep_view() =~~= old_lines + seq![
                    Seq::<char>::empty(),
                    stderr_marker(),
                    rendered_line(old(self)@.prefix, line@),
                ]);
                assert(self@ =~= transcript_step(old(self)@, StreamEvent::Stderr(line@)));
                assert(out.deep_view() =~~= self@.lines.skip(old(self)@.lines.len() as int));
            }
        }
        out
    }

    /// Every line written so far.
    pub fn lines(&self) -> (r: &Vec<String>)
        ensures
            r.deep_view() == self@.lines,
    {
        &self.lines
    }

    /// Whether any stderr has arrived.
    pub fn stderr_seen(&self) -> (r: bool)
        ensures
            r == self@.stderr_seen,
    {
        self.stderr_seen
    }
}

/// How many lines are exactly the stderr marker.
pub open spec fn marker_count(lines: Seq<Seq<char>>) -> int {
    lines.filter(|l: Seq<char>| l == stderr_marker()).len() as int
}

/// A rendered line is never the marker: it carries a `|`, which the marker
/// does not.
pub proof fn lemma_rendered_line_ne_marker(prefix: Seq<char>, line: Seq<char>)
    ensures
        rendered_line(prefix, line) != stderr_marker(),
{
    reveal_strlit(" | ");
    reveal_strlit("=== STDERR ===");
    let r = rendered_line(prefix, line);
    let m = stderr_marker();
    assert(" | "@.len() == 3);
    assert(" | "@[1] == '|');
    assert(m.len() == 14);
    if r == m {
        let p = prefix.len() as int;
        assert(r.len() == p + 3 + line.len());
        assert(0 <= p + 1 < 14);
        assert(r[p + 1] == '|');
        assert(m[0] == '=' && m[1] == '=' && m[2] == '=' && m[3] == ' ' && m[4] == 'S' && m[5]
            == 'T' && m[6] == 'D' && m[7] == 'E' && m[8] == 'R' && m[9] == 'R' && m[10] == ' '
            && m[11] == '=' && m[12] == '=' && m[13] == '=');
        assert(false);
    }
}

/// A run of lines none of which is the marker counts no marker.
pub proof fn lemma_marker_count_zero(lines: Seq<Seq<char>>)
    requires
        forall|i: int| 0 <= i < lines.len() ==> lines[i] != stderr_marker(),
    ensures
        marker_count(lines) == 0,
    decreases lines.len(),
{
    reveal_with_fuel(Seq::<_>::filter, 2);
    if lines.len() > 0 {
        assert(lines.drop_last() =~~= lines.subrange(0, lines.len() - 1));
        lemma_marker_count_zero(lines.drop_last());
    }
}

/// No line of the header block is the marker.
pub proof fn lemma_header_no_marker(
    name: Seq<char>,
    command: Seq<char>,
    directory: Seq<char>,
    ts: Timestamp,
)
    ensures
        forall|i: int|
            0 <= i < header_spec(name, command, directory, ts).len() ==> header_spec(
                name,
                command,
                directory,
                ts,
            )[i] != stderr_marker(),
        marker_count(header_spec(name, command, directory, ts)) == 0,
{
    reveal_strlit("=== STDERR ===");
    reveal_strlit("=== STDOUT ===");
    reveal_strlit("Repository: ");
    reveal_strlit("Command: ");
    reveal_strlit("Directory: ");
    reveal_strlit("Timestamp: ");
    let h = header_spec(name, command, directory, ts);
    let m = stderr_marker();
    assert(m.len() == 14);
    assert(m[7] == 'E');
    assert(h[0][0] == 'R' && m[0] == '=');
    assert(h[1][0] == 'C');
    assert(h[2][0] == 'D');
    assert(h[3][0] == 'T');
    assert(h[4].len() == 0);
    assert(h[5][7] == 'O');
    assert(forall|i: int| 0 <= i < h.len() ==> h[i] != m);
    lemma_marker_count_zero(h);
}

/// What one event does to the marker count, the flag, and the prefix.
pub proof fn lemma_step_effect(t: TranscriptView, ev: StreamEvent)
    ensures
        transcript_step(t, ev).prefix == t.prefix,
        transcript_step(t, ev).stderr_seen == (t.stderr_seen || ev is Stderr),
        transcript_step(t, ev).lines.len() > t.lines.len(),
        transcript_step(t, ev).lines.take(t.lines.len() as int) == t.lines,
        marker_count(transcript_step(t, ev).lines) == marker_count(t.lines) + (
        if !t.stderr_seen && ev is Stderr {
            1int
        } else {
            0int
        }),
{
    let pred = |l: Seq<char>| l == stderr_marker();
    let r = transcript_step(t, ev);
    lemma_rendered_line_ne_marker(t.prefix, event_line(ev));
    reveal_strlit("=== STDERR ===");
    assert(stderr_marker().len() == 14);
    reveal_with_fuel(Seq::<_>::filter, 4);
    match ev {
        StreamEvent::Stdout(l) => {
            let one = seq![rendered_line(t.prefix, l)];
            assert(r.lines =~~= t.lines + one);
            Seq::filter_distributes_over_add(t.lines, one, pred);
            assert(one.drop_last() =~~= Seq::<Seq<char>>::empty());
            assert(one.filter(pred).len() == 0);
        },
        StreamEvent::Stderr(l) => {
            if t.stderr_seen {
                let one = seq![rendered_line(t.prefix, l)];
                assert(r.lines =~~= t.lines + one);
                Seq::filter_distributes_over_add(t.lines, one, pred);
                assert(one.drop_last() =~~= Seq::<Seq<char>>::empty());
                assert(one.filter(pred).len() == 0);
            } else {
                let three = seq![
                    Seq::<char>::empty(),
                    stderr_marker(),
                    rendered_line(t.prefix, l),
                ];
                assert(r.lines =~~= t.lines + three);
                Seq::filter_distributes_over_add(t.lines, three, pred);
                assert(three.drop_last() =~~= seq![Seq::<char>::empty(), stderr_marker()]);
                assert(three.drop_last().drop_last() =~~= seq![Seq::<char>::empty()]);
                assert(three.drop_last().drop_last().drop_last() =~~= Seq::<
                    Seq<char>,
                >::empty());
                assert(three.filter(pred).len() == 1);
            }
        },
    }
    assert(r.lines.take(t.lines.len() as int) =~~= t.lines);
}

/// Replaying only ever appends: what was written stays, the prefix stays.
pub proof fn lemma_replay_extends(t: TranscriptView, evs: Seq<StreamEvent>)
    ensures
        replay(t, evs).prefix == t.prefix,
        replay(t, evs).lines.len() >= t.lines.len(),
        replay(t, evs).lines.take(t.lines.len() as int) == t.lines,
        t.stderr_seen ==> replay(t, evs).stderr_seen,
    decreases evs.len(),
{
    if evs.len() > 0 {
        let t1 = transcript_step(t, evs[0]);
        lemma_step_effect(t, evs[0]);
        lemma_replay_extends(t1, evs.skip(1));
        let r = replay(t, evs);
        assert(r.lines.take(t.lines.len() as int) =~~= r.lines.take(
            t1.lines.len() as int,
        ).take(t.lines.len() as int));
    }
}

/// Once stderr has been seen, no further line is the marker: the count
/// stays.
pub proof fn lemma_replay_after_marker(t: TranscriptView, evs: Seq<StreamEvent>)
    requires
        t.stderr_seen,
    ensures
        marker_count(replay(t, evs).lines) == marker_count(t.lines),
    decreases evs.len(),
{
    if evs.len() > 0 {
        lemma_step_effect(t, evs[0]);
        lemma_replay_after_marker(transcript_step(t, evs[0]), evs.skip(1));
    }
}

/// The position of the first stderr line in a run of output.
pub open spec fn first_stderr_index(evs: Seq<StreamEvent>) -> int
    decreases evs.len(),
{
    if evs.len() == 0 {
        0
    } else if evs[0] is Stderr {
        0
    } else {
        1 + first_stderr_index(evs.skip(1))
    }
}

/// A run that writes only stdout renders one line per event, in order, and
/// leaves the stderr flag alone.
pub proof fn lemma_stdout_only_replay(t: TranscriptView, evs: Seq<StreamEvent>)
    requires
        forall|i: int| 0 <= i < evs.len() ==> !(#[trigger] evs[i] is Stderr),
    ensures
        replay(t, evs).stderr_seen == t.stderr_seen,
        replay(t, evs).prefix == t.prefix,
        replay(t, evs).lines =~= t.lines + Seq::new(
            evs.len(),
            |i: int| rendered_line(t.prefix, event_line(evs[i])),
        ),
    decreases evs.len(),
{
    if evs.len() == 0 {
        assert(replay(t, evs).lines =~~= t.lines + Seq::new(
            evs.len(),
            |i: int| rendered_line(t.prefix, event_line(evs[i])),
        ));
    } else {
        let t1 = transcript_step(t, evs[0]);
        lemma_stdout_only_replay(t1, evs.skip(1));
        assert(replay(t, evs).lines =~~= t.lines + Seq::new(
            evs.len(),
            |i: int| rendered_line(t.prefix, event_line(evs[i])),
        ));
    }
    assert(replay(t, evs).lines =~= t.lines + Seq::new(
        evs.len(),
        |i: int| rendered_line(t.prefix, event_line(evs[i])),
    ));
}

/// A command that writes nothing to stderr yields a transcript that is
/// exactly the header block followed by its stdout lines, in source order,
/// with no stderr marker anywhere.
pub proof fn lemma_stdout_only_transcript(
    name: Seq<char>,
    command: Seq<char>,
    directory: Seq<char>,
    ts: Timestamp,
    evs: Seq<StreamEvent>,
)
    requires
        forall|i: int| 0 <= i < evs.len() ==> !(#[trigger] evs[i] is Stderr),
    ensures
        replay(fresh_transcript(name, command, directory, ts), evs).lines == header_spec(
            name,
            command,
            directory,
            ts,
        ) + Seq::new(evs.len(), |i: int| rendered_line(name, event_line(evs[i]))),
        marker_count(replay(fresh_transcript(name, command, directory, ts), evs).lines) == 0,
{
    let t0 = fresh_transcript(name, command, directory, ts);
    lemma_stdout_only_replay(t0, evs);
    let r = replay(t0, evs);
    lemma_header_no_marker(name, command, directory, ts);
    assert forall|i: int| 0 <= i < r.lines.len() implies r.lines[i] != stderr_marker() by {
        if i >= t0.lines.len() {
            lemma_rendered_line_ne_marker(name, event_line(evs[i - t0.lines.len()]));
        }
    }
    lemma_marker_count_zero(r.lines);
}

/// However the two streams interleave, a run with any stderr yields exactly
/// one marker line, placed right after the stdout lines that preceded the
/// first stderr line and right before that line's rendering.
pub proof fn lemma_stderr_marker_once(t0: TranscriptView, evs: Seq<StreamEvent>)
    requires
        !t0.stderr_seen,
        marker_count(t0.lines) == 0,
        exists|i: int| 0 <= i < evs.len() && (#[trigger] evs[i]) is Stderr,
    ensures
        ({
            let r = replay(t0, evs);
            let k = first_stderr_index(evs);
            &&& marker_count(r.lines) == 1
            &&& 0 <= k < evs.len()
            &&& t0.lines.len() + k + 2 < r.lines.len() + 1
            &&& r.lines[t0.lines.len() + k] == Seq::<char>::empty()
            &&& r.lines[t0.lines.len() + k + 1] == stderr_marker()
            &&& r.lines[t0.lines.len() + k + 2] == rendered_line(t0.prefix, event_line(evs[k]))
        }),
    decreases evs.len(),
{
    let r = replay(t0, evs);
    let k = first_stderr_index(evs);
    let t1 = transcript_step(t0, evs[0]);
    lemma_step_effect(t0, evs[0]);
    if evs[0] is Stderr {
        assert(k == 0);
        assert(marker_count(t1.lines) == 1);
        lemma_replay_after_marker(t1, evs.skip(1));
        lemma_replay_extends(t1, evs.skip(1));
        assert(t1.lines[t0.lines.len() as int] == Seq::<char>::empty());
        assert(t1.lines[t0.lines.len() + 1int] == stderr_marker());
        assert(t1.lines[t0.lines.len() + 2int] == rendered_line(t0.prefix, event_line(evs[0])));
        assert(r.lines.take(t1.lines.len() as int) == t1.lines);
        assert(r.lines[t0.lines.len() as int] == t1.lines[t0.lines.len() as int]);
        assert(r.lines[t0.lines.len() + 1int] == t1.lines[t0.lines.len() + 1int]);
        assert(r.lines[t0.lines.len() + 2int] == t1.lines[t0.lines.len() + 2int]);
    } else {
        let i0 = choose|i: int| 0 <= i < evs.len() && (#[trigger] evs[i]) is Stderr;
        assert(evs.skip(1)[i0 - 1] is Stderr);
        lemma_stderr_marker_once(t1, evs.skip(1));
        assert(first_stderr_index(evs.skip(1)) == k - 1);
        assert(t1.lines.len() == t0.lines.len() + 1);
        assert(t1.lines.len() + (k - 1) == t0.lines.len() + k);
    }
}

/// The stderr-marker guarantee for one whole run: starting from a fresh
/// transcript, a command that writes anything to stderr yields exactly one
/// marker line, placed right before its first stderr line, wherever the
/// two streams interleave.
pub proof fn lemma_stderr_marker_once_in_run(
    name: Seq<char>,
    command: Seq<char>,
    directory: Seq<char>,
    ts: Timestamp,
    evs: Seq<StreamEvent>,
)
    requires
        exists|i: int| 0 <= i < evs.len() && (#[trigger] evs[i]) is Stderr,
    ensures
        ({
            let t0 = fresh_transcript(name, command, directory, ts);
            let r = replay(t0, evs);
            let k = first_stderr_index(evs);
            &&& marker_count(r.lines) == 1
            &&& r.lines[t0.lines.len() + k + 1int] == stderr_marker()
            &&& r.lines[t0.lines.len() + k + 2int] == rendered_line(name, event_line(evs[k]))
        }),
{
    lemma_header_no_marker(name, command, directory, ts);
    lemma_stderr_marker_once(fresh_transcript(name, command, directory, ts), evs);
}

} // verus!