//! Vote parser: finds the vote announcements in console text.
//!
//! An announcement is a chat line of the server's own: a timestamp
//! `YYYY-MM-DD HH:MM:SS`, the marker ` I chat: *** `, a message of one of
//! three forms, and a line feed.

use crate::text::{chars_of, find_first, find_last, has_at, is_digit, is_digit_char, occurs_at,
    string_of_range};
use vstd::prelude::*;

verus! {

/// A vote lifecycle event, as announced by the server.
#[derive(Debug)]
pub enum VoteEvent {
    /// The running vote passed.
    VotePassed,
    /// The running vote failed.
    VoteFailed,
    /// A player called a vote.
    VoteStarted { player: String, vote_name: String, reason: String },
}

/// The mathematical content of a [`VoteEvent`].
pub enum VoteEventView {
    Passed,
    Failed,
    Started { player: Seq<char>, vote_name: Seq<char>, reason: Seq<char> },
}

impl View for VoteEvent {
    type V = VoteEventView;

    open spec fn view(&self) -> VoteEventView {
        match *self {
            VoteEvent::VotePassed => VoteEventView::Passed,
            VoteEvent::VoteFailed => VoteEventView::Failed,
            VoteEvent::VoteStarted { player, vote_name, reason } => VoteEventView::Started {
                player: player@,
                vote_name: vote_name@,
                reason: reason@,
            },
        }
    }
}

/// The views of a sequence of events.
pub open spec fn event_views(events: Seq<VoteEvent>) -> Seq<VoteEventView> {
    events.map_values(|e: VoteEvent| e@)
}

/// The marker that follows the timestamp of a server chat line.
pub open spec fn chat_marker() -> Seq<char> {
    " I chat: *** "@
}

/// A timestamp `YYYY-MM-DD HH:MM:SS` stands in `t` at offset `i`.
pub open spec fn timestamp_at(t: Seq<char>, i: int) -> bool {
    &&& 0 <= i
    &&& i + 19 <= t.len()
    &&& is_digit(t[i]) && is_digit(t[i + 1]) && is_digit(t[i + 2]) && is_digit(t[i + 3])
    &&& t[i + 4] == '-'
    &&& is_digit(t[i + 5]) && is_digit(t[i + 6])
    &&& t[i + 7] == '-'
    &&& is_digit(t[i + 8]) && is_digit(t[i + 9])
    &&& t[i + 10] == ' '
    &&& is_digit(t[i + 11]) && is_digit(t[i + 12])
    &&& t[i + 13] == ':'
    &&& is_digit(t[i + 14]) && is_digit(t[i + 15])
    &&& t[i + 16] == ':'
    &&& is_digit(t[i + 17]) && is_digit(t[i + 18])
}

/// The offset of the first line feed at or after `from`, or the length of
/// the text where there is none.
pub open spec fn line_end(t: Seq<char>, from: int) -> int
    decreases t.len() - from,
{
    if from < 0 || from >= t.len() {
        t.len() as int
    } else if t[from] == '\n' {
        from
    } else {
        line_end(t, from + 1)
    }
}

/// `line` reads `'<player>' called <words> option '<vote_name>' (<reason>)`
/// with the player's name ending at `a`, the words at `b` and the vote's
/// name at `c`, each of the four parts at least one character long.
pub open spec fn split_ok(line: Seq<char>, a: int, b: int, c: int) -> bool {
    &&& line.len() > 0
    &&& line[0] == '\''
    &&& line.last() == ')'
    &&& 2 <= a
    &&& occurs_at(line, a, "' called "@)
    &&& a + 10 <= b
    &&& occurs_at(line, b, " option '"@)
    &&& b + 10 <= c
    &&& occurs_at(line, c, "' ("@)
    &&& c + 4 <= line.len() - 1
}

/// Among the ways to read the line, the one that is taken: the shortest
/// player name, then the longest run of words, then the shortest vote name.
pub open spec fn is_chosen_split(line: Seq<char>, a: int, b: int, c: int) -> bool {
    &&& split_ok(line, a, b, c)
    &&& forall|a2: int, b2: int, c2: int| #[trigger] split_ok(line, a2, b2, c2) ==> a <= a2
    &&& forall|b2: int, c2: int| #[trigger] split_ok(line, a, b2, c2) ==> b2 <= b
    &&& forall|c2: int| #[trigger] split_ok(line, a, b, c2) ==> c <= c2
}

/// The line announces that a vote was called.
pub open spec fn has_split(line: Seq<char>) -> bool {
    exists|a: int, b: int, c: int| split_ok(line, a, b, c)
}

/// The event that a message announcing a called vote stands for.
pub open spec fn started_event(line: Seq<char>, a: int, b: int, c: int) -> VoteEventView {
    VoteEventView::Started {
        player: line.subrange(1, a),
        vote_name: line.subrange(b + 9, c),
        reason: line.subrange(c + 3, line.len() - 1),
    }
}

/// The event of a message that announces a called vote, if it is one.
pub open spec fn started_of(line: Seq<char>) -> Option<VoteEventView> {
    if has_split(line) {
        let (a, b, c) = choose|a: int, b: int, c: int| is_chosen_split(line, a, b, c);
        Some(started_event(line, a, b, c))
    } else {
        None
    }
}

/// The event announced by the text that starts at offset `i`, with the
/// offset just behind its line feed; `None` where no announcement starts.
pub open spec fn event_at(t: Seq<char>, i: int) -> Option<(VoteEventView, int)> {
    let m = i + 32;
    let end = line_end(t, m);
    if !timestamp_at(t, i) || !occurs_at(t, i + 19, chat_marker()) || end >= t.len() {
        None
    } else if occurs_at(t, m, "Vote passed"@) {
        Some((VoteEventView::Passed, end + 1))
    } else if occurs_at(t, m, "Vote failed"@) && end == m + 11 {
        Some((VoteEventView::Failed, end + 1))
    } else {
        match started_of(t.subrange(m, end)) {
            Some(e) => Some((e, end + 1)),
            None => None,
        }
    }
}

/// The events announced in `t` from offset `i` on, in order. The search
/// goes on behind the line feed of each announcement found.
pub open spec fn events_from(t: Seq<char>, i: int) -> Seq<VoteEventView>
    decreases t.len() - i,
{
    if i < 0 || i >= t.len() {
        Seq::empty()
    } else {
        match event_at(t, i) {
            Some((e, end)) => if end > i {
                seq![e] + events_from(t, end)
            } else {
                Seq::empty()
            },
            None => events_from(t, i + 1),
        }
    }
}

/// The events announced in a text, in order.
pub open spec fn vote_events(t: Seq<char>) -> Seq<VoteEventView> {
    events_from(t, 0)
}

/// A well-formed split of a line leaves room for all its parts.
pub proof fn lemma_split_bounds(line: Seq<char>, a: int, b: int, c: int)
    requires
        split_ok(line, a, b, c),
    ensures
        2 <= a,
        a + 10 <= b,
        b + 10 <= c,
        c + 5 <= line.len(),
        27 <= line.len(),
{
}

/// Among the offsets of a range at which a property holds, there is a
/// least and a greatest.
proof fn lemma_extremes(p: spec_fn(int) -> bool, lo: int, hi: int)
    requires
        exists|k: int| lo <= k <= hi && #[trigger] p(k),
    ensures
        exists|k: int| lo <= k <= hi && #[trigger] p(k) && forall|j: int| lo <= j < k ==> !#[trigger] p(j),
        exists|k: int| lo <= k <= hi && #[trigger] p(k) && forall|j: int| k < j <= hi ==> !#[trigger] p(j),
    decreases hi - lo,
{
    let w = choose|k: int| lo <= k <= hi && #[trigger] p(k);
    if p(lo) {
        assert(forall|j: int| lo <= j < lo ==> !#[trigger] p(j));
    } else {
        assert(lo + 1 <= w);
        lemma_extremes(p, lo + 1, hi);
        let k = choose|k: int| lo + 1 <= k <= hi && #[trigger] p(k) && forall|j: int| lo + 1 <= j < k ==> !#[trigger] p(j);
        assert(forall|j: int| lo <= j < k ==> !#[trigger] p(j));
    }
    if p(hi) {
        assert(forall|j: int| hi < j <= hi ==> !#[trigger] p(j));
    } else {
        assert(w <= hi - 1);
        lemma_extremes(p, lo, hi - 1);
        let k = choose|k: int| lo <= k <= hi - 1 && #[trigger] p(k) && forall|j: int| k < j <= hi - 1 ==> !#[trigger] p(j);
        assert(forall|j: int| k < j <= hi ==> !#[trigger] p(j));
    }
}

/// A line that can be read as a called vote has a chosen reading.
pub proof fn lemma_chosen_split_exists(line: Seq<char>)
    requires
        has_split(line),
    ensures
        exists|a: int, b: int, c: int| is_chosen_split(line, a, b, c),
{
    let n = line.len() as int;
    let (a0, b0, c0) = choose|a: int, b: int, c: int| split_ok(line, a, b, c);
    assert(split_ok(line, a0, b0, c0));
    let pa = |a: int| exists|b: int, c: int| split_ok(line, a, b, c);
    assert(pa(a0));
    lemma_extremes(pa, 0, n);
    let a = choose|k: int| 0 <= k <= n && #[trigger] pa(k) && forall|j: int| 0 <= j < k ==> !#[trigger] pa(j);
    let pb = |b: int| exists|c: int| split_ok(line, a, b, c);
    let (b1, c1) = choose|b: int, c: int| split_ok(line, a, b, c);
    assert(split_ok(line, a, b1, c1));
    assert(pb(b1));
    lemma_extremes(pb, 0, n);
    let b = choose|k: int| 0 <= k <= n && #[trigger] pb(k) && forall|j: int| k < j <= n ==> !#[trigger] pb(j);
    let pc = |c: int| split_ok(line, a, b, c);
    let c2 = choose|c: int| split_ok(line, a, b, c);
    assert(pc(c2));
    lemma_extremes(pc, 0, n);
    let c = choose|k: int| 0 <= k <= n && #[trigger] pc(k) && forall|j: int| 0 <= j < k ==> !#[trigger] pc(j);
    assert(split_ok(line, a, b, c));
    assert forall|a2: int, b2: int, c2: int| #[trigger] split_ok(line, a2, b2, c2) implies a
        <= a2 by {
        assert(pa(a2));
    }
    assert forall|b2: int, c2: int| #[trigger] split_ok(line, a, b2, c2) implies b2 <= b by {
        assert(pb(b2));
    }
    assert forall|c2: int| #[trigger] split_ok(line, a, b, c2) implies c <= c2 by {
        assert(pc(c2));
    }
    assert(is_chosen_split(line, a, b, c));
}

/// Only one split of a line is the chosen one.
pub proof fn lemma_chosen_split_unique(
    line: Seq<char>,
    a: int,
    b: int,
    c: int,
    a2: int,
    b2: int,
    c2: int,
)
    requires
        is_chosen_split(line, a, b, c),
        is_chosen_split(line, a2, b2, c2),
    ensures
        a == a2,
        b == b2,
        c == c2,
{
    assert(split_ok(line, a, b, c));
    assert(split_ok(line, a2, b2, c2));
}

/// Text in which no timestamp stands announces nothing.
pub proof fn lemma_no_timestamp_no_events(t: Seq<char>, i: int)
    requires
        0 <= i,
        forall|k: int| i <= k < t.len() ==> !timestamp_at(t, k),
    ensures
        events_from(t, i) == Seq::<VoteEventView>::empty(),
    decreases t.len() - i,
{
    if i < t.len() {
        assert(!timestamp_at(t, i));
        assert(event_at(t, i).is_none());
        lemma_no_timestamp_no_events(t, i + 1);
    }
}

/// Text without a line feed announces nothing.
pub proof fn lemma_no_line_feed_no_events(t: Seq<char>, i: int)
    requires
        0 <= i,
        forall|k: int| 0 <= k < t.len() ==> t[k] != '\n',
    ensures
        events_from(t, i) == Seq::<VoteEventView>::empty(),
    decreases t.len() - i,
{
    if i < t.len() {
        lemma_line_end_bounds(t, i + 32);
        assert(line_end(t, i + 32) >= t.len());
        assert(event_at(t, i).is_none());
        lemma_no_line_feed_no_events(t, i + 1);
    }
}

/// The end of a line is a line feed or the end of the text, and no line
/// feed stands before it.
pub proof fn lemma_line_end_bounds(t: Seq<char>, from: int)
    ensures
        line_end(t, from) <= t.len(),
        0 <= from <= t.len() ==> from <= line_end(t, from),
        line_end(t, from) < t.len() ==> from <= line_end(t, from) && t[line_end(t, from)] == '\n',
        forall|k: int| 0 <= from <= k < line_end(t, from) ==> t[k] != '\n',
    decreases t.len() - from,
{
    if 0 <= from < t.len() && t[from] != '\n' {
        lemma_line_end_bounds(t, from + 1);
    }
}

/// Tests whether a timestamp stands in `text` at offset `i`.
pub fn is_timestamp_at(text: &[char], i: usize) -> (r: bool)
    ensures
        r == timestamp_at(text@, i as int),
{
    if i > text.len() || text.len() - i < 19 {
        return false;
    }
    is_digit_char(text[i]) && is_digit_char(text[i + 1]) && is_digit_char(text[i + 2])
        && is_digit_char(text[i + 3]) && text[i + 4] == '-' && is_digit_char(text[i + 5])
        && is_digit_char(text[i + 6]) && text[i + 7] == '-' && is_digit_char(text[i + 8])
        && is_digit_char(text[i + 9]) && text[i + 10] == ' ' && is_digit_char(text[i + 11])
        && is_digit_char(text[i + 12]) && text[i + 13] == ':' && is_digit_char(text[i + 14])
        && is_digit_char(text[i + 15]) && text[i + 16] == ':' && is_digit_char(text[i + 17])
        && is_digit_char(text[i + 18])
}

/// Finds the end of the line that holds offset `from`.
pub fn find_line_end(text: &[char], from: usize) -> (end: usize)
    requires
        from <= text.len(),
    ensures
        end == line_end(text@, from as int),
        from <= end <= text.len(),
{
    let mut k: usize = from;
    while k < text.len() && text[k] != '\n'
        invariant
            from <= k <= text.len(),
            line_end(text@, from as int) == line_end(text@, k as int),
        decreases text.len() - k,
    {
        k = k + 1;
    }
    k
}

/// Reads a message that announces a called vote: the three offsets of the
/// chosen split, or `None` where the line is no such message.
pub fn split_started(line: &[char]) -> (r: Option<(usize, usize, usize)>)
    ensures
        match r {
            Some((a, b, c)) => is_chosen_split(line@, a as int, b as int, c as int),
            None => !has_split(line@),
        },
{
    let n: usize = line.len();
    proof {
        reveal_strlit("' called ");
        reveal_strlit(" option '");
        reveal_strlit("' (");
        assert forall|a: int, b: int, c: int| split_ok(line@, a, b, c) implies n >= 27 by {
            lemma_split_bounds(line@, a, b, c);
        }
    }
    if n < 27 || line[0] != '\'' || line[n - 1] != ')' {
        return None;
    }
    let called = chars_of("' called ");
    let option = chars_of(" option '");
    let paren = chars_of("' (");
    let c_max: usize = match find_last(line, &paren, 22, n - 5) {
        Some(c) => c,
        None => {
            return None;
        },
    };
    let b: usize = match find_last(line, &option, 12, c_max - 10) {
        Some(b) => b,
        None => {
            assert forall|a2: int, b2: int, c2: int| !split_ok(line@, a2, b2, c2) by {
                if split_ok(line@, a2, b2, c2) {
                    assert(c2 <= c_max);
                }
            }
            return None;
        },
    };
    let a: usize = match find_first(line, &called, 2, b - 10) {
        Some(a) => a,
        None => {
            assert forall|a2: int, b2: int, c2: int| !split_ok(line@, a2, b2, c2) by {
                if split_ok(line@, a2, b2, c2) {
                    assert(c2 <= c_max);
                    assert(b2 <= b);
                }
            }
            return None;
        },
    };
    let c: usize = match find_first(line, &paren, b + 10, c_max) {
        Some(c) => c,
        None => {
            assert(false);
            return None;
        },
    };
    proof {
        assert(split_ok(line@, a as int, b as int, c as int));
        assert forall|a2: int, b2: int, c2: int| #[trigger]
            split_ok(line@, a2, b2, c2) implies a <= a2 by {
            assert(c2 <= c_max);
            assert(b2 <= b);
        }
        assert forall|b2: int, c2: int| #[trigger] split_ok(line@, a as int, b2, c2) implies b2
            <= b by {
            assert(c2 <= c_max);
        }
    }
    Some((a, b, c))
}

/// Reads the announcement that starts at offset `i`, if one does.
pub fn match_event_at(text: &[char], i: usize) -> (r: Option<(VoteEvent, usize)>)
    ensures
        match r {
            Some((e, end)) => event_at(text@, i as int) == Some((e@, end as int)) && i < end
                <= text.len(),
            None => event_at(text@, i as int).is_none(),
        },
{
    if !is_timestamp_at(text, i) {
        return None;
    }
    let marker = chars_of(" I chat: *** ");
    proof {
        reveal_strlit(" I chat: *** ");
        reveal_strlit("Vote passed");
        reveal_strlit("Vote failed");
    }
    let n: usize = text.len();
    if !has_at(text, i + 19, &marker) {
        return None;
    }
    let m: usize = i + 32;
    let end: usize = find_line_end(text, m);
    if end >= n {
        return None;
    }
    let passed = chars_of("Vote passed");
    let failed = chars_of("Vote failed");
    if has_at(text, m, &passed) {
        return Some((VoteEvent::VotePassed, end + 1));
    }
    if has_at(text, m, &failed) && end == m + 11 {
        return Some((VoteEvent::VoteFailed, end + 1));
    }
    let line = &text[m..end];
    assert(line@ == text@.subrange(m as int, end as int));
    match split_started(line) {
        Some((a, b, c)) => {
            let player = string_of_range(line, 1, a);
            let vote_name = string_of_range(line, b + 9, c);
            let reason = string_of_range(line, c + 3, line.len() - 1);
            proof {
                let (a2, b2, c2) = choose|a2: int, b2: int, c2: int|
                    is_chosen_split(line@, a2, b2, c2);
                lemma_chosen_split_unique(line@, a as int, b as int, c as int, a2, b2, c2);
            }
            Some((VoteEvent::VoteStarted { player, vote_name, reason }, end + 1))
        },
        None => None,
    }
}

/// Extracts the vote events that a chunk of console text announces, in the
/// order in which they stand in it.
pub fn parse_votes(data: &String) -> (events: Vec<VoteEvent>)
    ensures
        event_views(events@) == vote_events(data@),
{
    let text = chars_of(data.as_str());
    let mut events: Vec<VoteEvent> = Vec::new();
    let mut i: usize = 0;
    assert(event_views(events@) + events_from(text@, 0) =~= vote_events(text@));
    while i < text.len()
        invariant
            i <= text.len(),
            text@ == data@,
            vote_events(text@) == event_views(events@) + events_from(text@, i as int),
        decreases text.len() - i,
    {
        match match_event_at(&text, i) {
            Some((e, end)) => {
                proof {
                    assert(event_views(events@.push(e)) =~= event_views(events@).push(e@));
                    assert(event_views(events@).push(e@) + events_from(text@, end as int)
                        =~= event_views(events@) + (seq![e@] + events_from(text@, end as int)));
                }
                events.push(e);
                i = end;
            },
            None => {
                i = i + 1;
            },
        }
    }
    assert(event_views(events@) + events_from(text@, i as int) =~= event_views(events@));
    events
}

} // verus!
