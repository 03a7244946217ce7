//! The commands that the threads of the dashboard exchange, and the bus that
//! merges the streams of several producers into the one stream that the
//! screen consumes.
//!
//! On the bus every producer has a forwarding task of its own, which takes
//! the commands of its producer one by one and pushes each, unchanged, onto
//! the shared output. What comes out is settled by the instants at which the
//! commands reach the bus. So a stream is held here as the queue of its
//! arrivals, each command with its instant, and merging is a function of
//! such queues. It keeps the order of every producer whatever the instants
//! are, and it is in the order of the instants wherever the producers are.

use std::collections::VecDeque;
use vstd::prelude::*;

verus! {

/// The key of a key event, as far as the dashboard tells keys apart.
#[derive(Clone, Copy, Debug, PartialEq, Eq, Structural)]
pub enum KeyCode {
    /// A character key.
    Char(char),
    /// The left arrow.
    Left,
    /// The right arrow.
    Right,
    /// Any other key.
    Other,
}

/// Whether a key went down, is held down or came up.
#[derive(Clone, Copy, Debug, PartialEq, Eq, Structural)]
pub enum KeyEventKind {
    Press,
    Repeat,
    Release,
}

/// One key event of the terminal.
#[derive(Clone, Copy, Debug, PartialEq, Eq, Structural)]
pub struct KeyEvent {
    pub code: KeyCode,
    pub kind: KeyEventKind,
}

/// One event of the terminal: a key event, or something the dashboard has no
/// use for (the mouse, a resize, a paste).
#[derive(Clone, Copy, Debug, PartialEq, Eq, Structural)]
pub enum Event {
    Key(KeyEvent),
    Other,
}

/// A message between the threads of the dashboard.
#[derive(Clone, Debug, PartialEq, Eq)]
pub enum Cmd {
    /// A request to stop the worker.
    Terminate,
    /// The worker has finished its initialization.
    IsUp,
    /// The event loop of the worker has returned.
    IsDown,
    /// A key was pressed on the terminal.
    KeyPress(KeyEvent),
    /// A line of text for the message log.
    Msg(String),
}

/// A command as a mathematical value: its text is a sequence of characters.
pub enum CmdView {
    Terminate,
    IsUp,
    IsDown,
    KeyPress(KeyEvent),
    Msg(Seq<char>),
}

impl View for Cmd {
    type V = CmdView;

    open spec fn view(&self) -> CmdView {
        match *self {
            Cmd::Terminate => CmdView::Terminate,
            Cmd::IsUp => CmdView::IsUp,
            Cmd::IsDown => CmdView::IsDown,
            Cmd::KeyPress(key) => CmdView::KeyPress(key),
            Cmd::Msg(text) => CmdView::Msg(text@),
        }
    }
}

impl DeepView for Cmd {
    type V = CmdView;

    open spec fn deep_view(&self) -> CmdView {
        self@
    }
}

/// What the input relay forwards for one terminal event: the press of a key
/// as a command, and nothing for any other event.
pub open spec fn relayed(event: Event) -> Option<Cmd> {
    match event {
        Event::Key(key) => if key.kind == KeyEventKind::Press {
            Some(Cmd::KeyPress(key))
        } else {
            None
        },
        Event::Other => None,
    }
}

/// Decides for the input relay whether a terminal event goes onto the bus.
/// Only key presses do: a key that is held or released is dropped, and so is
/// every event that is no key event.
pub fn terminal_event(event: Event) -> (forwarded: Option<Cmd>)
    ensures
        forwarded == relayed(event),
{
    match event {
        Event::Key(key) => match key.kind {
            KeyEventKind::Press => Some(Cmd::KeyPress(key)),
            _ => None,
        },
        Event::Other => None,
    }
}

/// A command together with the instant at which it reached the bus. A stream
/// is a queue of these, in the order in which its producer sent them.
#[derive(Clone, Debug, PartialEq, Eq)]
pub struct Arrival {
    /// The instant of arrival, on a clock that all producers share.
    pub at: u64,
    /// The command that arrived.
    pub cmd: Cmd,
}

/// The stream that the bus makes of two: at each step the head that arrived
/// first moves to the output, and of two heads that arrived together the one
/// of `a`. A stream that has run dry leaves the rest to the other.
pub open spec fn merge(a: Seq<Arrival>, b: Seq<Arrival>) -> Seq<Arrival>
    decreases a.len() + b.len(),
{
    if a.len() == 0 {
        b
    } else if b.len() == 0 {
        a
    } else if a[0].at <= b[0].at {
        seq![a[0]] + merge(a.skip(1), b)
    } else {
        seq![b[0]] + merge(a, b.skip(1))
    }
}

/// The stream that the bus makes of any number of streams: the first two are
/// merged, the result is merged with the third, and so on.
pub open spec fn merge_all(streams: Seq<Seq<Arrival>>) -> Seq<Arrival>
    decreases streams.len(),
{
    if streams.len() == 0 {
        Seq::empty()
    } else {
        merge(merge_all(streams.drop_last()), streams.last())
    }
}

/// `out` is made of `a` and `b` shuffled together: every item of `out` is the
/// next item of `a` or the next item of `b`, and both are used up. So `out`
/// holds the items of each of the two in the order in which that one had them.
pub open spec fn interleaves(a: Seq<Arrival>, b: Seq<Arrival>, out: Seq<Arrival>) -> bool
    decreases out.len(),
{
    if out.len() == 0 {
        a.len() == 0 && b.len() == 0
    } else {
        ||| a.len() > 0 && a[0] == out[0] && interleaves(a.skip(1), b, out.skip(1))
        ||| b.len() > 0 && b[0] == out[0] && interleaves(a, b.skip(1), out.skip(1))
    }
}

/// The instants of arrival never go back along `s`.
pub open spec fn in_arrival_order(s: Seq<Arrival>) -> bool {
    forall|i: int, j: int| 0 <= i <= j < s.len() ==> s[i].at <= s[j].at
}

/// Merging adds nothing and loses nothing.
pub proof fn lemma_merge_len(a: Seq<Arrival>, b: Seq<Arrival>)
    ensures
        merge(a, b).len() == a.len() + b.len(),
    decreases a.len() + b.len(),
{
    if a.len() == 0 || b.len() == 0 {
    } else if a[0].at <= b[0].at {
        lemma_merge_len(a.skip(1), b);
    } else {
        lemma_merge_len(a, b.skip(1));
    }
}

/// Whatever the instants of arrival are, the merged stream holds the commands
/// of each producer in the order in which that producer sent them.
pub proof fn lemma_merge_keeps_producer_order(a: Seq<Arrival>, b: Seq<Arrival>)
    ensures
        interleaves(a, b, merge(a, b)),
    decreases a.len() + b.len(),
{
    let out = merge(a, b);
    lemma_merge_len(a, b);
    if a.len() == 0 {
        assert(a =~= Seq::empty());
        lemma_interleaves_one_sided(b);
    } else if b.len() == 0 {
        assert(b =~= Seq::empty());
        lemma_interleaves_one_sided(a);
        lemma_interleaves_swap(b, a, a);
    } else if a[0].at <= b[0].at {
        lemma_merge_keeps_producer_order(a.skip(1), b);
        assert(out.skip(1) =~= merge(a.skip(1), b));
    } else {
        lemma_merge_keeps_producer_order(a, b.skip(1));
        assert(out.skip(1) =~= merge(a, b.skip(1)));
    }
}

/// A stream is the shuffle of nothing and itself.
proof fn lemma_interleaves_one_sided(s: Seq<Arrival>)
    ensures
        interleaves(Seq::empty(), s, s),
    decreases s.len(),
{
    if s.len() > 0 {
        lemma_interleaves_one_sided(s.skip(1));
    }
}

/// A shuffle of two streams is a shuffle of the same two the other way round.
proof fn lemma_interleaves_swap(a: Seq<Arrival>, b: Seq<Arrival>, out: Seq<Arrival>)
    requires
        interleaves(a, b, out),
    ensures
        interleaves(b, a, out),
    decreases out.len(),
{
    if out.len() > 0 {
        if a.len() > 0 && a[0] == out[0] && interleaves(a.skip(1), b, out.skip(1)) {
            lemma_interleaves_swap(a.skip(1), b, out.skip(1));
        } else {
            lemma_interleaves_swap(a, b.skip(1), out.skip(1));
        }
    }
}

/// Where each producer's commands reach the bus in the order of their
/// instants, the merged stream is in that order too: commands of different
/// producers come out as they arrived.
pub proof fn lemma_merge_in_arrival_order(a: Seq<Arrival>, b: Seq<Arrival>)
    requires
        in_arrival_order(a),
        in_arrival_order(b),
    ensures
        in_arrival_order(merge(a, b)),
    decreases a.len() + b.len(),
{
    if a.len() == 0 || b.len() == 0 {
    } else if a[0].at <= b[0].at {
        lemma_merge_in_arrival_order(a.skip(1), b);
        lemma_merge_starts_late(a.skip(1), b, a[0].at);
    } else {
        lemma_merge_in_arrival_order(a, b.skip(1));
        lemma_merge_starts_late(a, b.skip(1), b[0].at);
    }
}

/// Where nothing in two streams arrived before `floor`, nothing in their
/// merge did.
proof fn lemma_merge_starts_late(a: Seq<Arrival>, b: Seq<Arrival>, floor: u64)
    requires
        forall|i: int| 0 <= i < a.len() ==> floor <= a[i].at,
        forall|i: int| 0 <= i < b.len() ==> floor <= b[i].at,
    ensures
        forall|i: int| 0 <= i < merge(a, b).len() ==> floor <= merge(a, b)[i].at,
    decreases a.len() + b.len(),
{
    if a.len() == 0 || b.len() == 0 {
    } else if a[0].at <= b[0].at {
        lemma_merge_starts_late(a.skip(1), b, floor);
    } else {
        lemma_merge_starts_late(a, b.skip(1), floor);
    }
}

/// `s` lies inside `out` in its own order: `out` is `s` with further items
/// put before, between or after the items of `s`.
pub open spec fn keeps_order_of(s: Seq<Arrival>, out: Seq<Arrival>) -> bool
    decreases out.len(),
{
    if s.len() == 0 {
        true
    } else if out.len() == 0 {
        false
    } else {
        ||| s[0] == out[0] && keeps_order_of(s.skip(1), out.skip(1))
        ||| keeps_order_of(s, out.skip(1))
    }
}

/// The first of two shuffled streams lies inside the shuffle in its own order.
proof fn lemma_interleaves_keeps_order(a: Seq<Arrival>, b: Seq<Arrival>, out: Seq<Arrival>)
    requires
        interleaves(a, b, out),
    ensures
        keeps_order_of(a, out),
    decreases out.len(),
{
    if out.len() > 0 {
        if a.len() > 0 && a[0] == out[0] && interleaves(a.skip(1), b, out.skip(1)) {
            lemma_interleaves_keeps_order(a.skip(1), b, out.skip(1));
        } else {
            lemma_interleaves_keeps_order(a, b.skip(1), out.skip(1));
        }
    }
}

/// What lies in order inside a stream lies in order inside every stream that
/// this one lies inside.
proof fn lemma_keeps_order_trans(s: Seq<Arrival>, mid: Seq<Arrival>, out: Seq<Arrival>)
    requires
        keeps_order_of(s, mid),
        keeps_order_of(mid, out),
    ensures
        keeps_order_of(s, out),
    decreases out.len(),
{
    if s.len() > 0 && out.len() > 0 {
        if mid[0] == out[0] && keeps_order_of(mid.skip(1), out.skip(1)) {
            if s[0] == mid[0] && keeps_order_of(s.skip(1), mid.skip(1)) {
                lemma_keeps_order_trans(s.skip(1), mid.skip(1), out.skip(1));
            } else {
                lemma_keeps_order_trans(s, mid.skip(1), out.skip(1));
            }
        } else {
            lemma_keeps_order_trans(s, mid, out.skip(1));
        }
    }
}

/// However many streams the bus merges, the merged stream holds the commands
/// of every one of them in the order in which its producer sent them.
pub proof fn lemma_merge_all_keeps_producer_order(streams: Seq<Seq<Arrival>>, i: int)
    requires
        0 <= i < streams.len(),
    ensures
        keeps_order_of(streams[i], merge_all(streams)),
    decreases streams.len(),
{
    let earlier = merge_all(streams.drop_last());
    let out = merge_all(streams);
    lemma_merge_keeps_producer_order(earlier, streams.last());
    if i == streams.len() - 1 {
        lemma_interleaves_swap(earlier, streams.last(), out);
        lemma_interleaves_keeps_order(streams.last(), earlier, out);
    } else {
        lemma_merge_all_keeps_producer_order(streams.drop_last(), i);
        lemma_interleaves_keeps_order(earlier, streams.last(), out);
        lemma_keeps_order_trans(streams[i], earlier, out);
    }
}

/// Where every producer's commands reach the bus in the order of their
/// instants, the stream merged of all of them is in that order.
pub proof fn lemma_merge_all_in_arrival_order(streams: Seq<Seq<Arrival>>)
    requires
        forall|i: int| 0 <= i < streams.len() ==> in_arrival_order(#[trigger] streams[i]),
    ensures
        in_arrival_order(merge_all(streams)),
    decreases streams.len(),
{
    if streams.len() > 0 {
        lemma_merge_all_in_arrival_order(streams.drop_last());
        lemma_merge_in_arrival_order(merge_all(streams.drop_last()), streams.last());
    }
}

/// The streams of some producers, each as the sequence that its queue holds.
pub open spec fn streams_of(recvs: Seq<VecDeque<Arrival>>) -> Seq<Seq<Arrival>> {
    recvs.map_values(|recv: VecDeque<Arrival>| recv@)
}

/// Merges the streams of two producers into the stream that the consumer of
/// the bus gets. Every command comes out unchanged, and the head that arrived
/// first leaves first; of two that arrived at the same instant the one of
/// `recv_1` does. Each producer's commands come out in the order in which it
/// sent them.
pub fn combine_receivers(recv_1: VecDeque<Arrival>, recv_2: VecDeque<Arrival>) -> (merged:
    VecDeque<Arrival>)
    ensures
        merged@ == merge(recv_1@, recv_2@),
        interleaves(recv_1@, recv_2@, merged@),
{
    let mut left = recv_1;
    let mut right = recv_2;
    let mut merged: VecDeque<Arrival> = VecDeque::new();
    while left.len() > 0 && right.len() > 0
        invariant
            merged@ + merge(left@, right@) == merge(recv_1@, recv_2@),
        decreases left.len() + right.len(),
    {
        let next = if left[0].at <= right[0].at {
            left.pop_front()
        } else {
            right.pop_front()
        };
        if let Some(arrival) = next {
            merged.push_back(arrival);
        }
    }
    merged.append(&mut left);
    merged.append(&mut right);
    proof {
        lemma_merge_keeps_producer_order(recv_1@, recv_2@);
    }
    merged
}

/// Merges the streams of two or more producers: the first two are merged,
/// the result is merged with the third, and so on to the last. Each
/// producer's commands come out in the order in which it sent them.
pub fn combine_multiple_receivers(recvs: Vec<VecDeque<Arrival>>) -> (merged: VecDeque<Arrival>)
    requires
        recvs.len() >= 2,
    ensures
        merged@ == merge_all(streams_of(recvs@)),
        forall|i: int| 0 <= i < recvs.len() ==> keeps_order_of((#[trigger] recvs[i])@, merged@),
{
    let ghost all = streams_of(recvs@);
    let mut rest = recvs;
    let mut merged: VecDeque<Arrival> = VecDeque::new();
    let mut done: usize = 0;
    let total: usize = rest.len();
    while done < total
        invariant
            done <= total == all.len(),
            streams_of(rest@) == all.skip(done as int),
            merged@ == merge_all(all.take(done as int)),
        decreases total - done,
    {
        let ghost before = rest@;
        assert(streams_of(before).len() == before.len());
        let next = rest.remove(0);
        proof {
            assert(streams_of(before)[0] == next@);
            assert forall|k: int| 0 <= k < rest@.len() implies streams_of(rest@)[k] == all.skip(
                done + 1,
            )[k] by {
                assert(streams_of(before)[k + 1] == all.skip(done as int)[k + 1]);
            }
            assert(all.take(done + 1).drop_last() =~= all.take(done as int));
        }
        merged = combine_receivers(merged, next);
        done = done + 1;
    }
    assert forall|i: int| 0 <= i < recvs.len() implies keeps_order_of(
        (#[trigger] recvs[i])@,
        merged@,
    ) by {
        lemma_merge_all_keeps_producer_order(all, i);
    }
    merged
}

} // verus!
