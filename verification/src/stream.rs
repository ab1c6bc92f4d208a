//! What holds of a whole stream of frames, whatever comes in it.

use vstd::prelude::*;

use crate::asr;
use crate::asr::Incoming;
use crate::asr::ReadingModel;
use crate::asr::ServerEventModel;

verus! {

/// The events that the frames announce, in the order of arrival.
pub open spec fn announced(frames: Seq<Incoming>) -> Seq<ServerEventModel> {
    frames.filter(|f: Incoming| asr::reading_of(f) is Event).map_values(
        |f: Incoming| asr::reading_of(f)->Event_0,
    )
}

/// Whether none of the first `count` frames ends the stream.
pub open spec fn unbroken(frames: Seq<Incoming>, count: int) -> bool {
    forall|i: int| 0 <= i < count ==> !(asr::reading_of(#[trigger] frames[i]) is Failed)
}

/// With one more frame there is one more event if the frame announces one.
proof fn lemma_announced_next(frames: Seq<Incoming>, i: int)
    requires
        0 <= i < frames.len(),
    ensures
        announced(frames.take(i + 1)) == match asr::reading_of(frames[i]) {
            ReadingModel::Event(ev) => announced(frames.take(i)).push(ev),
            _ => announced(frames.take(i)),
        },
{
    reveal(Seq::filter);
    let longer = frames.take(i + 1);
    assert(longer.drop_last() =~= frames.take(i));
    assert(longer.last() == frames[i]);
    if let ReadingModel::Event(ev) = asr::reading_of(frames[i]) {
        assert(announced(longer) =~= announced(frames.take(i)).push(ev));
    }
}

proof fn lemma_announced_none(frames: Seq<Incoming>)
    ensures
        announced(frames.take(0)) == Seq::<ServerEventModel>::empty(),
{
    reveal(Seq::filter);
    assert(frames.take(0) =~= Seq::empty());
    assert(announced(frames.take(0)) =~= Seq::empty());
}

/// What is announced at first stays the start of what is announced later.
proof fn lemma_announced_prefix(frames: Seq<Incoming>, i: int, j: int)
    requires
        0 <= i <= j <= frames.len(),
    ensures
        announced(frames.take(i)).len() <= announced(frames.take(j)).len(),
        announced(frames.take(i)) == announced(frames.take(j)).take(
            announced(frames.take(i)).len() as int,
        ),
    decreases j - i,
{
    let early = announced(frames.take(i));
    if i < j {
        lemma_announced_prefix(frames, i, j - 1);
        lemma_announced_next(frames, j - 1);
        assert(announced(frames.take(j)).take(early.len() as int) =~= announced(
            frames.take(j - 1),
        ).take(early.len() as int));
    } else {
        assert(early.take(early.len() as int) =~= early);
    }
}

/// Frames that are skipped announce nothing.
proof fn lemma_skipped(frames: Seq<Incoming>, i: int, j: int)
    requires
        0 <= i <= j <= frames.len(),
        forall|k: int| i <= k < j ==> asr::reading_of(#[trigger] frames[k]) is Skipped,
    ensures
        announced(frames.take(i)) == announced(frames.take(j)),
    decreases j - i,
{
    if i < j {
        lemma_skipped(frames, i, j - 1);
        lemma_announced_next(frames, j - 1);
        assert(asr::reading_of(frames[j - 1]) is Skipped);
    }
}

// ---------------------------------------------------------------------------
// Reading event by event
// ---------------------------------------------------------------------------

/// The frame that the next read comes to when `from` frames have been
/// consumed: the first that is not skipped.
pub open spec fn read_position(frames: Seq<Incoming>, from: int) -> int
    decreases frames.len() - from,
{
    if 0 <= from < frames.len() && asr::reading_of(frames[from]) is Skipped {
        read_position(frames, from + 1)
    } else {
        from
    }
}

/// How many frames `n` reads consume.
pub open spec fn consumed(frames: Seq<Incoming>, n: nat) -> int
    decreases n,
{
    if n == 0 {
        0
    } else {
        read_position(frames, consumed(frames, (n - 1) as nat)) + 1
    }
}

proof fn lemma_read_position(frames: Seq<Incoming>, from: int)
    requires
        0 <= from <= frames.len(),
    ensures
        from <= read_position(frames, from) <= frames.len(),
        forall|k: int|
            from <= k < read_position(frames, from) ==> asr::reading_of(
                #[trigger] frames[k],
            ) is Skipped,
        read_position(frames, from) < frames.len() ==> !(asr::reading_of(
            frames[read_position(frames, from)],
        ) is Skipped),
    decreases frames.len() - from,
{
    if from < frames.len() && asr::reading_of(frames[from]) is Skipped {
        lemma_read_position(frames, from + 1);
    }
}

proof fn lemma_consumed(frames: Seq<Incoming>, count: int, n: nat)
    requires
        0 <= count <= frames.len(),
        unbroken(frames, count),
        n <= announced(frames.take(count)).len(),
    ensures
        0 <= consumed(frames, n) <= count,
        announced(frames.take(consumed(frames, n))) == announced(frames.take(count)).take(n as int),
    decreases n, 0int,
{
    if n == 0 {
        lemma_announced_none(frames);
        assert(announced(frames.take(count)).take(0) =~= Seq::empty());
    } else {
        law_reads_return_each_event_once(frames, count, (n - 1) as nat);
    }
}

/// Reads return every announced event once, in the order of arrival: as long
/// as the stream lasts, the read after `n` others returns event `n`, and has
/// then consumed the frames up to that event's, and no more.
pub proof fn law_reads_return_each_event_once(frames: Seq<Incoming>, count: int, n: nat)
    requires
        0 <= count <= frames.len(),
        unbroken(frames, count),
        n < announced(frames.take(count)).len(),
    ensures
        ({
            let events = announced(frames.take(count));
            let p = read_position(frames, consumed(frames, n));
            &&& 0 <= p < count
            &&& asr::reading_of(frames[p]) == ReadingModel::Event(events[n as int])
            &&& announced(frames.take(p)) == events.take(n as int)
            &&& consumed(frames, n + 1) == p + 1
            &&& announced(frames.take(p + 1)) == events.take((n + 1) as int)
        }),
    decreases n, 1int,
{
    let events = announced(frames.take(count));
    let c = consumed(frames, n);
    lemma_consumed(frames, count, n);
    lemma_read_position(frames, c);
    let p = read_position(frames, c);
    if p >= count {
        lemma_skipped(frames, c, count);
        assert(false);
    }
    lemma_skipped(frames, c, p);
    assert(!(asr::reading_of(frames[p]) is Failed));
    lemma_announced_next(frames, p);
    lemma_announced_prefix(frames, p + 1, count);
    assert(announced(frames.take(p + 1))[n as int] == events[n as int]);
}

/// The end of a stream is read once all events before it have been, and not sooner.
pub proof fn law_end_is_read_after_all_events(frames: Seq<Incoming>, end: int)
    requires
        0 <= end < frames.len(),
        unbroken(frames, end),
        asr::reading_of(frames[end]) is Failed,
    ensures
        read_position(frames, consumed(frames, announced(frames.take(end)).len())) == end,
{
    let n = announced(frames.take(end)).len();
    let c = consumed(frames, n);
    lemma_consumed(frames, end, n);
    lemma_read_position(frames, c);
    let p = read_position(frames, c);
    if p < end {
        lemma_skipped(frames, c, p);
        assert(!(asr::reading_of(frames[p]) is Failed));
        lemma_announced_next(frames, p);
        lemma_announced_prefix(frames, p + 1, end);
        assert(false);
    }
}

// ---------------------------------------------------------------------------
// Passing events on
// ---------------------------------------------------------------------------

/// The events that are passed on of a stream: what [`asr::relayed_event`]
/// gives for each frame, up to the first at which the reader stops.
pub open spec fn relayed_events(frames: Seq<Incoming>) -> Seq<ServerEventModel>
    decreases frames.len(),
{
    if frames.len() == 0 {
        Seq::empty()
    } else {
        let reading = asr::reading_of(frames[0]);
        let event = match asr::relayed_event(reading) {
            Some(ev) => seq![ev],
            None => Seq::empty(),
        };
        if asr::stops_after(reading) {
            event
        } else {
            event + relayed_events(frames.drop_first())
        }
    }
}

/// The index of the first frame at which the reader stops; the number of
/// frames if there is none.
pub open spec fn stop_position(frames: Seq<Incoming>) -> int
    decreases frames.len(),
{
    if frames.len() == 0 || asr::stops_after(asr::reading_of(frames[0])) {
        0
    } else {
        stop_position(frames.drop_first()) + 1
    }
}

/// Each announced event is passed on once, in the order of arrival, up to the
/// first error, which is passed on, too, and is the last: however many frames
/// are skipped in between, and whatever comes after it.
pub proof fn law_events_are_relayed_in_order(frames: Seq<Incoming>)
    ensures
        ({
            let k = stop_position(frames);
            &&& 0 <= k <= frames.len()
            &&& forall|i: int|
                0 <= i < k ==> !asr::stops_after(asr::reading_of(#[trigger] frames[i]))
            &&& if k < frames.len() {
                let last = asr::relayed_event(asr::reading_of(frames[k]));
                &&& asr::stops_after(asr::reading_of(frames[k]))
                &&& last is Some
                &&& last->0 is Error
                &&& relayed_events(frames) == announced(frames.take(k)).push(last->0)
            } else {
                relayed_events(frames) == announced(frames)
            }
        }),
    decreases frames.len(),
{
    let k = stop_position(frames);
    if frames.len() == 0 {
        lemma_announced_none(frames);
        assert(frames.take(0) =~= frames);
    } else if asr::stops_after(asr::reading_of(frames[0])) {
        lemma_announced_none(frames);
        assert(relayed_events(frames) =~= announced(frames.take(0)).push(
            asr::relayed_event(asr::reading_of(frames[0]))->0,
        ));
    } else {
        let rest = frames.drop_first();
        law_events_are_relayed_in_order(rest);
        assert forall|i: int| 0 <= i < k implies !asr::stops_after(
            asr::reading_of(#[trigger] frames[i]),
        ) by {
            if i > 0 {
                assert(frames[i] == rest[i - 1]);
            }
        }
        assert(frames.take(k) =~= seq![frames[0]] + rest.take(k - 1));
        lemma_announced_first(frames[0], rest.take(k - 1));
        if k < frames.len() {
            assert(frames[k] == rest[k - 1]);
            assert(relayed_events(frames) =~= announced(frames.take(k)).push(
                asr::relayed_event(asr::reading_of(frames[k]))->0,
            ));
        } else {
            assert(rest.take(k - 1) =~= rest);
            assert(frames.take(k) =~= frames);
            assert(relayed_events(frames) =~= announced(frames));
        }
    }
}

/// What is announced by a frame and those after it.
proof fn lemma_announced_first(first: Incoming, rest: Seq<Incoming>)
    ensures
        announced(seq![first] + rest) == match asr::reading_of(first) {
            ReadingModel::Event(ev) => seq![ev],
            _ => Seq::empty(),
        } + announced(rest),
{
    let keep = |f: Incoming| asr::reading_of(f) is Event;
    let one = seq![first];
    Seq::filter_distributes_over_add(one, rest, keep);
    assert(announced(one + rest) =~= announced(one) + announced(rest));
    lemma_announced_none(one);
    lemma_announced_next(one, 0);
    assert(one.take(1) =~= one);
    if let ReadingModel::Event(ev) = asr::reading_of(first) {
        assert(announced(one) =~= seq![ev]);
    }
}

} // verus!
