//! Which owned ranges are followed into a normalized or a merged message, and where they lie there.
use crate::diff::{char_operations, span_fits, span_values, DiffSpan};
use crate::rebase::{
    byte_offset, edit_end, edit_len, edit_start, followed_leases, joined_lines, line_head,
    merged_leases, merged_leases_keep_text, owned_texts, parts_owned_texts,
    rebase_over_edits, rebase_submission_leases, rebased_lease, rebased_leases, shift, shifted,
    touches, well_formed_parts, CharOperation, MessagePart, operations_of,
};
use crate::submission::{
    lease_views, LeaseView, NativeComposerSubmission, NativeSubmittedLease,
};
use crate::text::{text_at, text_at_middle, text_at_within, utf8, utf8_concat};
use vstd::prelude::*;
use vstd::string::*;

verus! {

/// The byte at which character `index` of `text` stands.
pub open spec fn byte_at(text: Seq<char>, index: int) -> int {
    utf8(text.take(index)).len() as int
}

/// The first `count` spans stand side by side: each begins on both sides where the one before
/// ends, and one that says that nothing changes covers the same characters on both sides.
pub open spec fn side_by_side(
    old: Seq<char>,
    new: Seq<char>,
    spans: Seq<DiffSpan>,
    count: int,
) -> bool {
    forall|i: int|
        0 <= i < count ==> {
            let span = #[trigger] spans[i];
            &&& span_fits(span, old.len() as int, new.len() as int)
            &&& span.old.start == old_reached(spans, i)
            &&& span.new.start == new_reached(spans, i)
            &&& span.equal ==> old.subrange(span.old.start as int, span.old.end as int)
                == new.subrange(span.new.start as int, span.new.end as int)
        }
}

/// The character of the old text behind the first `count` spans.
pub open spec fn old_reached(spans: Seq<DiffSpan>, count: int) -> int {
    if count <= 0 {
        0
    } else {
        spans[count - 1].old.end as int
    }
}

/// The character of the new text behind the first `count` spans.
pub open spec fn new_reached(spans: Seq<DiffSpan>, count: int) -> int {
    if count <= 0 {
        0
    } else {
        spans[count - 1].new.end as int
    }
}

/// The first `count` spans end at or before byte `start` of the old text, and what changes behind
/// them begins at byte `end` or behind it.
pub open spec fn edits_around(
    old: Seq<char>,
    spans: Seq<DiffSpan>,
    count: int,
    start: int,
    end: int,
) -> bool {
    &&& 0 <= count <= spans.len()
    &&& forall|i: int|
        0 <= i < count ==> byte_at(old, (#[trigger] spans[i]).old.end as int) <= start
    &&& forall|i: int|
        count <= i < spans.len() && !(#[trigger] spans[i]).equal ==> end <= byte_at(
            old,
            spans[i].old.start as int,
        )
}

/// How far the text behind the first `count` spans is moved: the bytes before it in the new text
/// less those before it in the old one.
pub open spec fn moved_by(
    old: Seq<char>,
    new: Seq<char>,
    spans: Seq<DiffSpan>,
    count: int,
) -> int {
    byte_at(new, new_reached(spans, count)) - byte_at(old, old_reached(spans, count))
}

proof fn byte_at_grows(text: Seq<char>, i: int, j: int)
    requires
        0 <= i <= j <= text.len(),
    ensures
        0 <= byte_at(text, i) <= byte_at(text, j) <= utf8(text).len(),
        byte_at(text, j) - byte_at(text, i) == utf8(text.subrange(i, j)).len(),
{
    assert(text.take(j) =~= text.take(i) + text.subrange(i, j));
    utf8_concat(text.take(i), text.subrange(i, j));
    assert(text =~= text.take(j) + text.subrange(j, text.len() as int));
    utf8_concat(text.take(j), text.subrange(j, text.len() as int));
}

proof fn shift_is_moved_by(
    old: Seq<char>,
    new: Seq<char>,
    spans: Seq<DiffSpan>,
    count: int,
    start: int,
    end: int,
    upto: int,
)
    requires
        side_by_side(old, new, spans, count),
        edits_around(old, spans, count, start, end),
        forall|i: int|
            0 <= i < spans.len() ==> span_fits(
                #[trigger] spans[i],
                old.len() as int,
                new.len() as int,
            ),
        start < end,
        0 <= upto <= spans.len(),
    ensures
        shift(old, new, operations_of(spans), start, upto) == moved_by(
            old,
            new,
            spans,
            if upto < count {
                upto
            } else {
                count
            },
        ),
    decreases upto,
{
    if upto == 0 {
        assert(old.take(0) =~= Seq::<char>::empty());
        assert(new.take(0) =~= Seq::<char>::empty());
    } else {
        shift_is_moved_by(old, new, spans, count, start, end, upto - 1);
        let span = spans[upto - 1];
        let operation = operations_of(spans)[upto - 1];
        assert(operation == span_values(span));
        byte_at_grows(old, span.old.start as int, span.old.end as int);
        byte_at_grows(new, span.new.start as int, span.new.end as int);
        if upto <= count {
            assert(byte_at(old, span.old.end as int) <= start);
        } else if !span.equal {
            assert(end <= byte_at(old, span.old.start as int));
        }
    }
}

proof fn untouched_lease(
    old: Seq<char>,
    new: Seq<char>,
    spans: Seq<DiffSpan>,
    count: int,
    lease: LeaseView,
)
    requires
        side_by_side(old, new, spans, count),
        edits_around(old, spans, count, lease.start, lease.end),
        forall|i: int|
            0 <= i < spans.len() ==> span_fits(
                #[trigger] spans[i],
                old.len() as int,
                new.len() as int,
            ),
        lease.start < lease.end,
        text_at(old, lease.start, lease.end) is Some,
        text_at(
            new,
            lease.start + moved_by(old, new, spans, count),
            lease.end + moved_by(old, new, spans, count),
        ) == text_at(old, lease.start, lease.end),
    ensures
        rebased_lease(old, new, operations_of(spans), lease) == Some(
            LeaseView {
                native: lease.native,
                start: lease.start + moved_by(old, new, spans, count),
                end: lease.end + moved_by(old, new, spans, count),
            },
        ),
{
    let operations = operations_of(spans);
    shift_is_moved_by(
        old,
        new,
        spans,
        count,
        lease.start,
        lease.end,
        spans.len() as int,
    );
    assert forall|i: int| 0 <= i < operations.len() implies !touches(
        old,
        #[trigger] operations[i],
        lease.start,
        lease.end,
    ) by {
        let span = spans[i];
        assert(operations[i] == span_values(span));
        if i < count {
            assert(byte_at(old, span.old.end as int) <= lease.start);
        } else if !span.equal {
            assert(lease.end <= byte_at(old, span.old.start as int));
        }
    }
}

proof fn each_rebased(
    old: Seq<char>,
    new: Seq<char>,
    operations: Seq<CharOperation>,
    leases: Seq<LeaseView>,
)
    requires
        forall|i: int|
            0 <= i < leases.len() ==> rebased_lease(
                old,
                new,
                operations,
                #[trigger] leases[i],
            ) is Some,
    ensures
        rebased_leases(old, new, operations, leases) is Some,
        rebased_leases(old, new, operations, leases)->0.len() == leases.len(),
        forall|i: int|
            0 <= i < leases.len() ==> rebased_leases(old, new, operations, leases)->0[i]
                == rebased_lease(old, new, operations, #[trigger] leases[i])->0,
    decreases leases.len(),
{
    if leases.len() > 0 {
        let earlier = leases.drop_last();
        assert forall|i: int| 0 <= i < earlier.len() implies rebased_lease(
            old,
            new,
            operations,
            #[trigger] earlier[i],
        ) is Some by {
            assert(earlier[i] == leases[i]);
        }
        each_rebased(old, new, operations, earlier);
        assert(rebased_lease(old, new, operations, leases[leases.len() - 1]) is Some);
        assert forall|i: int| 0 <= i < leases.len() implies rebased_leases(
            old,
            new,
            operations,
            leases,
        )->0[i] == rebased_lease(old, new, operations, #[trigger] leases[i])->0 by {
            if i < earlier.len() {
                assert(earlier[i] == leases[i]);
            }
        }
    }
}

proof fn one_unfollowed(
    old: Seq<char>,
    new: Seq<char>,
    operations: Seq<CharOperation>,
    leases: Seq<LeaseView>,
    i: int,
)
    requires
        0 <= i < leases.len(),
        rebased_lease(old, new, operations, leases[i]) is None,
    ensures
        rebased_leases(old, new, operations, leases) is None,
    decreases leases.len(),
{
    if i < leases.len() - 1 {
        assert(leases.drop_last()[i] == leases[i]);
        one_unfollowed(old, new, operations, leases.drop_last(), i);
    }
}

/// Owned ranges that no edit intersects are followed: where each edit ends at or before a range's
/// start or begins at or behind its end, and the range, moved by as many bytes as the text before
/// it has grown, still holds the owned text, that moved range is owned in the new text. `counts`
/// tells how many spans lie before each range.
pub proof fn untouched_ranges_are_followed(
    old: &str,
    new: &str,
    spans: Vec<DiffSpan>,
    leases: Vec<NativeSubmittedLease>,
    counts: Seq<int>,
    rebased: Option<Vec<NativeSubmittedLease>>,
)
    requires
        forall|i: int|
            0 <= i < spans@.len() ==> span_fits(
                #[trigger] spans@[i],
                old@.len() as int,
                new@.len() as int,
            ),
        counts.len() == leases@.len(),
        forall|k: int|
            0 <= k < leases@.len() ==> {
                let range = (#[trigger] leases@[k]).range;
                let grown = moved_by(old@, new@, spans@, counts[k]);
                &&& range.start < range.end
                &&& side_by_side(old@, new@, spans@, counts[k])
                &&& edits_around(old@, spans@, counts[k], range.start as int, range.end as int)
                &&& text_at(old@, range.start as int, range.end as int) is Some
                &&& text_at(new@, range.start + grown, range.end + grown) == text_at(
                    old@,
                    range.start as int,
                    range.end as int,
                )
            },
        call_ensures(rebase_over_edits, (old, new, &spans, &leases), rebased),
    ensures
        rebased is Some,
        rebased->0@.len() == leases@.len(),
        forall|k: int|
            0 <= k < leases@.len() ==> {
                let grown = moved_by(old@, new@, spans@, counts[k]);
                &&& rebased->0@[k].native == (#[trigger] leases@[k]).native
                &&& rebased->0@[k].range.start == leases@[k].range.start + grown
                &&& rebased->0@[k].range.end == leases@[k].range.end + grown
            },
{
    let views = lease_views(leases@);
    let operations = operations_of(spans@);
    assert forall|k: int| 0 <= k < views.len() implies rebased_lease(
        old@,
        new@,
        operations,
        #[trigger] views[k],
    ) is Some by {
        assert(views[k] == leases@[k]@);
        untouched_lease(old@, new@, spans@, counts[k], views[k]);
    }
    each_rebased(old@, new@, operations, views);
    assert(lease_views(rebased->0@).len() == leases@.len());
    assert forall|k: int| 0 <= k < leases@.len() implies {
        let grown = moved_by(old@, new@, spans@, counts[k]);
        &&& rebased->0@[k].native == (#[trigger] leases@[k]).native
        &&& rebased->0@[k].range.start == leases@[k].range.start + grown
        &&& rebased->0@[k].range.end == leases@[k].range.end + grown
    } by {
        assert(views[k] == leases@[k]@);
        assert(lease_views(rebased->0@)[k] == rebased->0@[k]@);
        untouched_lease(old@, new@, spans@, counts[k], views[k]);
    }
}

/// An owned range that lies in a stretch which both texts share is always followed, to the same
/// distance from the start of that stretch in the new text.
pub proof fn a_shared_stretch_is_followed(
    old: &str,
    new: &str,
    spans: Vec<DiffSpan>,
    lease: NativeSubmittedLease,
    leases: Vec<NativeSubmittedLease>,
    at: int,
    rebased: Option<Vec<NativeSubmittedLease>>,
)
    requires
        side_by_side(old@, new@, spans@, spans@.len() as int),
        0 <= at < spans@.len(),
        spans@[at].equal,
        text_at(old@, lease.range.start as int, lease.range.end as int) is Some,
        byte_at(old@, spans@[at].old.start as int) <= lease.range.start < lease.range.end
            <= byte_at(old@, spans@[at].old.end as int),
        leases@ == seq![lease],
        call_ensures(rebase_over_edits, (old, new, &spans, &leases), rebased),
    ensures
        rebased is Some,
        rebased->0@.len() == 1,
        rebased->0@[0].native == lease.native,
        rebased->0@[0].range.start - byte_at(new@, spans@[at].new.start as int)
            == lease.range.start - byte_at(old@, spans@[at].old.start as int),
        rebased->0@[0].range.end - rebased->0@[0].range.start == lease.range.end
            - lease.range.start,
        text_at(
            new@,
            rebased->0@[0].range.start as int,
            rebased->0@[0].range.end as int,
        ) == text_at(old@, lease.range.start as int, lease.range.end as int),
{
    let span = spans@[at];
    let start = lease.range.start as int;
    let end = lease.range.end as int;
    assert forall|i: int| 0 <= i < spans@.len() implies span_fits(
        #[trigger] spans@[i],
        old@.len() as int,
        new@.len() as int,
    ) by {}
    assert forall|i: int| 0 <= i < at implies byte_at(
        old@,
        (#[trigger] spans@[i]).old.end as int,
    ) <= start by {
        spans_follow(old@, new@, spans@, i, at);
        byte_at_grows(old@, spans@[i].old.end as int, span.old.start as int);
    }
    assert forall|i: int| at <= i < spans@.len() && !(#[trigger] spans@[i]).equal implies end
        <= byte_at(old@, spans@[i].old.start as int) by {
        spans_follow(old@, new@, spans@, at, i);
        byte_at_grows(old@, span.old.end as int, spans@[i].old.start as int);
    }
    let grown = moved_by(old@, new@, spans@, at);
    stretch_keeps_text(old@, new@, span, start, end);
    assert(grown == byte_at(new@, span.new.start as int) - byte_at(old@, span.old.start as int));
    let counts = seq![at];
    assert forall|k: int| 0 <= k < leases@.len() implies {
        let range = (#[trigger] leases@[k]).range;
        let grown = moved_by(old@, new@, spans@, counts[k]);
        &&& range.start < range.end
        &&& side_by_side(old@, new@, spans@, counts[k])
        &&& edits_around(old@, spans@, counts[k], range.start as int, range.end as int)
        &&& text_at(old@, range.start as int, range.end as int) is Some
        &&& text_at(new@, range.start + grown, range.end + grown) == text_at(
            old@,
            range.start as int,
            range.end as int,
        )
    } by {
        assert(leases@[k] == lease);
    }
    untouched_ranges_are_followed(old, new, spans, leases, counts, rebased);
    assert(leases@[0] == lease);
}

/// Spans that stand side by side come one behind another in the old text.
proof fn spans_follow(old: Seq<char>, new: Seq<char>, spans: Seq<DiffSpan>, i: int, j: int)
    requires
        side_by_side(old, new, spans, spans.len() as int),
        0 <= i <= j < spans.len(),
    ensures
        i < j ==> spans[i].old.end <= spans[j].old.start,
        spans[j].old.start <= old.len(),
    decreases j - i,
{
    assert(span_fits(spans[j], old.len() as int, new.len() as int));
    if i + 1 < j {
        spans_follow(old, new, spans, i, j - 1);
        assert(span_fits(spans[j - 1], old.len() as int, new.len() as int));
        assert(spans[j].old.start == old_reached(spans, j));
    } else if i < j {
        assert(spans[j].old.start == old_reached(spans, j));
    }
}

/// Text in a shared stretch stands in both texts, as far behind the stretch's start.
proof fn stretch_keeps_text(
    old: Seq<char>,
    new: Seq<char>,
    span: DiffSpan,
    start: int,
    end: int,
)
    requires
        span_fits(span, old.len() as int, new.len() as int),
        old.subrange(span.old.start as int, span.old.end as int) == new.subrange(
            span.new.start as int,
            span.new.end as int,
        ),
        text_at(old, start, end) is Some,
        byte_at(old, span.old.start as int) <= start <= end <= byte_at(old, span.old.end as int),
    ensures
        ({
            let grown = byte_at(new, span.new.start as int) - byte_at(old, span.old.start as int);
            text_at(new, start + grown, end + grown) == text_at(old, start, end)
        }),
{
    let from = span.old.start as int;
    let to = span.old.end as int;
    let head = old.take(from);
    let stretch = old.subrange(from, to);
    let tail = old.subrange(to, old.len() as int);
    let new_head = new.take(span.new.start as int);
    let new_tail = new.subrange(span.new.end as int, new.len() as int);
    assert(old =~= head + stretch + tail);
    assert(new =~= new_head + stretch + new_tail);
    byte_at_grows(old, from, to);
    let base = utf8(head).len() as int;
    text_at_inside(head, stretch, tail, start - base, end - base);
    text_at_within(head, stretch, tail, start - base, end - base);
    text_at_within(new_head, stretch, new_tail, start - base, end - base);
}

/// A range that lies in the middle of a text is a range of that middle.
proof fn text_at_inside(head: Seq<char>, text: Seq<char>, tail: Seq<char>, start: int, end: int)
    requires
        0 <= start <= end <= utf8(text).len(),
        text_at(head + text + tail, utf8(head).len() + start, utf8(head).len() + end) is Some,
    ensures
        text_at(text, start, end) is Some,
{
    let whole = head + text + tail;
    utf8_concat(head, text);
    utf8_concat(head + text, tail);
    boundary_inside(head, text, tail, start);
    boundary_inside(head, text, tail, end);
}

proof fn boundary_inside(head: Seq<char>, text: Seq<char>, tail: Seq<char>, at: int)
    requires
        0 <= at <= utf8(text).len(),
        vstd::utf8::is_char_boundary(utf8(head + text + tail), utf8(head).len() + at),
    ensures
        vstd::utf8::is_char_boundary(utf8(text), at),
{
    let whole = head + text + tail;
    utf8_concat(head, text);
    utf8_concat(head + text, tail);
    assert(vstd::utf8::valid_utf8(utf8(text)) && vstd::utf8::valid_utf8(utf8(whole))) by {
        reveal(utf8);
        vstd::utf8::encode_utf8_valid_utf8(text);
        vstd::utf8::encode_utf8_valid_utf8(whole);
    }
    if at == 0 || at == utf8(text).len() {
        vstd::utf8::is_char_boundary_start_end_of_seq(utf8(text));
    } else {
        assert(utf8(whole)[utf8(head).len() + at] == utf8(text)[at]);
        vstd::utf8::is_char_boundary_iff_not_is_continuation_byte(
            utf8(whole),
            utf8(head).len() + at,
        );
        vstd::utf8::is_char_boundary_iff_not_is_continuation_byte(utf8(text), at);
    }
}

/// Where all edits begin at or behind the end of an owned range whose text still stands there, the
/// range stays where it was.
pub proof fn edits_behind_a_range_leave_it(
    old: &str,
    new: &str,
    spans: Vec<DiffSpan>,
    leases: Vec<NativeSubmittedLease>,
    rebased: Option<Vec<NativeSubmittedLease>>,
)
    requires
        forall|i: int|
            0 <= i < spans@.len() ==> span_fits(
                #[trigger] spans@[i],
                old@.len() as int,
                new@.len() as int,
            ),
        forall|k: int, i: int|
            #![trigger leases@[k], spans@[i]]
            0 <= k < leases@.len() && 0 <= i < spans@.len() && !spans@[i].equal
                ==> leases@[k].range.end <= byte_at(old@, spans@[i].old.start as int),
        forall|k: int|
            0 <= k < leases@.len() ==> {
                let range = (#[trigger] leases@[k]).range;
                &&& range.start < range.end
                &&& text_at(old@, range.start as int, range.end as int) is Some
                &&& text_at(new@, range.start as int, range.end as int) == text_at(
                    old@,
                    range.start as int,
                    range.end as int,
                )
            },
        call_ensures(rebase_over_edits, (old, new, &spans, &leases), rebased),
    ensures
        rebased is Some,
        rebased->0@.len() == leases@.len(),
        forall|k: int| 0 <= k < leases@.len() ==> rebased->0@[k] == #[trigger] leases@[k],
{
    let counts = Seq::new(leases@.len(), |k: int| 0int);
    assert(old@.take(0) =~= Seq::<char>::empty());
    assert(new@.take(0) =~= Seq::<char>::empty());
    assert(moved_by(old@, new@, spans@, 0) == 0);
    untouched_ranges_are_followed(old, new, spans, leases, counts, rebased);
    assert forall|k: int| 0 <= k < leases@.len() implies rebased->0@[k]
        == #[trigger] leases@[k] by {
        assert(rebased->0@[k].range.start == leases@[k].range.start);
    }
}

/// An edit that takes bytes out of an owned range, or puts bytes inside it, fails closed: nothing
/// is followed.
pub proof fn an_edit_of_owned_text_fails_closed(
    old: &str,
    new: &str,
    spans: Vec<DiffSpan>,
    leases: Vec<NativeSubmittedLease>,
    k: int,
    i: int,
    rebased: Option<Vec<NativeSubmittedLease>>,
)
    requires
        forall|j: int|
            0 <= j < spans@.len() ==> span_fits(
                #[trigger] spans@[j],
                old@.len() as int,
                new@.len() as int,
            ),
        0 <= k < leases@.len(),
        0 <= i < spans@.len(),
        !spans@[i].equal,
        byte_at(old@, spans@[i].old.start as int) < leases@[k].range.end,
        leases@[k].range.start < byte_at(old@, spans@[i].old.end as int),
        call_ensures(rebase_over_edits, (old, new, &spans, &leases), rebased),
    ensures
        rebased is None,
{
    let operations = operations_of(spans@);
    let views = lease_views(leases@);
    assert(views[k] == leases@[k]@);
    assert(operations[i] == span_values(spans@[i]));
    assert(touches(old@, operations[i], views[k].start, views[k].end));
    one_unfollowed(old@, new@, operations, views, k);
}

/// A message that was not changed keeps its owned ranges.
pub proof fn an_unchanged_message_keeps_its_ranges(
    submission: NativeComposerSubmission,
    remapped: &str,
    rebased: Option<Vec<NativeSubmittedLease>>,
)
    requires
        submission.submitted_text@ == remapped@,
        call_ensures(rebase_submission_leases, (&submission, remapped), rebased),
    ensures
        rebased is Some,
        rebased->0@ == submission.leases@,
{
    let after = rebased->0@;
    assert(lease_views(after) == lease_views(submission.leases@));
    assert(lease_views(after).len() == after.len());
    assert(lease_views(submission.leases@).len() == submission.leases@.len());
    assert forall|i: int| 0 <= i < after.len() implies after[i] == submission.leases@[i] by {
        assert(lease_views(after)[i] == after[i]@);
        assert(lease_views(submission.leases@)[i] == submission.leases@[i]@);
    }
    assert(after =~= submission.leases@);
}

/// What is owned of a part is owned of a message that was not changed since.
pub open spec fn is_unchanged(part: MessagePart) -> bool {
    part.1 matches Some(submission) ==> submission.submitted_text@ == part.0@
}

/// The owned ranges of the first parts do not depend on those behind them.
proof fn merged_prefix(some: Seq<MessagePart>, more: Seq<MessagePart>, count: int)
    requires
        0 <= count <= some.len() <= more.len(),
        forall|i: int| 0 <= i < some.len() ==> some[i] == #[trigger] more[i],
    ensures
        merged_leases(some, count) == merged_leases(more, count),
    decreases count,
{
    if count > 0 {
        merged_prefix(some, more, count - 1);
        assert(some[count - 1] == more[count - 1]);
        assert(some.take(count - 1) =~= more.take(count - 1));
    }
}

/// A part that is added to a merged message goes behind it, on a line of its own: what was owned
/// stays where it was, and what the part owns lies behind the message and a line break, as far
/// into the part as it was.
pub proof fn a_part_is_added_behind(
    parts: Vec<MessagePart>,
    longer: Vec<MessagePart>,
    part: MessagePart,
    text: &str,
    longer_text: &str,
    merged: NativeComposerSubmission,
    longer_merged: NativeComposerSubmission,
)
    requires
        parts@.len() > 0,
        longer@ == parts@.push(part),
        is_unchanged(part),
        call_ensures(NativeComposerSubmission::merge_parts, (parts, text), Some(merged)),
        call_ensures(
            NativeComposerSubmission::merge_parts,
            (longer, longer_text),
            Some(longer_merged),
        ),
    ensures
        longer_text@ == text@ + "\n"@ + part.0@,
        longer_merged.submitted_text@ == longer_text@,
        longer_merged.leases@.len() == merged.leases@.len() + (match part.1 {
            Some(submission) => submission.leases@.len(),
            None => 0,
        }),
        forall|i: int|
            0 <= i < merged.leases@.len() ==> longer_merged.leases@[i]@ == (
            #[trigger] merged.leases@[i])@,
        part.1 matches Some(submission) ==> forall|i: int|
            0 <= i < submission.leases@.len() ==> {
                let before = (#[trigger] submission.leases@[i])@;
                let after = longer_merged.leases@[merged.leases@.len() + i]@;
                &&& after.native == before.native
                &&& after.start == utf8(text@).len() + 1 + before.start
                &&& after.end == utf8(text@).len() + 1 + before.end
            },
{
    let n = parts@.len() as int;
    assert(longer@.drop_last() =~= parts@);
    assert(longer@.take(n) =~= parts@);
    assert(parts@.take(n) =~= parts@);
    merged_prefix(parts@, longer@, n);
    crate::rebase::newline_byte();
    utf8_concat(text@, "\n"@);
    assert(line_head(longer@, n) == text@ + "\n"@);
    let earlier = lease_views(merged.leases@);
    let all = lease_views(longer_merged.leases@);
    assert(merged_leases(longer@, n) == Some(earlier));
    assert forall|i: int| 0 <= i < merged.leases@.len() implies longer_merged.leases@[i]@ == (
    #[trigger] merged.leases@[i])@ by {
        assert(earlier[i] == merged.leases@[i]@);
        assert(all[i] == earlier[i]);
        assert(all[i] == longer_merged.leases@[i]@);
    }
    assert(all.len() == longer_merged.leases@.len());
    assert(earlier.len() == merged.leases@.len());
    match part.1 {
        Some(submission) => {
            let own = lease_views(submission.leases@);
            let offset = utf8(text@).len() + 1;
            assert(longer@[n] == part);
            assert(followed_leases(submission@, part.0@) == Some(own));
            assert(all == earlier + shifted(own, offset as int));
            assert(own.len() == submission.leases@.len());
            assert forall|i: int| 0 <= i < submission.leases@.len() implies {
                let before = (#[trigger] submission.leases@[i])@;
                let after = longer_merged.leases@[merged.leases@.len() + i]@;
                &&& after.native == before.native
                &&& after.start == utf8(text@).len() + 1 + before.start
                &&& after.end == utf8(text@).len() + 1 + before.end
            } by {
                let at = merged.leases@.len() + i;
                assert(all[at] == longer_merged.leases@[at]@);
                assert(own[i] == submission.leases@[i]@);
                assert(all[at] == shifted(own, offset as int)[i]);
            }
        },
        None => {
            assert(longer@[n] == part);
            assert(all == earlier);
        },
    }
}

proof fn unchanged_parts_follow(parts: Seq<MessagePart>, count: int)
    requires
        0 <= count <= parts.len(),
        forall|i: int| 0 <= i < parts.len() ==> is_unchanged(#[trigger] parts[i]),
    ensures
        merged_leases(parts, count) is Some,
        forall|i: int|
            0 <= i < count && (#[trigger] parts[i]).1 is Some && parts[i].1->0.leases@.len() > 0
                ==> merged_leases(parts, count)->0.len() > 0,
    decreases count,
{
    if count > 0 {
        unchanged_parts_follow(parts, count - 1);
        assert(is_unchanged(parts[count - 1]));
        if let Some(submission) = parts[count - 1].1 {
            assert(lease_views(submission.leases@).len() == submission.leases@.len());
            assert(followed_leases(submission@, parts[count - 1].0@) == Some(
                lease_views(submission.leases@),
            ));
        }
    }
}

/// Messages of one thread that were not changed since they were submitted are merged, if anything
/// is owned of them, and the merged message owns exactly what they own, in order.
pub proof fn unchanged_messages_are_merged(
    parts: Vec<MessagePart>,
    text: &str,
    merged: Option<NativeComposerSubmission>,
    owner: int,
)
    requires
        well_formed_parts(parts@),
        forall|i: int| 0 <= i < parts@.len() ==> is_unchanged(#[trigger] parts@[i]),
        forall|i: int|
            0 <= i < parts@.len() && (#[trigger] parts@[i]).1 is Some
                ==> parts@[i].1->0.direct_lease_id is None,
        forall|i: int, j: int|
            0 <= i < j < parts@.len() && (#[trigger] parts@[i]).1 is Some && (
            #[trigger] parts@[j]).1 is Some ==> parts@[i].1->0.thread_id@
                == parts@[j].1->0.thread_id@,
        text@ == joined_lines(parts@),
        0 <= owner < parts@.len(),
        parts@[owner].1 is Some,
        parts@[owner].1->0.leases@.len() > 0,
        call_ensures(NativeComposerSubmission::merge_parts, (parts, text), merged),
    ensures
        merged is Some,
        merged->0.submitted_text@ == text@,
        merged->0.thread_id@ == parts@[owner].1->0.thread_id@,
        merged->0.direct_lease_id is None,
        owned_texts(text@, lease_views(merged->0.leases@)) == parts_owned_texts(
            parts@,
            parts@.len() as int,
        ),
{
    unchanged_parts_follow(parts@, parts@.len() as int);
    assert(merged_leases(parts@, parts@.len() as int)->0.len() > 0);
    assert(crate::rebase::none_direct(parts@));
    assert(crate::rebase::one_thread(parts@));
    assert(crate::rebase::mergeable(parts@, text@));
    merged_leases_keep_text(parts@, parts@.len() as int);
}

/// Nothing is merged that is not what the messages read one per line, that was sent without a
/// composer, or that belongs to two threads.
pub proof fn foreign_messages_are_not_merged(
    parts: Vec<MessagePart>,
    text: &str,
    merged: Option<NativeComposerSubmission>,
    i: int,
    j: int,
)
    requires
        call_ensures(NativeComposerSubmission::merge_parts, (parts, text), merged),
        0 <= i < parts@.len(),
        0 <= j < parts@.len(),
    ensures
        text@ != joined_lines(parts@) ==> merged is None,
        parts@[i].1 is Some && parts@[i].1->0.direct_lease_id is Some ==> merged is None,
        parts@[i].1 is Some && parts@[j].1 is Some && parts@[i].1->0.thread_id@
            != parts@[j].1->0.thread_id@ ==> merged is None,
        merged is Some ==> merged->0.leases@.len() > 0,
        merged matches Some(submission) ==> {
            &&& submission.submitted_text@ == text@
            &&& submission.direct_lease_id is None
            &&& crate::ids::is_version_4(submission.submission_id)
            &&& submission@.well_formed()
            &&& parts@[i].1 is Some ==> submission.thread_id@ == parts@[i].1->0.thread_id@
        },
{
    if merged is Some {
        assert(lease_views(merged->0.leases@).len() == merged->0.leases@.len());
    }
}

/// A line break stands between the parts, and nothing else: one part is the message, and a further
/// part goes behind a line break.
pub proof fn parts_are_lines(parts: Seq<MessagePart>, part: MessagePart)
    ensures
        joined_lines(seq![part]) == part.0@,
        parts.len() > 0 ==> joined_lines(parts.push(part)) == joined_lines(parts) + "\n"@ + part.0@,
{
    assert(parts.push(part).drop_last() =~= parts);
}

/// A message whose owned text no edit reaches keeps its provenance when it is normalized, such as
/// one whose image placeholders, behind the owned text, are numbered anew: the same bytes are owned.
pub proof fn edits_behind_owned_text_do_not_matter(
    submission: NativeComposerSubmission,
    text: String,
    parts: Vec<MessagePart>,
    merged_text: &str,
    merged: Option<NativeComposerSubmission>,
)
    requires
        submission@.well_formed(),
        merged_text@ == text@,
        submission.leases@.len() > 0,
        submission.direct_lease_id is None,
        parts@ == seq![(text, Some(submission))],
        forall|k: int|
            0 <= k < submission.leases@.len() ==> {
                let range = (#[trigger] submission.leases@[k]).range;
                &&& range.start < range.end
                &&& text_at(text@, range.start as int, range.end as int) == text_at(
                    submission.submitted_text@,
                    range.start as int,
                    range.end as int,
                )
            },
        forall|k: int, i: int|
            #![trigger submission.leases@[k], char_operations(submission.submitted_text@, text@)[i]]
            0 <= k < submission.leases@.len() && 0 <= i < char_operations(
                submission.submitted_text@,
                text@,
            ).len() && !char_operations(submission.submitted_text@, text@)[i].0 ==> {
                let edit = char_operations(submission.submitted_text@, text@)[i];
                &&& edit.1.0 <= edit.1.1 <= submission.submitted_text@.len()
                &&& submission.leases@[k].range.end <= byte_at(
                    submission.submitted_text@,
                    edit.1.0 as int,
                )
            },
        call_ensures(
            NativeComposerSubmission::merge_parts,
            (parts, merged_text),
            merged,
        ),
    ensures
        merged is Some,
        merged->0.submitted_text@ == text@,
        lease_views(merged->0.leases@) == lease_views(submission.leases@),
{
    let old = submission.submitted_text@;
    let operations = char_operations(old, text@);
    let views = lease_views(submission.leases@);
    if old != text@ {
        assert forall|k: int| 0 <= k < views.len() implies rebased_lease(
            old,
            text@,
            operations,
            #[trigger] views[k],
        ) == Some(views[k]) by {
            assert(views[k] == submission.leases@[k]@);
            unmoved(old, text@, operations, views[k], operations.len() as int);
            assert(text_at(old, views[k].start, views[k].end) is Some);
        }
        each_rebased(old, text@, operations, views);
        let after = rebased_leases(old, text@, operations, views)->0;
        assert forall|k: int| 0 <= k < views.len() implies after[k] == views[k] by {
            assert(rebased_lease(old, text@, operations, views[k]) == Some(views[k]));
        }
        assert(after =~= views);
    }
    assert(followed_leases(submission@, text@) == Some(views));
    assert(parts@[0].1 == Some(submission) && parts@[0].0 == text);
    crate::text::utf8_empty();
    assert(merged_leases(parts@, 0) == Some(Seq::<LeaseView>::empty()));
    assert(Seq::<LeaseView>::empty() + shifted(views, 0) =~= views);
    assert(merged_leases(parts@, 1) == Some(views));
    assert(views.len() == submission.leases@.len());
    assert(crate::rebase::mergeable(parts@, text@));
}

proof fn unmoved(
    old: Seq<char>,
    new: Seq<char>,
    operations: Seq<CharOperation>,
    lease: LeaseView,
    count: int,
)
    requires
        0 <= count <= operations.len(),
        lease.start < lease.end,
        forall|i: int|
            0 <= i < operations.len() && !(#[trigger] operations[i]).0 ==> {
                &&& operations[i].1.0 <= operations[i].1.1 <= old.len()
                &&& lease.end <= byte_at(old, operations[i].1.0 as int)
            },
    ensures
        shift(old, new, operations, lease.start, count) == 0,
    decreases count,
{
    if count > 0 {
        unmoved(old, new, operations, lease, count - 1);
        let operation = operations[count - 1];
        if !operation.0 {
            byte_at_grows(old, operation.1.0 as int, operation.1.1 as int);
        }
    }
}

/// The owned ranges of a message that was changed are followed over the edits that turn what was
/// submitted into what is sent.
pub proof fn a_changed_message_is_followed_over_its_edits(
    submission: NativeComposerSubmission,
    old: &str,
    new: &str,
    spans: Vec<DiffSpan>,
    over_edits: Option<Vec<NativeSubmittedLease>>,
    rebased: Option<Vec<NativeSubmittedLease>>,
)
    requires
        submission.submitted_text@ == old@,
        old@ != new@,
        operations_of(spans@) == char_operations(old@, new@),
        call_ensures(rebase_over_edits, (old, new, &spans, &submission.leases), over_edits),
        call_ensures(rebase_submission_leases, (&submission, new), rebased),
    ensures
        rebased is Some <==> over_edits is Some,
        rebased is Some ==> lease_views(rebased->0@) == lease_views(over_edits->0@),
{
}

/// One message that is sent by itself is merged exactly where it was written in the composer and
/// some owned range is left when its ranges are followed; these are what is owned of it.
pub proof fn one_message_is_merged_as_it_is_followed(
    submission: NativeComposerSubmission,
    text: String,
    remapped: &str,
    parts: Vec<MessagePart>,
    rebased: Option<Vec<NativeSubmittedLease>>,
    merged: Option<NativeComposerSubmission>,
)
    requires
        submission@.well_formed(),
        parts@ == seq![(text, Some(submission))],
        remapped@ == text@,
        call_ensures(rebase_submission_leases, (&submission, remapped), rebased),
        call_ensures(NativeComposerSubmission::merge_parts, (parts, remapped), merged),
    ensures
        merged is Some <==> submission.direct_lease_id is None && rebased is Some
            && rebased->0@.len() > 0,
        merged is Some ==> lease_views(merged->0.leases@) == lease_views(rebased->0@),
        merged is Some ==> merged->0.thread_id@ == submission.thread_id@,
{
    assert(parts@[0].1 == Some(submission) && parts@[0].0 == text);
    crate::text::utf8_empty();
    assert(merged_leases(parts@, 0) == Some(Seq::<LeaseView>::empty()));
    assert(joined_lines(parts@) == text@);
    if rebased is Some {
        let views = lease_views(rebased->0@);
        assert(views.len() == rebased->0@.len());
        assert(Seq::<LeaseView>::empty() + shifted(views, 0) =~= views);
        assert(merged_leases(parts@, 1) == Some(views));
    } else {
        assert(merged_leases(parts@, 1) is None);
    }
    assert(crate::rebase::one_thread(parts@));
}

} // verus!
