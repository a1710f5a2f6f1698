//! Owned ranges across deterministic message normalization and across merged messages.
use crate::diff::{char_diff, char_operations, span_fits, span_values, DiffSpan};
use crate::ids::{is_version_4, random_uuid};
use crate::submission::{
    copy_leases, lease_views, ComposerLeaseId, LeaseView, NativeComposerSubmission,
    NativeSubmittedLease, SubmissionView,
};
use crate::text::{
    byte_len, same_text, slice, text_at, text_at_bytes, text_at_middle, text_at_within, utf8,
    utf8_concat, utf8_empty, utf8_injective,
};
use std::ops::Range;
use vstd::prelude::*;
use vstd::string::*;
use vstd::utf8::*;

verus! {

/// One operation of a character difference, as plain values.
pub type CharOperation = (bool, (usize, usize), (usize, usize));

/// The byte at which character `index` of `text` starts.
pub open spec fn byte_offset(text: Seq<char>, index: int) -> int {
    utf8(text.take(index)).len() as int
}

/// The bytes that an operation takes out of `old`: where they start.
pub open spec fn edit_start(old: Seq<char>, operation: CharOperation) -> int {
    byte_offset(old, operation.1.0 as int)
}

/// The bytes that an operation takes out of `old`: where they end.
pub open spec fn edit_end(old: Seq<char>, operation: CharOperation) -> int {
    byte_offset(old, operation.1.1 as int)
}

/// How many bytes an operation puts into `new`.
pub open spec fn edit_len(new: Seq<char>, operation: CharOperation) -> int {
    byte_offset(new, operation.2.1 as int) - byte_offset(new, operation.2.0 as int)
}

/// The operation edits text that is owned at `start..end`.
pub open spec fn touches(
    old: Seq<char>,
    operation: CharOperation,
    start: int,
    end: int,
) -> bool {
    !operation.0 && start < edit_end(old, operation) && edit_start(old, operation) < end
}

/// How far the first `count` operations move the text at `start`.
pub open spec fn shift(
    old: Seq<char>,
    new: Seq<char>,
    operations: Seq<CharOperation>,
    start: int,
    count: int,
) -> int
    decreases count,
{
    if count <= 0 {
        0
    } else {
        let operation = operations[count - 1];
        let earlier = shift(old, new, operations, start, count - 1);
        if !operation.0 && edit_end(old, operation) <= start {
            earlier + edit_len(new, operation) - (edit_end(old, operation) - edit_start(
                old,
                operation,
            ))
        } else {
            earlier
        }
    }
}

/// Where an owned range lies after the operations: moved by the edits before it, if no edit
/// touches it and the moved range holds the very text that was owned.
pub open spec fn rebased_lease(
    old: Seq<char>,
    new: Seq<char>,
    operations: Seq<CharOperation>,
    lease: LeaseView,
) -> Option<LeaseView> {
    let moved = shift(old, new, operations, lease.start, operations.len() as int);
    let start = lease.start + moved;
    let end = lease.end + moved;
    if exists|i: int|
        0 <= i < operations.len() && touches(
            old,
            #[trigger] operations[i],
            lease.start,
            lease.end,
        ) {
        None
    } else if text_at(old, lease.start, lease.end) is Some && text_at(new, start, end) == text_at(
        old,
        lease.start,
        lease.end,
    ) {
        Some(LeaseView { native: lease.native, start, end })
    } else {
        None
    }
}

/// Where owned ranges lie after the operations, if each of them can be followed.
pub open spec fn rebased_leases(
    old: Seq<char>,
    new: Seq<char>,
    operations: Seq<CharOperation>,
    leases: Seq<LeaseView>,
) -> Option<Seq<LeaseView>>
    decreases leases.len(),
{
    if leases.len() == 0 {
        Some(Seq::empty())
    } else {
        match (
            rebased_leases(old, new, operations, leases.drop_last()),
            rebased_lease(old, new, operations, leases.last()),
        ) {
            (Some(earlier), Some(lease)) => Some(earlier.push(lease)),
            _ => None,
        }
    }
}

/// Where the owned ranges of a submission lie in `remapped`.
pub open spec fn followed_leases(submission: SubmissionView, remapped: Seq<char>) -> Option<
    Seq<LeaseView>,
> {
    if submission.submitted_text == remapped {
        Some(submission.leases)
    } else {
        rebased_leases(
            submission.submitted_text,
            remapped,
            char_operations(submission.submitted_text, remapped),
            submission.leases,
        )
    }
}

/// The number of bytes that encode `c`.
fn char_len(c: char) -> (len: usize)
    ensures
        len == utf8(seq![c]).len(),
        1 <= len <= 4,
{
    proof {
        reveal(utf8);
        reveal_with_fuel(encode_utf8, 2);
        assert(seq![c].drop_first() =~= Seq::<char>::empty());
        char_is_scalar(c);
    }
    let code: u32 = c as u32;
    if code <= 0x7f {
        1
    } else if code <= 0x7ff {
        2
    } else if code <= 0xffff {
        3
    } else {
        4
    }
}

/// The byte at which each character of `text` starts, and the byte after the last one.
fn char_offsets(text: &str) -> (offsets: Vec<usize>)
    ensures
        offsets@.len() == text@.len() + 1,
        forall|i: int| 0 <= i <= text@.len() ==> #[trigger] offsets@[i] == byte_offset(text@, i),
{
    let total: usize = byte_len(text);
    let mut offsets: Vec<usize> = Vec::new();
    let mut offset: usize = 0;
    offsets.push(0);
    proof {
        assert(text@.take(0) =~= Seq::<char>::empty());
        utf8_empty();
    }
    for c in chars: text.chars()
        invariant
            chars.seq() == text@,
            total == utf8(text@).len(),
            offset == byte_offset(text@, chars.index() as int),
            offsets@.len() == chars.index() + 1,
            forall|i: int|
                0 <= i <= chars.index() ==> #[trigger] offsets@[i] == byte_offset(text@, i),
    {
        proof {
            let at = chars.index() as int;
            assert(text@.take(at + 1) =~= text@.take(at) + seq![c]);
            utf8_concat(text@.take(at), seq![c]);
            assert(text@ =~= text@.take(at + 1) + text@.subrange(at + 1, text@.len() as int));
            utf8_concat(text@.take(at + 1), text@.subrange(at + 1, text@.len() as int));
        }
        offset += char_len(c);
        offsets.push(offset);
    }
    offsets
}

/// A later character starts at a later byte.
proof fn byte_offset_grows(text: Seq<char>, i: int, j: int)
    requires
        0 <= i <= j <= text.len(),
    ensures
        0 <= byte_offset(text, i) <= byte_offset(text, j) <= utf8(text).len(),
{
    assert(text.take(j) =~= text.take(i) + text.subrange(i, j));
    utf8_concat(text.take(i), text.subrange(i, j));
    assert(text =~= text.take(j) + text.subrange(j, text.len() as int));
    utf8_concat(text.take(j), text.subrange(j, text.len() as int));
}

/// The spans as plain values.
pub open spec fn operations_of(spans: Seq<DiffSpan>) -> Seq<CharOperation> {
    spans.map_values(|span: DiffSpan| span_values(span))
}

/// Where one owned range lies after the edits `spans`.
fn rebase_lease(
    old: &str,
    new: &str,
    old_offsets: &Vec<usize>,
    new_offsets: &Vec<usize>,
    spans: &Vec<DiffSpan>,
    lease: &NativeSubmittedLease,
) -> (rebased: Option<NativeSubmittedLease>)
    requires
        old_offsets@.len() == old@.len() + 1,
        forall|i: int| 0 <= i <= old@.len() ==> #[trigger] old_offsets@[i] == byte_offset(old@, i),
        new_offsets@.len() == new@.len() + 1,
        forall|i: int| 0 <= i <= new@.len() ==> #[trigger] new_offsets@[i] == byte_offset(new@, i),
        forall|i: int|
            0 <= i < spans@.len() ==> span_fits(
                #[trigger] spans@[i],
                old@.len() as int,
                new@.len() as int,
            ),
    ensures
        (match rebased {
            Some(moved) => Some(moved@),
            None => None,
        }) == rebased_lease(old@, new@, operations_of(spans@), lease@),
{
    let ghost operations = operations_of(spans@);
    let mut added: u128 = 0;
    let mut removed: u128 = 0;
    let count: usize = spans.len();
    let mut i: usize = 0;
    while i < count
        invariant
            i <= count <= 0xffff_ffff_ffff_ffff,
            count == spans@.len(),
            operations == operations_of(spans@),
            old_offsets@.len() == old@.len() + 1,
            forall|k: int|
                0 <= k <= old@.len() ==> #[trigger] old_offsets@[k] == byte_offset(old@, k),
            new_offsets@.len() == new@.len() + 1,
            forall|k: int|
                0 <= k <= new@.len() ==> #[trigger] new_offsets@[k] == byte_offset(new@, k),
            forall|k: int|
                0 <= k < spans@.len() ==> span_fits(
                    #[trigger] spans@[k],
                    old@.len() as int,
                    new@.len() as int,
                ),
            added <= i * 0xffff_ffff_ffff_ffff,
            removed <= i * 0xffff_ffff_ffff_ffff,
            added - removed == shift(
                old@,
                new@,
                operations,
                lease.range.start as int,
                i as int,
            ),
            forall|k: int|
                0 <= k < i ==> !touches(
                    old@,
                    #[trigger] operations[k],
                    lease.range.start as int,
                    lease.range.end as int,
                ),
        decreases spans@.len() - i,
    {
        let span: &DiffSpan = &spans[i];
        let ghost operation = operations[i as int];
        assert(operation == span_values(spans@[i as int]));
        proof {
            byte_offset_grows(old@, span.old.start as int, span.old.end as int);
            byte_offset_grows(new@, span.new.start as int, span.new.end as int);
        }
        if !span.equal {
            let edit_from: usize = old_offsets[span.old.start];
            let edit_to: usize = old_offsets[span.old.end];
            if edit_to <= lease.range.start {
                let put: usize = new_offsets[span.new.end] - new_offsets[span.new.start];
                added += put as u128;
                removed += (edit_to - edit_from) as u128;
            } else if edit_from < lease.range.end {
                assert(touches(
                    old@,
                    operations[i as int],
                    lease.range.start as int,
                    lease.range.end as int,
                ));
                return None;
            }
        }
        i += 1;
    }
    let ghost moved = shift(
        old@,
        new@,
        operations,
        lease.range.start as int,
        operations.len() as int,
    );
    assert(moved == added - removed);
    let start: u128 = lease.range.start as u128 + added;
    let end: u128 = lease.range.end as u128 + added;
    let new_len: usize = byte_len(new);
    if start < removed || end < removed || start - removed > new_len as u128 || end - removed
        > new_len as u128 {
        return None;
    }
    let range: Range<usize> = (start - removed) as usize..(end - removed) as usize;
    let expected: &str = match slice(old, lease.range.start, lease.range.end) {
        Some(text) => text,
        None => return None,
    };
    match slice(new, range.start, range.end) {
        Some(text) => {
            if same_text(text, expected) {
                Some(NativeSubmittedLease { native: lease.native, range })
            } else {
                None
            }
        },
        None => None,
    }
}

/// Where owned ranges of `old` lie after the edits `spans` that turn `old` into `new`. An edit
/// that intersects owned text fails closed, and each range must still hold the very bytes that
/// were owned.
pub fn rebase_over_edits(
    old: &str,
    new: &str,
    spans: &Vec<DiffSpan>,
    leases: &Vec<NativeSubmittedLease>,
) -> (rebased: Option<Vec<NativeSubmittedLease>>)
    requires
        forall|i: int|
            0 <= i < spans@.len() ==> span_fits(
                #[trigger] spans@[i],
                old@.len() as int,
                new@.len() as int,
            ),
    ensures
        (match rebased {
            Some(moved) => Some(lease_views(moved@)),
            None => None,
        }) == rebased_leases(old@, new@, operations_of(spans@), lease_views(leases@)),
{
    let ghost operations = operations_of(spans@);
    let ghost views = lease_views(leases@);
    let old_offsets: Vec<usize> = char_offsets(old);
    let new_offsets: Vec<usize> = char_offsets(new);
    let mut moved: Vec<NativeSubmittedLease> = Vec::new();
    let mut i: usize = 0;
    assert(views.take(0) =~= Seq::<LeaseView>::empty());
    assert(lease_views(moved@) =~= Seq::<LeaseView>::empty());
    while i < leases.len()
        invariant
            i <= leases@.len(),
            operations == operations_of(spans@),
            views == lease_views(leases@),
            old_offsets@.len() == old@.len() + 1,
            forall|k: int|
                0 <= k <= old@.len() ==> #[trigger] old_offsets@[k] == byte_offset(old@, k),
            new_offsets@.len() == new@.len() + 1,
            forall|k: int|
                0 <= k <= new@.len() ==> #[trigger] new_offsets@[k] == byte_offset(new@, k),
            forall|k: int|
                0 <= k < spans@.len() ==> span_fits(
                    #[trigger] spans@[k],
                    old@.len() as int,
                    new@.len() as int,
                ),
            Some(lease_views(moved@)) == rebased_leases(
                old@,
                new@,
                operations,
                views.take(i as int),
            ),
        decreases leases@.len() - i,
    {
        proof {
            assert(views.take(i as int + 1).drop_last() =~= views.take(i as int));
            assert(views.take(i as int + 1).last() == leases@[i as int]@);
        }
        match rebase_lease(old, new, &old_offsets, &new_offsets, spans, &leases[i]) {
            Some(lease) => {
                let ghost before = moved@;
                moved.push(lease);
                assert(lease_views(moved@) =~= lease_views(before).push(lease@));
            },
            None => {
                proof {
                    rebase_fails(old@, new@, operations, views, i as int + 1);
                }
                return None;
            },
        }
        i += 1;
    }
    assert(views.take(leases@.len() as int) =~= views);
    Some(moved)
}

/// One range that cannot be followed fails them all.
proof fn rebase_fails(
    old: Seq<char>,
    new: Seq<char>,
    operations: Seq<CharOperation>,
    leases: Seq<LeaseView>,
    count: int,
)
    requires
        0 <= count <= leases.len(),
        rebased_leases(old, new, operations, leases.take(count)) is None,
    ensures
        rebased_leases(old, new, operations, leases) is None,
    decreases leases.len(),
{
    if count == leases.len() {
        assert(leases.take(count) =~= leases);
    } else {
        assert(leases.drop_last().take(count) =~= leases.take(count));
        rebase_fails(old, new, operations, leases.drop_last(), count);
    }
}

/// Rebases the owned ranges of a submission onto `remapped_text`, such as a message whose image
/// placeholders were renumbered.
pub fn rebase_submission_leases(
    submission: &NativeComposerSubmission,
    remapped_text: &str,
) -> (rebased: Option<Vec<NativeSubmittedLease>>)
    ensures
        (match rebased {
            Some(moved) => Some(lease_views(moved@)),
            None => None,
        }) == followed_leases(submission@, remapped_text@),
{
    if same_text(submission.submitted_text.as_str(), remapped_text) {
        return Some(copy_leases(&submission.leases));
    }
    let spans: Vec<DiffSpan> = char_diff(submission.submitted_text.as_str(), remapped_text);
    rebase_over_edits(
        submission.submitted_text.as_str(),
        remapped_text,
        &spans,
        &submission.leases,
    )
}

/// A followed range holds the text that was owned.
pub proof fn followed_leases_keep_text(submission: SubmissionView, remapped: Seq<char>, i: int)
    requires
        followed_leases(submission, remapped) is Some,
        0 <= i < submission.leases.len(),
        submission.well_formed(),
    ensures
        ({
            let before = submission.leases[i];
            let after = followed_leases(submission, remapped)->0[i];
            &&& followed_leases(submission, remapped)->0.len() == submission.leases.len()
            &&& after.native == before.native
            &&& text_at(remapped, after.start, after.end) == text_at(
                submission.submitted_text,
                before.start,
                before.end,
            )
            &&& text_at(remapped, after.start, after.end) is Some
        }),
{
    if submission.submitted_text != remapped {
        rebased_leases_keep_text(
            submission.submitted_text,
            remapped,
            char_operations(submission.submitted_text, remapped),
            submission.leases,
            i,
        );
    }
}

proof fn rebased_leases_keep_text(
    old: Seq<char>,
    new: Seq<char>,
    operations: Seq<CharOperation>,
    leases: Seq<LeaseView>,
    i: int,
)
    requires
        rebased_leases(old, new, operations, leases) is Some,
        0 <= i < leases.len(),
    ensures
        ({
            let after = rebased_leases(old, new, operations, leases)->0;
            &&& after.len() == leases.len()
            &&& after[i].native == leases[i].native
            &&& text_at(new, after[i].start, after[i].end) == text_at(
                old,
                leases[i].start,
                leases[i].end,
            )
            &&& text_at(new, after[i].start, after[i].end) is Some
        }),
    decreases leases.len(),
{
    let earlier = leases.drop_last();
    if i < earlier.len() {
        rebased_leases_keep_text(old, new, operations, earlier, i);
    } else if earlier.len() > 0 {
        rebased_leases_keep_text(old, new, operations, earlier, 0);
    }
}

/// A message part: its text, and what is owned of it.
pub type MessagePart = (String, Option<NativeComposerSubmission>);

/// The part texts one per line.
pub open spec fn joined_lines(parts: Seq<MessagePart>) -> Seq<char>
    decreases parts.len(),
{
    if parts.len() == 0 {
        Seq::empty()
    } else if parts.len() == 1 {
        parts[0].0@
    } else {
        joined_lines(parts.drop_last()) + "\n"@ + parts.last().0@
    }
}

/// What precedes part `k` in the merged message.
pub open spec fn line_head(parts: Seq<MessagePart>, k: int) -> Seq<char> {
    if k <= 0 {
        Seq::empty()
    } else {
        joined_lines(parts.take(k)) + "\n"@
    }
}

/// An owned range, `offset` bytes further on.
pub open spec fn shifted(leases: Seq<LeaseView>, offset: int) -> Seq<LeaseView> {
    leases.map_values(
        |lease: LeaseView|
            LeaseView {
                native: lease.native,
                start: lease.start + offset,
                end: lease.end + offset,
            },
    )
}

/// The owned ranges of the first `count` parts, where they lie in the merged message; none where
/// a part's ranges cannot be followed.
pub open spec fn merged_leases(parts: Seq<MessagePart>, count: int) -> Option<Seq<LeaseView>>
    decreases count,
{
    if count <= 0 {
        Some(Seq::empty())
    } else {
        match (merged_leases(parts, count - 1), parts[count - 1].1) {
            (None, _) => None,
            (Some(earlier), None) => Some(earlier),
            (Some(earlier), Some(submission)) => match followed_leases(
                submission@,
                parts[count - 1].0@,
            ) {
                None => None,
                Some(leases) => Some(
                    earlier + shifted(leases, utf8(line_head(parts, count - 1)).len() as int),
                ),
            },
        }
    }
}

/// What each part owns names text of its submission.
pub open spec fn well_formed_parts(parts: Seq<MessagePart>) -> bool {
    forall|i: int|
        0 <= i < parts.len() && (#[trigger] parts[i]).1 is Some ==> parts[i].1->0@.well_formed()
}

/// No part is a composer-free submission.
pub open spec fn none_direct(parts: Seq<MessagePart>) -> bool {
    forall|i: int|
        0 <= i < parts.len() && (#[trigger] parts[i]).1 is Some
            ==> parts[i].1->0.direct_lease_id is None
}

/// All submissions among the parts belong to one thread.
pub open spec fn one_thread(parts: Seq<MessagePart>) -> bool {
    forall|i: int, j: int|
        0 <= i < j < parts.len() && (#[trigger] parts[i]).1 is Some && (
        #[trigger] parts[j]).1 is Some ==> parts[i].1->0.thread_id@ == parts[j].1->0.thread_id@
}

/// The parts make up `merged`, and what is owned of them can be followed into it.
pub open spec fn mergeable(parts: Seq<MessagePart>, merged: Seq<char>) -> bool {
    &&& merged == joined_lines(parts)
    &&& none_direct(parts)
    &&& one_thread(parts)
    &&& merged_leases(parts, parts.len() as int) is Some
    &&& merged_leases(parts, parts.len() as int)->0.len() > 0
}

/// The merged message starts with what precedes a part, and the part follows.
proof fn line_stands(parts: Seq<MessagePart>, k: int) -> (tail: Seq<char>)
    requires
        0 <= k < parts.len(),
    ensures
        joined_lines(parts) == line_head(parts, k) + parts[k].0@ + tail,
    decreases parts.len(),
{
    if k == parts.len() - 1 {
        if k > 0 {
            assert(parts.take(k) =~= parts.drop_last());
        }
        assert(joined_lines(parts) =~= line_head(parts, k) + parts[k].0@ + Seq::<char>::empty());
        Seq::empty()
    } else {
        let rest = line_stands(parts.drop_last(), k);
        assert(parts.drop_last().take(k) =~= parts.take(k));
        let tail = rest + "\n"@ + parts.last().0@;
        assert(joined_lines(parts) =~= line_head(parts, k) + parts[k].0@ + tail);
        tail
    }
}

/// The text of the first parts is what precedes the last of them, and that part.
proof fn lines_grow(parts: Seq<MessagePart>, k: int)
    requires
        0 <= k < parts.len(),
    ensures
        joined_lines(parts.take(k + 1)) == line_head(parts, k) + parts[k].0@,
{
    let longer = parts.take(k + 1);
    if k == 0 {
        assert(line_head(parts, 0) + parts[0].0@ =~= parts[0].0@);
    } else {
        assert(longer.drop_last() =~= parts.take(k));
    }
}

/// A newline is one byte.
pub proof fn newline_byte()
    ensures
        utf8("\n"@) == seq![10u8],
{
    reveal(utf8);
    reveal_strlit("\n");
    reveal_with_fuel(encode_utf8, 2);
    assert("\n"@ =~= seq!['\n']);
    assert("\n"@.drop_first() =~= Seq::<char>::empty());
    let c = '\n' as u32;
    assert(has_width_1_encoding(c));
    assert(leading_byte_width_1(10u32) == 10u8) by (bit_vector);
    assert(utf8("\n"@) =~= seq![10u8]);
}

/// Parts whose ranges cannot be followed make the whole fail.
proof fn merge_fails(parts: Seq<MessagePart>, count: int, total: int)
    requires
        0 <= count <= total <= parts.len(),
        merged_leases(parts, count) is None,
    ensures
        merged_leases(parts, total) is None,
    decreases total - count,
{
    if count < total {
        merge_fails(parts, count + 1, total);
    }
}

/// What is owned of a text: the handle and the text of each range.
pub open spec fn owned_texts(text: Seq<char>, leases: Seq<LeaseView>) -> Seq<(
    ComposerLeaseId,
    Option<Seq<char>>,
)> {
    leases.map_values(
        |lease: LeaseView| (lease.native, text_at(text, lease.start, lease.end)),
    )
}

/// What the first `count` parts own, in order.
pub open spec fn parts_owned_texts(parts: Seq<MessagePart>, count: int) -> Seq<(
    ComposerLeaseId,
    Option<Seq<char>>,
)>
    decreases count,
{
    if count <= 0 {
        Seq::empty()
    } else {
        match parts[count - 1].1 {
            None => parts_owned_texts(parts, count - 1),
            Some(submission) => parts_owned_texts(parts, count - 1) + owned_texts(
                submission@.submitted_text,
                submission@.leases,
            ),
        }
    }
}

/// A merged message owns exactly the texts that its parts own, under the same handles and in the
/// same order.
pub proof fn merged_leases_keep_text(parts: Seq<MessagePart>, count: int)
    requires
        0 <= count <= parts.len(),
        well_formed_parts(parts),
        merged_leases(parts, count) is Some,
    ensures
        owned_texts(joined_lines(parts), merged_leases(parts, count)->0) == parts_owned_texts(
            parts,
            count,
        ),
        forall|i: int|
            0 <= i < merged_leases(parts, count)->0.len() ==> (#[trigger] owned_texts(
                joined_lines(parts),
                merged_leases(parts, count)->0,
            )[i]).1 is Some,
    decreases count,
{
    let whole = joined_lines(parts);
    if count == 0 {
        assert(owned_texts(whole, merged_leases(parts, 0)->0) =~= parts_owned_texts(parts, 0));
    } else {
        merged_leases_keep_text(parts, count - 1);
        let k = count - 1;
        if let Some(submission) = parts[k].1 {
            let text = parts[k].0@;
            let head = line_head(parts, k);
            let offset = utf8(head).len() as int;
            let tail = line_stands(parts, k);
            let earlier = merged_leases(parts, k)->0;
            let followed = followed_leases(submission@, text)->0;
            let moved = shifted(followed, offset);
            assert(submission@.well_formed());
            if submission@.leases.len() > 0 {
                followed_leases_keep_text(submission@, text, 0);
            } else {
                assert(followed.len() == 0);
            }
            assert forall|i: int| 0 <= i < followed.len() implies #[trigger] owned_texts(
                whole,
                moved,
            )[i] == owned_texts(submission@.submitted_text, submission@.leases)[i] && owned_texts(
                whole,
                moved,
            )[i].1 is Some by {
                followed_leases_keep_text(submission@, text, i);
                text_at_within(head, text, tail, followed[i].start, followed[i].end);
                assert(moved[i].start == followed[i].start + offset);
            }
            assert(owned_texts(whole, moved) =~= owned_texts(
                submission@.submitted_text,
                submission@.leases,
            ));
            assert(owned_texts(whole, earlier + moved) =~= owned_texts(whole, earlier)
                + owned_texts(whole, moved));
            assert forall|i: int| 0 <= i < (earlier + moved).len() implies (
            #[trigger] owned_texts(whole, earlier + moved)[i]).1 is Some by {
                if i < earlier.len() {
                    assert(owned_texts(whole, earlier + moved)[i] == owned_texts(whole, earlier)[i]);
                } else {
                    assert(owned_texts(whole, earlier + moved)[i] == owned_texts(
                        whole,
                        moved,
                    )[i - earlier.len()]);
                }
            }
        }
    }
}

/// Adds the ranges `moved`, `offset` bytes further on.
fn append_shifted(
    leases: &mut Vec<NativeSubmittedLease>,
    moved: &Vec<NativeSubmittedLease>,
    offset: usize,
)
    requires
        forall|i: int|
            0 <= i < moved@.len() ==> (#[trigger] moved@[i])@.start + offset <= usize::MAX
                && moved@[i]@.end + offset <= usize::MAX,
    ensures
        lease_views(final(leases)@) == lease_views(old(leases)@) + shifted(
            lease_views(moved@),
            offset as int,
        ),
{
    let ghost earlier = lease_views(leases@);
    let ghost followed = lease_views(moved@);
    let mut i: usize = 0;
    assert(earlier + shifted(followed.take(0), offset as int) =~= earlier);
    while i < moved.len()
        invariant
            i <= moved@.len(),
            followed == lease_views(moved@),
            lease_views(leases@) == earlier + shifted(followed.take(i as int), offset as int),
            forall|k: int|
                0 <= k < moved@.len() ==> (#[trigger] moved@[k])@.start + offset <= usize::MAX
                    && moved@[k]@.end + offset <= usize::MAX,
        decreases moved@.len() - i,
    {
        assert(moved@[i as int]@.start + offset <= usize::MAX);
        let lease = NativeSubmittedLease {
            native: moved[i].native,
            range: moved[i].range.start + offset..moved[i].range.end + offset,
        };
        let ghost before = leases@;
        leases.push(lease);
        proof {
            assert(lease_views(leases@) =~= lease_views(before).push(lease@));
            assert(shifted(followed.take(i as int + 1), offset as int) =~= shifted(
                followed.take(i as int),
                offset as int,
            ).push(lease@));
            assert(lease_views(leases@) =~= earlier + shifted(
                followed.take(i as int + 1),
                offset as int,
            ));
        }
        i += 1;
    }
    assert(followed.take(moved@.len() as int) =~= followed);
}

/// Where a part starts in `merged` when `offset` bytes are taken: behind a newline unless it is
/// the first. There is no such place where the newline or the part's text is missing.
pub open spec fn part_place(merged: Seq<char>, offset: int, first: bool, text: Seq<char>) -> Option<
    int,
> {
    let start = if first {
        offset
    } else {
        offset + 1
    };
    if (first || (offset < utf8(merged).len() && utf8(merged)[offset] == 10u8)) && text_at(
        merged,
        start,
        start + utf8(text).len(),
    ) == Some(text) {
        Some(start)
    } else {
        None
    }
}

fn part_start(merged_text: &str, offset: usize, first: bool, text: &str) -> (start: Option<usize>)
    requires
        offset <= utf8(merged_text@).len(),
    ensures
        (match start {
            Some(at) => Some(at as int),
            None => None,
        }) == part_place(merged_text@, offset as int, first, text@),
{
    let merged_len: usize = byte_len(merged_text);
    let text_len: usize = byte_len(text);
    let merged_bytes: &[u8] = merged_text.as_bytes();
    proof {
        reveal(utf8);
    }
    let mut start: usize = offset;
    if !first {
        if offset >= merged_len || merged_bytes[offset] != 10u8 {
            return None;
        }
        start += 1;
    }
    if text_len > merged_len - start {
        return None;
    }
    match slice(merged_text, start, start + text_len) {
        Some(found) => {
            if same_text(found, text) {
                Some(start)
            } else {
                None
            }
        },
        None => None,
    }
}

/// In the merged message each part is found behind the parts before it.
proof fn part_is_found(parts: Seq<MessagePart>, k: int)
    requires
        0 <= k < parts.len(),
    ensures
        part_place(
            joined_lines(parts),
            utf8(joined_lines(parts.take(k))).len() as int,
            k == 0,
            parts[k].0@,
        ) == Some(utf8(line_head(parts, k)).len() as int),
{
    let head = line_head(parts, k);
    let text = parts[k].0@;
    let before = joined_lines(parts.take(k));
    let tail = line_stands(parts, k);
    utf8_concat(head, text + tail);
    assert(joined_lines(parts) =~= head + (text + tail));
    text_at_middle(head, text, tail);
    if k == 0 {
        assert(parts.take(0) =~= Seq::<MessagePart>::empty());
    } else {
        newline_byte();
        utf8_concat(before, "\n"@);
        assert(utf8(joined_lines(parts))[utf8(before).len() as int] == utf8(head)[utf8(
            before,
        ).len() as int]);
    }
}

/// What has been matched so far, and the part found behind it, make up the longer start.
proof fn part_extends(merged: Seq<char>, parts: Seq<MessagePart>, k: int, offset: int)
    requires
        0 <= k < parts.len(),
        0 <= offset <= utf8(merged).len(),
        utf8(merged).subrange(0, offset) == utf8(joined_lines(parts.take(k))),
        part_place(merged, offset, k == 0, parts[k].0@) is Some,
    ensures
        ({
            let start = part_place(merged, offset, k == 0, parts[k].0@)->0;
            let end = start + utf8(parts[k].0@).len();
            &&& start == utf8(line_head(parts, k)).len()
            &&& end <= utf8(merged).len()
            &&& utf8(merged).subrange(0, end) == utf8(joined_lines(parts.take(k + 1)))
        }),
{
    let text = parts[k].0@;
    let head = line_head(parts, k);
    let start = part_place(merged, offset, k == 0, text)->0;
    let end = start + utf8(text).len();
    lines_grow(parts, k);
    utf8_concat(head, text);
    text_at_bytes(merged, start, end);
    if k == 0 {
        assert(parts.take(0) =~= Seq::<MessagePart>::empty());
        utf8_empty();
        assert(utf8(head) =~= utf8(merged).subrange(0, start));
    } else {
        newline_byte();
        utf8_concat(joined_lines(parts.take(k)), "\n"@);
        assert(utf8(head) =~= utf8(merged).subrange(0, start));
    }
    assert(utf8(merged).subrange(0, end) =~= utf8(merged).subrange(0, start) + utf8(
        merged,
    ).subrange(start, end));
}

impl NativeComposerSubmission {
    /// Merges the submissions of several messages that are sent as one, one per line. The merged
    /// submission owns exactly what the parts own. There is none where the parts do not make up
    /// `merged_text`, where one was composer-free, where they belong to different threads, where
    /// an owned range cannot be followed, or where nothing is owned.
    pub fn merge_parts(parts: Vec<MessagePart>, merged_text: &str) -> (merged: Option<Self>)
        requires
            well_formed_parts(parts@),
        ensures
            match merged {
                None => !mergeable(parts@, merged_text@),
                Some(submission) => {
                    &&& mergeable(parts@, merged_text@)
                    &&& is_version_4(submission.submission_id)
                    &&& submission.submitted_text@ == merged_text@
                    &&& submission.direct_lease_id is None
                    &&& submission@.well_formed()
                    &&& lease_views(submission.leases@) == merged_leases(
                        parts@,
                        parts@.len() as int,
                    )->0
                    &&& forall|i: int|
                        0 <= i < parts@.len() && (#[trigger] parts@[i]).1 is Some
                            ==> submission.thread_id@ == parts@[i].1->0.thread_id@
                },
            },
    {
        let merged_len: usize = byte_len(merged_text);
        let mut thread_id: Option<String> = None;
        let mut leases: Vec<NativeSubmittedLease> = Vec::new();
        let mut offset: usize = 0;
        let mut k: usize = 0;
        proof {
            assert(parts@.take(0) =~= Seq::<MessagePart>::empty());
            utf8_empty();
            assert(lease_views(leases@) =~= Seq::<LeaseView>::empty());
            assert(utf8(merged_text@).subrange(0, 0) =~= Seq::<u8>::empty());
        }
        while k < parts.len()
            invariant
                k <= parts@.len(),
                merged_len == utf8(merged_text@).len(),
                offset <= merged_len,
                utf8(merged_text@).subrange(0, offset as int) == utf8(
                    joined_lines(parts@.take(k as int)),
                ),
                merged_leases(parts@, k as int) == Some(lease_views(leases@)),
                well_formed_parts(parts@),
                forall|i: int|
                    0 <= i < k && (#[trigger] parts@[i]).1 is Some
                        ==> parts@[i].1->0.direct_lease_id is None && thread_id is Some
                        && thread_id->0@ == parts@[i].1->0.thread_id@,
                thread_id is Some ==> exists|i: int|
                    0 <= i < k && (#[trigger] parts@[i]).1 is Some,
                thread_id is None ==> lease_views(leases@).len() == 0,
            decreases parts@.len() - k,
        {
            let text: &String = &parts[k].0;
            let text_len: usize = byte_len(text.as_str());
            proof {
                assert(utf8(merged_text@).subrange(0, offset as int).len() == offset);
                part_is_found(parts@, k as int);
            }
            let start: usize = match part_start(merged_text, offset, k == 0, text.as_str()) {
                Some(start) => start,
                None => return None,
            };
            proof {
                part_extends(merged_text@, parts@, k as int, offset as int);
            }
            if let Some(submission) = &parts[k].1 {
                assert(parts@[k as int].1 is Some);
                if submission.direct_lease_id.is_some() {
                    return None;
                }
                match &thread_id {
                    None => {
                        thread_id = Some(submission.thread_id.clone());
                    },
                    Some(existing) => {
                        if !same_text(existing.as_str(), submission.thread_id.as_str()) {
                            proof {
                                let i = choose|i: int|
                                    0 <= i < k && (#[trigger] parts@[i]).1 is Some;
                                assert(parts@[i].1->0.thread_id@ != parts@[
                                    k as int
                                ].1->0.thread_id@);
                            }
                            return None;
                        }
                    },
                }
                let moved: Vec<NativeSubmittedLease> = match rebase_submission_leases(
                    submission,
                    text.as_str(),
                ) {
                    Some(moved) => moved,
                    None => {
                        proof {
                            merge_fails(parts@, k as int + 1, parts@.len() as int);
                        }
                        return None;
                    },
                };
                proof {
                    assert(submission@.well_formed());
                    if submission@.leases.len() > 0 {
                        followed_leases_keep_text(submission@, text@, 0);
                    }
                    assert forall|i: int| 0 <= i < moved@.len() implies (
                    #[trigger] moved@[i])@.start + start <= usize::MAX && moved@[i]@.end + start
                        <= usize::MAX by {
                        followed_leases_keep_text(submission@, text@, i);
                        assert(lease_views(moved@)[i] == moved@[i]@);
                    }
                }
                append_shifted(&mut leases, &moved, start);
            }
            offset = start + text_len;
            k += 1;
        }
        assert(parts@.take(parts@.len() as int) =~= parts@);
        if offset != merged_len {
            return None;
        }
        proof {
            assert(utf8(merged_text@).subrange(0, offset as int) =~= utf8(merged_text@));
            utf8_injective(merged_text@, joined_lines(parts@));
        }
        match thread_id {
            None => None,
            Some(thread_id) => {
                assert(lease_views(leases@).len() == leases@.len());
                if leases.len() == 0 {
                    return None;
                }
                proof {
                    merged_leases_keep_text(parts@, parts@.len() as int);
                    let views = lease_views(leases@);
                    assert forall|i: int| 0 <= i < views.len() implies text_at(
                        merged_text@,
                        (#[trigger] views[i]).start,
                        views[i].end,
                    ) is Some by {
                        assert(owned_texts(merged_text@, views)[i].1 is Some);
                    }
                }
                Some(
                    NativeComposerSubmission {
                        submission_id: random_uuid(),
                        thread_id,
                        submitted_text: String::from_str(merged_text),
                        leases,
                        direct_lease_id: None,
                    },
                )
            },
        }
    }
}

} // verus!
