//! How small the replacements are that a correction spells out, and when there are any.
use crate::diff::{runs, texts};
use crate::hunks::{
    applied, are_spelled, common_affix_hunk, correction_hunks, hunk_views, hunks_end,
    hunks_located, is_affix_hunk, shared_prefix, shared_suffix, turns_into, Hunk, HunkView,
};
use crate::text::{
    text_at, text_at_bytes, text_at_middle, utf8, utf8_concat, utf8_empty, utf8_injective,
};
use vstd::prelude::*;
use vstd::string::*;
use vstd::utf8::*;

verus! {

/// What is left of two texts without their shared ends is what differs: put between the same two
/// ends, the one part gives the old text and the other the new text, and the parts share neither
/// their first nor their last character.
pub proof fn shared_ends_are_taken_off(
    old: &str,
    new: &str,
    left: (usize, &str, &str),
) -> (ends: (Seq<char>, Seq<char>))
    requires
        call_ensures(common_affix_hunk, (old, new), left),
    ensures
        ends.0 + left.1@ + ends.1 == old@,
        ends.0 + left.2@ + ends.1 == new@,
        left.0 == utf8(ends.0).len(),
        left.1@.len() > 0 && left.2@.len() > 0 ==> left.1@.first() != left.2@.first()
            && left.1@.last() != left.2@.last(),
{
    let hunk = HunkView { start: left.0 as int, old: left.1@, new: left.2@ };
    affix_cuts(old@, new@, hunk)
}

proof fn affix_cuts(old: Seq<char>, new: Seq<char>, hunk: HunkView) -> (ends: (
    Seq<char>,
    Seq<char>,
))
    requires
        is_affix_hunk(old, new, hunk),
    ensures
        ends.0 + hunk.old + ends.1 == old,
        ends.0 + hunk.new + ends.1 == new,
        hunk.start == utf8(ends.0).len(),
        hunk.old.len() > 0 && hunk.new.len() > 0 ==> hunk.old.first() != hunk.new.first()
            && hunk.old.last() != hunk.new.last(),
{
    let a = utf8(old);
    let b = utf8(new);
    let prefix = hunk.start;
    let suffix = a.len() - hunk.end();
    assert(a =~= encode_utf8(old) && b =~= encode_utf8(new)) by {
        reveal(utf8);
    }
    encode_utf8_valid_utf8(old);
    encode_utf8_valid_utf8(new);
    is_char_boundary_start_end_of_seq(a);
    is_char_boundary_start_end_of_seq(b);
    text_at_bytes(old, 0, prefix);
    text_at_bytes(old, a.len() - suffix, a.len() as int);
    let head = text_at(old, 0, prefix)->0;
    let tail = text_at(old, a.len() - suffix, a.len() as int)->0;
    assert(utf8(head) =~= b.subrange(0, prefix));
    assert forall|i: int| 0 <= i < suffix implies #[trigger] utf8(tail)[i] == b.subrange(
        b.len() - suffix,
        b.len() as int,
    )[i] by {
        let k = suffix - i;
        assert(a[a.len() - k] == b[b.len() - k]);
    }
    assert(utf8(tail) =~= b.subrange(b.len() - suffix, b.len() as int));
    utf8_concat(head, hunk.old);
    utf8_concat(head + hunk.old, tail);
    utf8_concat(head, hunk.new);
    utf8_concat(head + hunk.new, tail);
    assert(utf8(head + hunk.old + tail) =~= a);
    assert(utf8(head + hunk.new + tail) =~= b);
    utf8_injective(head + hunk.old + tail, old);
    utf8_injective(head + hunk.new + tail, new);
    if hunk.old.len() > 0 && hunk.new.len() > 0 {
        if hunk.old.first() == hunk.new.first() {
            first_is_shared(old, new, head, hunk.old, hunk.new, tail);
        }
        if hunk.old.last() == hunk.new.last() {
            last_is_shared(old, new, head, hunk.old, hunk.new, tail);
        }
    }
    (head, tail)
}

/// A first character that both parts have belongs to the shared beginning.
proof fn first_is_shared(
    old: Seq<char>,
    new: Seq<char>,
    head: Seq<char>,
    x: Seq<char>,
    y: Seq<char>,
    tail: Seq<char>,
)
    requires
        old == head + x + tail,
        new == head + y + tail,
        x.len() > 0 && y.len() > 0 && x.first() == y.first(),
    ensures
        utf8(seq![x.first()]).len() > 0,
        shared_prefix(old, new, (utf8(head).len() + utf8(seq![x.first()]).len()) as int),
{
    let c = seq![x.first()];
    let more = x.skip(1) + tail;
    let other = y.skip(1) + tail;
    assert(old =~= head + c + more);
    assert(new =~= head + c + other);
    char_has_bytes(x.first());
    text_at_middle(head, c, more);
    text_at_middle(head, c, other);
    utf8_concat(head, c);
    utf8_concat(head + c, more);
    utf8_concat(head + c, other);
    let len = (utf8(head).len() + utf8(c).len()) as int;
    assert forall|k: int| 0 <= k < len implies #[trigger] utf8(old)[k] == utf8(new)[k] by {
        assert(utf8(old)[k] == utf8(head + c)[k]);
        assert(utf8(new)[k] == utf8(head + c)[k]);
    }
}

/// A last character that both parts have belongs to the shared end.
proof fn last_is_shared(
    old: Seq<char>,
    new: Seq<char>,
    head: Seq<char>,
    x: Seq<char>,
    y: Seq<char>,
    tail: Seq<char>,
)
    requires
        old == head + x + tail,
        new == head + y + tail,
        x.len() > 0 && y.len() > 0 && x.last() == y.last(),
    ensures
        utf8(seq![x.last()]).len() > 0,
        shared_suffix(
            old,
            new,
            utf8(head).len() as int,
            (utf8(tail).len() + utf8(seq![x.last()]).len()) as int,
        ),
{
    let c = seq![x.last()];
    let before = head + x.drop_last();
    let other = head + y.drop_last();
    assert(old =~= before + c + tail);
    assert(new =~= other + c + tail);
    char_has_bytes(x.last());
    text_at_middle(before, c, tail);
    text_at_middle(other, c, tail);
    utf8_concat(head, x.drop_last());
    utf8_concat(head, y.drop_last());
    utf8_concat(c, tail);
    utf8_concat(before, c + tail);
    utf8_concat(other, c + tail);
    assert(before + c + tail =~= before + (c + tail));
    assert(other + c + tail =~= other + (c + tail));
    let len = (utf8(tail).len() + utf8(c).len()) as int;
    assert forall|k: int| 0 < k <= len implies #[trigger] utf8(old)[utf8(old).len() - k] == utf8(
        new,
    )[utf8(new).len() - k] by {
        assert(utf8(old)[utf8(old).len() - k] == utf8(c + tail)[len - k]);
        assert(utf8(new)[utf8(new).len() - k] == utf8(c + tail)[len - k]);
    }
}

/// A character has at least one byte.
proof fn char_has_bytes(c: char)
    ensures
        utf8(seq![c]).len() > 0,
{
    if utf8(seq![c]).len() == 0 {
        utf8_empty();
        assert(utf8(seq![c]) =~= utf8(Seq::<char>::empty()));
        utf8_injective(seq![c], Seq::empty());
        assert(seq![c].len() == 1);
    }
}

/// Replacements that are spelled out are the whole difference: carried out on the expected text
/// they give the wanted one, so that two corrections of one text that spell out the same
/// replacements want the same text. None has more than 16384 bytes on its two sides, and texts
/// that have no more than that together can always be corrected.
pub proof fn short_texts_can_be_corrected(
    expected: &str,
    replacement: &str,
    hunks: Option<Vec<Hunk>>,
)
    requires
        call_ensures(correction_hunks, (expected, replacement), hunks),
    ensures
        utf8(expected@).len() + utf8(replacement@).len() <= 16384 ==> hunks is Some,
        hunks is Some ==> turns_into(expected@, hunk_views(hunks->0@), replacement@),
        hunks is Some ==> forall|k: int|
            0 <= k < hunks->0@.len() ==> utf8((#[trigger] hunks->0@[k]).old@).len() + utf8(
                hunks->0@[k].new@,
            ).len() <= 16384,
        hunks is Some && expected@ != replacement@ ==> hunks->0@.len() > 0,
{
    if hunks is None {
        let hunk = choose|hunk: HunkView| #[trigger]
            is_affix_hunk(expected@, replacement@, hunk) && crate::hunks::too_long(hunk);
        assert(utf8(hunk.old).len() <= utf8(expected@).len());
        assert(utf8(hunk.new).len() <= utf8(replacement@).len());
    } else {
        let list = hunks->0@;
        assert forall|k: int| 0 <= k < list.len() implies utf8((#[trigger] list[k]).old@).len()
            + utf8(list[k].new@).len() <= 16384 by {
            assert(hunk_views(list)[k].literal_bytes() <= 16384);
        }
        if expected@ != replacement@ {
            crate::hunks::differing_texts_have_hunks(
                expected@,
                hunk_views(list),
                replacement@,
            );
        }
    }
}

/// What replacements turn a text into depends on nothing but them: the same replacements of the
/// same text give the same text.
pub proof fn replacements_determine_the_text(
    old: Seq<char>,
    hunks: Seq<HunkView>,
    new: Seq<char>,
    other: Seq<char>,
)
    requires
        turns_into(old, hunks, new),
        turns_into(old, hunks, other),
    ensures
        new == other,
{
    utf8_injective(new, other);
}

/// One replacement is carried out as it reads: the text before its place, its new text, and the
/// text behind its old text.
pub proof fn one_replacement_is_carried_out(
    head: Seq<char>,
    old: Seq<char>,
    tail: Seq<char>,
    new: Seq<char>,
)
    ensures
        turns_into(
            head + old + tail,
            seq![HunkView { start: utf8(head).len() as int, old, new }],
            head + new + tail,
        ),
{
    let hunk = HunkView { start: utf8(head).len() as int, old, new };
    let hunks = seq![hunk];
    let whole = head + old + tail;
    utf8_concat(head, old);
    utf8_concat(head + old, tail);
    utf8_concat(head, new);
    utf8_concat(head + new, tail);
    assert(utf8(whole).subrange(hunk.start, hunk.end()) =~= utf8(old));
    assert(hunks_located(utf8(whole), hunks));
    assert(applied(utf8(whole), hunks, 0) =~= Seq::<u8>::empty());
    assert(applied(utf8(whole), hunks, 1) == applied(utf8(whole), hunks, 0) + utf8(
        whole,
    ).subrange(hunks_end(hunks, 0), hunk.start) + utf8(new));
    assert(utf8(whole).subrange(0, hunk.start) =~= utf8(head));
    assert(applied(utf8(whole), hunks, 1) + utf8(whole).subrange(
        hunk.end(),
        utf8(whole).len() as int,
    ) =~= utf8(head + new + tail));
}

/// Around each change of a correction stand six unchanged words wherever words are left out next to
/// it, and never more than six at its ends; its first replacement starts at most six words before
/// the first word that differs.
pub proof fn six_words_stand_around_a_change(
    expected: &str,
    replacement: &str,
    hunks: Vec<Hunk>,
    comparable: bool,
)
    requires
        call_ensures(crate::diff::are_comparable, (expected, replacement), comparable),
        call_ensures(correction_hunks, (expected, replacement), Some(hunks)),
        comparable,
    ensures
        (hunks@.len() == 1 && is_affix_hunk(expected@, replacement@, hunks@[0]@)) || exists|
            diff: crate::diff::WordDiff,
        |
            {
                &&& #[trigger] diff.describes(expected@, replacement@)
                &&& diff.trimmed(6)
                &&& diff.padded(6)
                &&& diff.opens_at_difference(6)
                &&& texts(diff.old_words@) == runs(expected@)
                &&& texts(diff.new_words@) == runs(replacement@)
                &&& hunk_views(hunks@) == crate::hunks::found_hunks(diff)
            },
{
    let views = hunk_views(hunks@);
    let diff = choose|diff: crate::diff::WordDiff| #[trigger]
        diff.word_diff_of(expected@, replacement@, 6) && if crate::hunks::all_short(
            crate::hunks::found_hunks(diff),
        ) {
            views == crate::hunks::found_hunks(diff)
        } else {
            views.len() == 1 && is_affix_hunk(expected@, replacement@, views[0])
                && !crate::hunks::too_long(views[0])
        };
    if crate::hunks::all_short(crate::hunks::found_hunks(diff)) {
        assert(diff.describes(expected@, replacement@));
    } else {
        assert(views[0] == hunks@[0]@);
        assert(views.len() == hunks@.len());
    }
}

/// No replacement has more than 16384 bytes on its two sides.
pub open spec fn all_small(hunks: Seq<Hunk>) -> bool {
    forall|k: int|
        0 <= k < hunks.len() ==> utf8((#[trigger] hunks[k]).old@).len() + utf8(hunks[k].new@).len()
            <= 16384
}

proof fn small_is_short(hunks: Seq<Hunk>)
    ensures
        all_small(hunks) <==> crate::hunks::all_short(hunk_views(hunks)),
{
    let views = hunk_views(hunks);
    if all_small(hunks) {
        assert forall|k: int| 0 <= k < views.len() implies (#[trigger] views[k]).literal_bytes()
            <= 16384 by {
            assert(views[k] == hunks[k]@);
        }
    }
    if crate::hunks::all_short(views) {
        assert forall|k: int| 0 <= k < hunks.len() implies utf8((#[trigger] hunks[k]).old@).len()
            + utf8(hunks[k].new@).len() <= 16384 by {
            assert(views[k].literal_bytes() <= 16384);
        }
    }
}

proof fn single_turns(expected: Seq<char>, replacement: Seq<char>, list: Seq<Hunk>)
    requires
        list.len() == 1,
        is_affix_hunk(expected, replacement, list[0]@),
    ensures
        turns_into(expected, hunk_views(list), replacement),
{
    crate::hunks::affix_hunk_turns(expected, replacement, list[0]@);
    assert(hunk_views(list) =~= seq![list[0]@]);
}

/// Replacements that were found are spelled out as they are where none has more than 16384 bytes on
/// its two sides; otherwise at most one replacement is spelled out, and it has no more bytes than
/// that. Either way they turn the text that was expected into the text that is wanted.
pub proof fn short_replacements_are_spelled_out(
    found: Vec<Hunk>,
    expected: &str,
    replacement: &str,
    hunks: Option<Vec<Hunk>>,
)
    requires
        call_ensures(crate::hunks::spelled_hunks, (found, expected, replacement), hunks),
        turns_into(expected@, hunk_views(found@), replacement@),
    ensures
        all_small(found@) ==> hunks == Some(found),
        !all_small(found@) && hunks is Some ==> hunks->0@.len() == 1,
        hunks is Some ==> all_small(hunks->0@),
        hunks is Some ==> turns_into(expected@, hunk_views(hunks->0@), replacement@),
{
    small_is_short(found@);
    if !all_small(found@) && hunks is Some {
        single_turns(expected@, replacement@, hunks->0@);
        assert(hunk_views(hunks->0@)[0] == hunks->0@[0]@);
    }
}

/// The replacements of a word difference are the whole difference: carried out on the old text they
/// give the new one.
pub proof fn word_replacements_are_the_difference(
    diff: crate::diff::WordDiff,
    old: Seq<char>,
    new: Seq<char>,
    hunks: Vec<Hunk>,
)
    requires
        diff.fits(),
        diff.describes(old, new),
        call_ensures(crate::hunks::word_hunks, (&diff,), hunks),
    ensures
        turns_into(old, hunk_views(hunks@), new),
{
    crate::hunks::listed_hunks_turn(diff, old, new);
}

} // verus!
