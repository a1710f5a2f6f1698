//! What is true of texts, words and tables, whatever they hold.
use crate::diff::{are_comparable, joined, runs, texts};
use crate::ids::{hyphenated_text, unused_id, Uuid};
use crate::ledger::{note_retired, Ledger};
use crate::submission::{debug_text, NativeComposerSubmission};
use crate::text::{
    byte_len, copy_option, copy_texts, decimal_text, finds_text, is_white, is_white_space,
    same_text, slice, text_at_bytes, text_at_middle, utf8, utf8_injective,
};
use vstd::prelude::*;
use vstd::string::*;

verus! {

/// Whatever stands between two texts is found at its own bytes.
pub proof fn a_slice_is_what_stands_there(
    text: &str,
    head: Seq<char>,
    middle: Seq<char>,
    tail: Seq<char>,
    start: usize,
    end: usize,
    found: Option<&str>,
)
    requires
        text@ == head + middle + tail,
        start == utf8(head).len(),
        end == utf8(head).len() + utf8(middle).len(),
        call_ensures(slice, (text, start, end), found),
    ensures
        found is Some,
        found->0@ == middle,
{
    text_at_middle(head, middle, tail);
}

/// A slice is made of the bytes that its range names.
pub proof fn a_slice_has_its_bytes(text: &str, start: usize, end: usize, found: Option<&str>)
    requires
        call_ensures(slice, (text, start, end), found),
    ensures
        found is Some ==> start <= end <= utf8(text@).len() && utf8(found->0@) == utf8(
            text@,
        ).subrange(start as int, end as int),
        start > end || end > utf8(text@).len() ==> found is None,
{
}

/// Texts are the same where their bytes are, and a text has as many bytes as its encoding.
pub proof fn texts_are_compared_by_content(
    a: &str,
    b: &str,
    same: bool,
    swapped: bool,
    len: usize,
)
    requires
        call_ensures(same_text, (a, b), same),
        call_ensures(same_text, (b, a), swapped),
        call_ensures(byte_len, (a,), len),
    ensures
        same == swapped,
        same <==> utf8(a@) == utf8(b@),
        len == utf8(a@).len(),
{
    if utf8(a@) == utf8(b@) {
        utf8_injective(a@, b@);
    }
}

/// A text is found in a list where it stands in it; a copy holds the same texts.
pub proof fn a_text_is_found_where_it_stands(
    list: Vec<String>,
    text: &str,
    found: bool,
    copy: Vec<String>,
    one: Option<String>,
    one_copy: Option<String>,
)
    requires
        call_ensures(finds_text, (&list, text), found),
        call_ensures(copy_texts, (&list,), copy),
        call_ensures(copy_option, (&one,), one_copy),
    ensures
        found <==> exists|i: int| 0 <= i < list@.len() && (#[trigger] list@[i])@ == text@,
        copy@ == list@,
        one_copy == one,
{
}

/// Space, tab and line breaks are white space; letters, digits and punctuation are not.
pub proof fn blanks_are_white(c: char, white: bool)
    requires
        call_ensures(is_white, (c,), white),
    ensures
        c == ' ' || c == '\t' || c == '\n' || c == '\r' ==> white,
        c as u32 == 0x85 || c as u32 == 0xa0 || c as u32 == 0x1680 || c as u32 == 0x2028 || c as u32
            == 0x2029 || c as u32 == 0x202f || c as u32 == 0x205f || c as u32 == 0x3000 ==> white,
        0x2000 <= (c as u32) && (c as u32) <= 0x200a ==> white,
        '!' <= c <= '~' ==> !white,
        (c as u32) > 0x3000 ==> !white,
        0xa0 < (c as u32) && (c as u32) < 0x1680 ==> !white,
{
}

/// The words of a text are never empty, and read one after another they are the text. In each the
/// characters are all white space, or none is, and that changes from each word to the next.
pub proof fn words_make_up_their_text(text: Seq<char>)
    ensures
        joined(runs(text)) == text,
        forall|k: int| 0 <= k < runs(text).len() ==> (#[trigger] runs(text)[k]).len() > 0,
        forall|k: int, i: int|
            #![trigger runs(text)[k][i]]
            0 <= k < runs(text).len() && 0 <= i < runs(text)[k].len() ==> is_white_space(
                runs(text)[k][i],
            ) == is_white_space(runs(text)[k][0]),
        forall|k: int|
            0 < k < runs(text).len() ==> is_white_space((#[trigger] runs(text)[k])[0])
                != is_white_space(runs(text)[k - 1][0]),
    decreases text.len(),
{
    if text.len() > 0 {
        let shorter = text.drop_last();
        let earlier = runs(shorter);
        let c = text.last();
        let now = runs(text);
        words_make_up_their_text(shorter);
        if earlier.len() > 0 && is_white_space(earlier.last().last()) == is_white_space(c) {
            let last = earlier.len() - 1;
            assert(now == earlier.drop_last().push(earlier.last().push(c)));
            assert(now.drop_last() =~= earlier.drop_last());
            assert(joined(now) =~= joined(earlier).push(c));
            assert(joined(now) =~= text);
            assert(earlier[last].len() > 0);
            assert forall|k: int, i: int|
                #![trigger now[k][i]]
                0 <= k < now.len() && 0 <= i < now[k].len() implies is_white_space(now[k][i])
                == is_white_space(now[k][0]) by {
                if k < last {
                    assert(now[k] == earlier[k]);
                    assert(is_white_space(earlier[k][i]) == is_white_space(earlier[k][0]));
                } else {
                    assert(now[k] == earlier[last].push(c));
                    assert(now[k][0] == earlier[last][0]);
                    assert(is_white_space(earlier[last][earlier[last].len() - 1])
                        == is_white_space(earlier[last][0]));
                    if i < earlier[last].len() {
                        assert(is_white_space(earlier[last][i]) == is_white_space(
                            earlier[last][0],
                        ));
                    }
                }
            }
            assert forall|k: int| 0 < k < now.len() implies is_white_space(
                (#[trigger] now[k])[0],
            ) != is_white_space(now[k - 1][0]) by {
                assert(now[k][0] == earlier[k][0]);
                assert(now[k - 1][0] == earlier[k - 1][0]);
            }
        } else {
            assert(now == earlier.push(seq![c]));
            assert(now.drop_last() =~= earlier);
            assert(joined(now) =~= text);
            assert forall|k: int, i: int|
                #![trigger now[k][i]]
                0 <= k < now.len() && 0 <= i < now[k].len() implies is_white_space(now[k][i])
                == is_white_space(now[k][0]) by {
                if k < earlier.len() {
                    assert(now[k] == earlier[k]);
                    assert(is_white_space(earlier[k][i]) == is_white_space(earlier[k][0]));
                }
            }
            assert forall|k: int| 0 < k < now.len() implies is_white_space(
                (#[trigger] now[k])[0],
            ) != is_white_space(now[k - 1][0]) by {
                assert(now[k - 1] == earlier[k - 1]);
                if k < earlier.len() {
                    assert(now[k] == earlier[k]);
                } else {
                    let word = earlier[k - 1];
                    assert(is_white_space(word[word.len() - 1]) == is_white_space(word[0]));
                }
            }
        }
    }
}

/// Texts of an ordinary size can be compared word by word, and whether texts can be does not depend
/// on which is the old one.
pub proof fn ordinary_texts_can_be_compared(
    a: &str,
    b: &str,
    comparable: bool,
    swapped: bool,
)
    requires
        call_ensures(are_comparable, (a, b), comparable),
        call_ensures(are_comparable, (b, a), swapped),
    ensures
        comparable == swapped,
        utf8(a@).len() + utf8(b@).len() <= 0xffff_ffff ==> comparable,
{
    let one = runs(a@) + runs(b@);
    let other = runs(b@) + runs(a@);
    assert(one.to_set() =~= other.to_set()) by {
        assert forall|word: Seq<char>| one.contains(word) == other.contains(word) by {
            if one.contains(word) {
                let i = choose|i: int| 0 <= i < one.len() && one[i] == word;
                let k = if i < runs(a@).len() {
                    i + runs(b@).len()
                } else {
                    i - runs(a@).len()
                };
                assert(other[k] == word);
            }
            if other.contains(word) {
                let i = choose|i: int| 0 <= i < other.len() && other[i] == word;
                let k = if i < runs(b@).len() {
                    i + runs(a@).len()
                } else {
                    i - runs(b@).len()
                };
                assert(one[k] == word);
            }
        }
    }
    crate::diff::words_are_few(a@);
    crate::diff::words_are_few(b@);
    one.lemma_cardinality_of_set();
}

/// A new identifier is none of those that are taken.
pub proof fn a_new_identifier_is_not_taken(taken: Vec<Uuid>, id: Uuid, i: int)
    requires
        call_ensures(unused_id, (&taken,), id),
        0 <= i < taken@.len(),
    ensures
        taken@[i] != id,
{
    assert(taken@.contains(taken@[i]));
}

/// What is filed under an identifier is found under it, and what is not filed is not.
pub proof fn a_table_finds_what_is_filed<V>(
    table: Ledger<V>,
    id: Uuid,
    found: Option<&V>,
    known: bool,
    at: Option<usize>,
)
    requires
        crate::ledger::distinct(table.entries@),
        call_ensures(Ledger::<V>::get, (&table, id), found),
        call_ensures(Ledger::<V>::contains_key, (&table, id), known),
        call_ensures(Ledger::<V>::position, (&table, id), at),
    ensures
        known <==> exists|i: int|
            0 <= i < table.entries@.len() && (#[trigger] table.entries@[i]).0 == id,
        found is Some <==> known,
        at is Some <==> known,
        at matches Some(i) ==> i < table.entries@.len() && table.entries@[i as int].0 == id
            && *found->0 == table.entries@[i as int].1,
{
}

/// What is filed last stands last, and what is removed is gone; the rest keeps its order.
pub proof fn a_table_keeps_its_order<V>(
    table: &mut Ledger<V>,
    other: &mut Ledger<V>,
    id: Uuid,
    value: V,
    at: int,
)
    requires
        crate::ledger::distinct(old(other).entries@),
        call_ensures(Ledger::<V>::push, (table, id, value), ()),
        call_ensures(Ledger::<V>::remove, (other, id), ()),
        0 <= at < old(other).entries@.len(),
        old(other).entries@[at].0 == id,
    ensures
        final(table).entries@ == old(table).entries@.push((id, value)),
        final(other).entries@ == old(other).entries@.remove(at),
{
    crate::ledger::index_is(old(other).entries@, at);
}

/// A log of what was let go notes each identifier once and forgets the oldest first.
pub proof fn a_log_forgets_the_oldest_first(log: &mut Vec<Uuid>, id: Uuid, limit: usize)
    requires
        old(log)@.no_duplicates(),
        old(log)@.len() <= limit,
        0 < limit,
        call_ensures(note_retired, (log, id, limit), ()),
    ensures
        final(log)@.contains(id),
        final(log)@.len() <= limit,
        final(log)@.no_duplicates(),
        old(log)@.contains(id) ==> final(log)@ == old(log)@,
        !old(log)@.contains(id) && old(log)@.len() < limit ==> final(log)@ == old(log)@.push(id),
        !old(log)@.contains(id) && old(log)@.len() == limit ==> final(log)@ == old(log)@.drop_first().push(id),
{
    crate::control_laws::noted_is_listed(old(log)@, id, limit as int);
    if !old(log)@.contains(id) && old(log)@.len() == limit {
        assert(final(log)@ =~= old(log)@.drop_first().push(id));
    }
}

/// What is told of a submission for diagnosis names its identity, its thread and its kind. It says
/// nothing of its text but how long it is, and nothing of what is owned but how much: submissions
/// that agree in the rest are told of alike.
pub proof fn a_description_does_not_show_the_text(
    a: NativeComposerSubmission,
    b: NativeComposerSubmission,
    told_a: String,
    told_b: String,
)
    requires
        call_ensures(NativeComposerSubmission::description, (&a,), told_a),
        call_ensures(NativeComposerSubmission::description, (&b,), told_b),
    ensures
        told_a@ == "NativeComposerSubmission { submission_id: "@ + hyphenated_text(a.submission_id)
            + ", thread_id: "@ + debug_text(a.thread_id@) + ", submitted_text_bytes: "@
            + decimal_text(utf8(a.submitted_text@).len()) + ", lease_count: "@ + decimal_text(
            a.leases@.len(),
        ) + ", direct: "@ + (if a.direct_lease_id is Some {
            "true"@
        } else {
            "false"@
        }) + " }"@,
        a.submission_id == b.submission_id && a.thread_id@ == b.thread_id@ && utf8(
            a.submitted_text@,
        ).len() == utf8(b.submitted_text@).len() && a.leases@.len() == b.leases@.len() && (
        a.direct_lease_id is Some) == (b.direct_lease_id is Some) ==> told_a@ == told_b@,
{
}

} // verus!
