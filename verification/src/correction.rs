//! The application context that spells out a mechanical correction.
use crate::hunks::{
    all_short, are_spelled, cannot_spell, correction_hunks, hunk_views, hunks_end, hunks_located,
    turns_into, Hunk, HunkView,
};
use crate::ids::{hex_digit, hyphenated, hyphenated_text, Uuid};
use crate::text::{byte_len, decimal, decimal_text, text_at, text_at_bytes, utf8};
use std::ops::Range;
use vstd::prelude::*;
use vstd::string::*;

verus! {

/// The longest old text that is spelled out whole, in characters.
pub const OLD_SNIPPET_MAX_CHARS: usize = 640;

/// How JSON writes one character inside a string.
pub open spec fn json_char(c: char) -> Seq<char> {
    if c == '"' {
        seq!['\\', '"']
    } else if c == '\\' {
        seq!['\\', '\\']
    } else if c as u32 == 0x08 {
        seq!['\\', 'b']
    } else if c as u32 == 0x09 {
        seq!['\\', 't']
    } else if c as u32 == 0x0a {
        seq!['\\', 'n']
    } else if c as u32 == 0x0c {
        seq!['\\', 'f']
    } else if c as u32 == 0x0d {
        seq!['\\', 'r']
    } else if (c as u32) < 0x20 {
        seq!['\\', 'u', '0', '0', hex_digit(c as int / 16), hex_digit(c as int % 16)]
    } else {
        seq![c]
    }
}

/// The characters of `text` as JSON writes them inside a string.
pub open spec fn json_chars(text: Seq<char>) -> Seq<char>
    decreases text.len(),
{
    if text.len() == 0 {
        Seq::empty()
    } else {
        json_chars(text.drop_last()) + json_char(text.last())
    }
}

/// `text` as a JSON string.
pub open spec fn json_text(text: Seq<char>) -> Seq<char> {
    seq!['"'] + json_chars(text) + seq!['"']
}

/// `serde_json::to_string` of a string: the string between quotation marks, with quotation marks,
/// backslashes and the characters below U+0020 escaped. Writing a string does not fail.
#[verifier::external_body]
fn json_string(text: &str) -> (json: Option<String>)
    ensures
        json is Some,
        json->0@ == json_text(text@),
{
    serde_json::to_string(text).ok()
}

/// How many occurrences of `pattern` are met from byte `from` on, up to one that starts at
/// `limit`, when each starts behind the one before.
pub open spec fn occurrences(text: Seq<u8>, pattern: Seq<u8>, from: int, limit: int) -> nat
    decreases text.len() - from,
{
    if pattern.len() == 0 || from < 0 || from > limit || from + pattern.len() > text.len() {
        0
    } else if text.subrange(from, from + pattern.len()) == pattern {
        1 + occurrences(text, pattern, from + pattern.len(), limit)
    } else {
        occurrences(text, pattern, from + 1, limit)
    }
}

/// `true` exactly when `pattern` stands at byte `from` of `text`.
fn stands_at(text: &[u8], pattern: &[u8], from: usize) -> (found: bool)
    requires
        from + pattern@.len() <= text@.len(),
    ensures
        found == (text@.subrange(from as int, from + pattern@.len()) == pattern@),
{
    let len: usize = text.len();
    let mut i: usize = 0;
    while i < pattern.len()
        invariant
            i <= pattern@.len(),
            from + pattern@.len() <= text@.len(),
            text@.len() == len,
            forall|k: int| 0 <= k < i ==> #[trigger] pattern@[k] == text@[from + k],
        decreases pattern@.len() - i,
    {
        if text[from + i] != pattern[i] {
            assert(text@.subrange(from as int, from + pattern@.len())[i as int] == text@[from + i]);
            return false;
        }
        i += 1;
    }
    assert(text@.subrange(from as int, from + pattern@.len()) =~= pattern@);
    true
}

/// Which of the occurrences of `pattern` in `text`, counted from one, is the last that starts at
/// byte `limit` or before. An empty pattern has none.
pub fn occurrence_at(text: &str, pattern: &str, limit: usize) -> (count: usize)
    ensures
        count == occurrences(utf8(text@), utf8(pattern@), 0, limit as int),
{
    let text_len: usize = byte_len(text);
    let pattern_len: usize = byte_len(pattern);
    let text_bytes: &[u8] = text.as_bytes();
    let pattern_bytes: &[u8] = pattern.as_bytes();
    proof {
        reveal(utf8);
    }
    if pattern_len == 0 {
        return 0;
    }
    let ghost total = occurrences(text_bytes@, pattern_bytes@, 0, limit as int);
    let mut count: usize = 0;
    let mut from: usize = 0;
    while from <= limit && from <= text_len && pattern_len <= text_len - from
        invariant
            text_bytes@.len() == text_len,
            pattern_bytes@.len() == pattern_len,
            pattern_len > 0,
            count <= from,
            from <= text_len,
            total == count + occurrences(text_bytes@, pattern_bytes@, from as int, limit as int),
        decreases text_len - from,
    {
        if stands_at(text_bytes, pattern_bytes, from) {
            count += 1;
            from += pattern_len;
        } else {
            from += 1;
        }
    }
    count
}

/// `value`, or its two ends around an ellipsis where it has more than `max_chars` characters.
pub open spec fn compacted(value: Seq<char>, max_chars: int) -> Seq<char> {
    let side = if max_chars < 3 {
        0
    } else {
        (max_chars - 3) / 2
    };
    if value.len() <= max_chars {
        value
    } else {
        value.take(side) + " … "@ + value.subrange(value.len() - side, value.len() as int)
    }
}

/// A rendering of `value` that elides its middle where it is longer than `max_chars`.
pub fn compact_old_snippet(value: &str, max_chars: usize) -> (snippet: String)
    ensures
        snippet@ == compacted(value@, max_chars as int),
{
    let char_count: usize = value.unicode_len();
    if char_count <= max_chars {
        return String::from_str(value);
    }
    let side: usize = if max_chars < 3 {
        0
    } else {
        (max_chars - 3) / 2
    };
    let head: &str = value.substring_char(0, side);
    let tail: &str = value.substring_char(char_count - side, char_count);
    let snippet: String = String::from_str(head).concat(" … ").concat(tail);
    assert(snippet@ =~= compacted(value@, max_chars as int));
    snippet
}

/// The opening of a correction: which message it amends, and which bytes of it.
pub open spec fn header_text(submission_id: Uuid, start: nat, end: nat) -> Seq<char> {
    "Automated mechanical transcription correction (application context, not a user message).\nTarget: the same-thread user submission acknowledged under internal receipt koenig-composer-"@
        + hyphenated_text(submission_id)
        + ", specifically Koenig-owned submitted-message bytes "@ + decimal_text(start) + ".."@
        + decimal_text(end)
        + ". The model-visible Application receipt immediately preceding that user message identifies the target; the byte coordinates and exact old text identify its owned range. Do not alter text outside that owned range.\nTreat only the exact replacements below as corrections to the prior message. The receiving agent may discern their semantic impact; Koenig asserts no edit beyond the enumerated mechanical replacements."@
}

/// One replacement as it is spelled out: its number, its place in the submitted message, which
/// occurrence of the old text that is, and both texts.
pub open spec fn hunk_text(
    number: nat,
    submitted: Seq<char>,
    lease_start: int,
    hunk: HunkView,
) -> Seq<char> {
    let start = lease_start + hunk.start;
    let end = lease_start + hunk.end();
    let places = "\n\nHunk "@ + decimal_text(number) + ": old bytes "@ + decimal_text(start as nat)
        + ".."@ + decimal_text(end as nat) + "; occurrence "@ + decimal_text(
        occurrences(utf8(submitted), utf8(hunk.old), 0, start),
    );
    if hunk.old.len() == 0 {
        "\n\nHunk "@ + decimal_text(number) + ": insert at submitted-message byte "@ + decimal_text(
            start as nat,
        ) + ".\n- \"\"\n+ "@ + json_text(hunk.new)
    } else if hunk.old.len() <= OLD_SNIPPET_MAX_CHARS {
        places + " of this exact old text in the submitted message.\n- "@ + json_text(hunk.old)
            + "\n+ "@ + json_text(hunk.new)
    } else {
        places
            + " of this old range in the submitted message. The old rendering elides its middle; the byte range plus both anchors is authoritative.\n- "@
            + json_text(compacted(hunk.old, OLD_SNIPPET_MAX_CHARS as int)) + "\n+ "@ + json_text(
            hunk.new,
        )
    }
}

/// A correction with its first `count` replacements spelled out.
pub open spec fn rendering(
    submission_id: Uuid,
    submitted: Seq<char>,
    start: int,
    end: int,
    hunks: Seq<HunkView>,
    count: int,
) -> Seq<char>
    decreases count,
{
    if count <= 0 {
        header_text(submission_id, start as nat, end as nat)
    } else {
        rendering(submission_id, submitted, start, end, hunks, count - 1) + hunk_text(
            count as nat,
            submitted,
            start,
            hunks[count - 1],
        )
    }
}

fn render_header(submission_id: Uuid, start: usize, end: usize) -> (text: String)
    ensures
        text@ == header_text(submission_id, start as nat, end as nat),
{
    let mut text: String = String::from_str(
        "Automated mechanical transcription correction (application context, not a user message).\nTarget: the same-thread user submission acknowledged under internal receipt koenig-composer-",
    );
    text.append(hyphenated(submission_id).as_str());
    text.append(", specifically Koenig-owned submitted-message bytes ");
    text.append(decimal(start as u64).as_str());
    text.append("..");
    text.append(decimal(end as u64).as_str());
    text.append(
        ". The model-visible Application receipt immediately preceding that user message identifies the target; the byte coordinates and exact old text identify its owned range. Do not alter text outside that owned range.\nTreat only the exact replacements below as corrections to the prior message. The receiving agent may discern their semantic impact; Koenig asserts no edit beyond the enumerated mechanical replacements.",
    );
    text
}

/// Spells one replacement out.
pub fn render_hunk(number: usize, submitted: &str, lease_start: usize, hunk: &Hunk) -> (text:
    Option<String>)
    requires
        lease_start + hunk@.end() <= usize::MAX,
    ensures
        text is Some,
        text->0@ == hunk_text(number as nat, submitted@, lease_start as int, hunk@),
{
    let old_len: usize = byte_len(hunk.old.as_str());
    let submitted_old_start: usize = lease_start + hunk.start;
    let submitted_old_end: usize = submitted_old_start + old_len;
    let occurrence: usize = occurrence_at(submitted, hunk.old.as_str(), submitted_old_start);
    let old_char_count: usize = hunk.old.as_str().unicode_len();
    let snippet: String = compact_old_snippet(hunk.old.as_str(), OLD_SNIPPET_MAX_CHARS);
    let old_rendered: String = match json_string(snippet.as_str()) {
        Some(json) => json,
        None => return None,
    };
    let new: String = match json_string(hunk.new.as_str()) {
        Some(json) => json,
        None => return None,
    };
    let mut text: String = String::from_str("\n\nHunk ");
    text.append(decimal(number as u64).as_str());
    if old_char_count == 0 {
        text.append(": insert at submitted-message byte ");
        text.append(decimal(submitted_old_start as u64).as_str());
        text.append(".\n- \"\"\n+ ");
    } else {
        text.append(": old bytes ");
        text.append(decimal(submitted_old_start as u64).as_str());
        text.append("..");
        text.append(decimal(submitted_old_end as u64).as_str());
        text.append("; occurrence ");
        text.append(decimal(occurrence as u64).as_str());
        if old_char_count <= OLD_SNIPPET_MAX_CHARS {
            text.append(" of this exact old text in the submitted message.\n- ");
        } else {
            text.append(
                " of this old range in the submitted message. The old rendering elides its middle; the byte range plus both anchors is authoritative.\n- ",
            );
        }
        text.append(old_rendered.as_str());
        text.append("\n+ ");
    }
    text.append(new.as_str());
    Some(text)
}

/// The texts whose size decides whether a correction may be sent: the correction after each of
/// its replacements, or its opening where it has none.
pub open spec fn renderings(
    submission_id: Uuid,
    submitted: Seq<char>,
    start: int,
    end: int,
    hunks: Seq<HunkView>,
) -> Seq<Seq<char>> {
    if hunks.len() == 0 {
        seq![header_text(submission_id, start as nat, end as nat)]
    } else {
        Seq::new(
            hunks.len(),
            |k: int| rendering(submission_id, submitted, start, end, hunks, k + 1),
        )
    }
}

/// Spells the replacements out one after another, keeping the text after each.
pub fn render_correction(
    submission_id: Uuid,
    submitted: &str,
    lease_range: &Range<usize>,
    hunks: &Vec<Hunk>,
) -> (drafts: Option<Vec<String>>)
    requires
        forall|k: int|
            0 <= k < hunks@.len() ==> lease_range.start + (#[trigger] hunks@[k])@.end()
                <= usize::MAX,
    ensures
        drafts is Some,
        crate::diff::texts(drafts->0@) == renderings(
            submission_id,
            submitted@,
            lease_range.start as int,
            lease_range.end as int,
            hunk_views(hunks@),
        ),
{
    let mut rendered: String = render_header(submission_id, lease_range.start, lease_range.end);
    let mut drafts: Vec<String> = Vec::new();
    let ghost views = hunk_views(hunks@);
    let ghost start = lease_range.start as int;
    let ghost end = lease_range.end as int;
    if hunks.len() == 0 {
        drafts.push(rendered);
        assert(crate::diff::texts(drafts@) =~= renderings(
            submission_id,
            submitted@,
            start,
            end,
            views,
        ));
        return Some(drafts);
    }
    let mut k: usize = 0;
    while k < hunks.len()
        invariant
            k <= hunks@.len(),
            views == hunk_views(hunks@),
            start == lease_range.start,
            end == lease_range.end,
            forall|j: int|
                0 <= j < hunks@.len() ==> lease_range.start + (#[trigger] hunks@[j])@.end()
                    <= usize::MAX,
            rendered@ == rendering(submission_id, submitted@, start, end, views, k as int),
            drafts@.len() == k,
            forall|j: int|
                0 <= j < k ==> (#[trigger] drafts@[j])@ == rendering(
                    submission_id,
                    submitted@,
                    start,
                    end,
                    views,
                    j + 1,
                ),
        decreases hunks@.len() - k,
    {
        assert(views[k as int] == hunks@[k as int]@);
        let spelled: String = match render_hunk(k + 1, submitted, lease_range.start, &hunks[k]) {
            Some(text) => text,
            None => return None,
        };
        rendered.append(spelled.as_str());
        drafts.push(rendered.clone());
        k += 1;
    }
    assert(crate::diff::texts(drafts@) =~= renderings(
        submission_id,
        submitted@,
        start,
        end,
        views,
    ));
    Some(drafts)
}

/// `hunks` are the replacements to spell out for `expected` and `replacement`; they amend the one
/// to the other, within `start..end` of `submitted` where that is where `expected` stands, and
/// `drafts` spell them out.
pub open spec fn is_correction(
    submission_id: Uuid,
    submitted: Seq<char>,
    start: int,
    end: int,
    expected: Seq<char>,
    replacement: Seq<char>,
    hunks: Seq<HunkView>,
    drafts: Seq<Seq<char>>,
) -> bool {
    &&& are_spelled(expected, replacement, hunks)
    &&& turns_into(expected, hunks, replacement)
    &&& all_short(hunks)
    &&& text_at(submitted, start, end) == Some(expected) ==> within_lease(
        submitted,
        start,
        end,
        hunks,
    )
    &&& drafts == renderings(submission_id, submitted, start, end, hunks)
}

/// The place of each replacement lies in `start..end` and holds its old text.
pub open spec fn within_lease(
    submitted: Seq<char>,
    start: int,
    end: int,
    hunks: Seq<HunkView>,
) -> bool {
    forall|k: int| #![trigger hunks[k]]
        0 <= k < hunks.len() ==> {
            &&& start <= start + hunks[k].start <= start + hunks[k].end() <= end
            &&& utf8(submitted).subrange(start + hunks[k].start, start + hunks[k].end()) == utf8(
                hunks[k].old,
            )
        }
}

/// Replacements of an owned text lie in the range that is owned.
pub proof fn located_within_lease(
    submitted: Seq<char>,
    start: int,
    end: int,
    expected: Seq<char>,
    hunks: Seq<HunkView>,
)
    requires
        text_at(submitted, start, end) == Some(expected),
        hunks_located(utf8(expected), hunks),
    ensures
        within_lease(submitted, start, end, hunks),
        end - start == utf8(expected).len(),
{
    text_at_bytes(submitted, start, end);
    assert forall|k: int| #![trigger hunks[k]] 0 <= k < hunks.len() implies {
        &&& start <= start + hunks[k].start <= start + hunks[k].end() <= end
        &&& utf8(submitted).subrange(start + hunks[k].start, start + hunks[k].end()) == utf8(
            hunks[k].old,
        )
    } by {
        assert(0 <= hunks_end(hunks, k));
        assert(utf8(submitted).subrange(start + hunks[k].start, start + hunks[k].end())
            =~= utf8(expected).subrange(hunks[k].start, hunks[k].end()));
    }
}

/// The drafts of a correction that amends `expected`, the text at `lease_range` of
/// `submitted_text`, to `replacement`. The last draft is the correction; it may be sent where
/// none of the drafts has to be cut to fit.
pub fn mechanical_correction_context(
    submission_id: Uuid,
    submitted_text: &str,
    lease_range: &Range<usize>,
    expected: &str,
    replacement: &str,
) -> (drafts: Option<Vec<String>>)
    requires
        lease_range.start + utf8(expected@).len() <= usize::MAX,
    ensures
        match drafts {
            Some(list) => list@.len() > 0 && exists|hunks: Seq<HunkView>|
                #[trigger] is_correction(
                    submission_id,
                    submitted_text@,
                    lease_range.start as int,
                    lease_range.end as int,
                    expected@,
                    replacement@,
                    hunks,
                    crate::diff::texts(list@),
                ),
            None => cannot_spell(expected@, replacement@),
        },
{
    let hunks: Vec<Hunk> = match correction_hunks(expected, replacement) {
        Some(hunks) => hunks,
        None => return None,
    };
    proof {
        let start = lease_range.start as int;
        let end = lease_range.end as int;
        if text_at(submitted_text@, start, end) == Some(expected@) {
            located_within_lease(submitted_text@, start, end, expected@, hunk_views(hunks@));
        }
        assert forall|k: int| 0 <= k < hunks@.len() implies lease_range.start + (
        #[trigger] hunks@[k])@.end() <= usize::MAX by {
            assert(hunk_views(hunks@)[k] == hunks@[k]@);
        }
    }
    let drafts: Option<Vec<String>> = render_correction(
        submission_id,
        submitted_text,
        lease_range,
        &hunks,
    );
    proof {
        assert(crate::diff::texts(drafts->0@).len() == drafts->0@.len());
        assert(is_correction(
            submission_id,
            submitted_text@,
            lease_range.start as int,
            lease_range.end as int,
            expected@,
            replacement@,
            hunk_views(hunks@),
            crate::diff::texts(drafts->0@),
        ));
    }
    drafts
}

} // verus!
