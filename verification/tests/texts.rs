use composer_control::correction::{
    compact_old_snippet, mechanical_correction_context, occurrence_at,
};
use composer_control::diff::{are_comparable, MAX_DIFFERENT_WORDS};
use composer_control::digest::{text_hash, TextDigest};
use composer_control::hunks::{common_affix_hunk, correction_hunks};
use composer_control::ids::Uuid;
use composer_control::submission::{
    client_message_id_of, NativeComposerSubmission, SubmittedComposerLease,
};
use composer_control::text::{byte_len, decimal, same_text, slice};

const ID: Uuid = 0x0011_2233_4455_4677_8899_aabb_ccdd_eeff;

fn leased(text: &str, id: u64, start: usize, end: usize) -> NativeComposerSubmission {
    NativeComposerSubmission::new(
        "thread".to_string(),
        text,
        vec![SubmittedComposerLease {
            id,
            range: start..end,
        }],
    )
    .expect("the range names text of the message")
}

#[test]
fn a_digest_is_that_of_the_bytes() {
    assert_eq!(
        text_hash("abc"),
        TextDigest {
            upper: 0xba78_16bf_8f01_cfea_4141_40de_5dae_2223,
            lower: 0xb003_61a3_9617_7a9c_b410_ff61_f200_15ad,
        }
    );
    assert_eq!(
        text_hash(""),
        TextDigest {
            upper: 0xe3b0_c442_98fc_1c14_9afb_f4c8_996f_b924,
            lower: 0x27ae_41e4_649b_934c_a495_991b_7852_b855,
        }
    );
}

#[test]
fn texts_are_cut_at_character_boundaries_only() {
    assert_eq!(byte_len("aé…"), 6);
    assert_eq!(slice("aé…", 1, 3), Some("é"));
    assert_eq!(slice("aé…", 2, 3), None);
    assert_eq!(slice("aé…", 0, 7), None);
    assert_eq!(slice("aé…", 3, 1), None);
    assert_eq!(slice("", 0, 0), Some(""));
    assert!(same_text("é", "é"));
    assert!(!same_text("é", "e"));
}

#[test]
fn numbers_are_written_in_decimal() {
    assert_eq!(decimal(0), "0");
    assert_eq!(decimal(10), "10");
    assert_eq!(decimal(u64::MAX), "18446744073709551615");
}

#[test]
fn a_message_is_sent_under_its_submission() {
    assert_eq!(
        client_message_id_of(ID),
        "koenig-composer-00112233-4455-4677-8899-aabbccddeeff"
    );
}

#[test]
fn a_receipt_is_keyed_by_plain_digits() {
    let submission =
        NativeComposerSubmission::new_direct(ID, 3, "thread".to_string(), "a message");
    let (key, value) = submission.receipt_context();
    assert_eq!(
        key,
        "koenig_transcription_receipt_00112233445546778899aabbccddeeff"
    );
    assert_eq!(
        value,
        "Koenig submission receipt koenig-composer-00112233-4455-4677-8899-aabbccddeeff. The \
         immediately following user message contains the Koenig-owned transcription associated \
         with this receipt. A later Application-context correction naming this receipt \
         mechanically amends only the explicitly identified owned range in that message."
    );
    assert!(submission.is_direct());
    assert_eq!(submission.submitted_text(), "a message");
    assert_eq!(submission.thread_id(), "thread");
}

#[test]
fn a_submission_keeps_the_ranges_that_name_text() {
    let made = NativeComposerSubmission::new(
        "thread".to_string(),
        "né",
        vec![
            SubmittedComposerLease { id: 1, range: 0..2 },
            SubmittedComposerLease { id: 2, range: 1..3 },
            SubmittedComposerLease { id: 3, range: 0..9 },
        ],
    )
    .expect("one range names text");
    assert_eq!(made.leases.len(), 1);
    assert_eq!(made.leases[0].native, 2);
    assert!(!made.is_direct());
    assert!(NativeComposerSubmission::new(
        "thread".to_string(),
        "né",
        vec![SubmittedComposerLease { id: 1, range: 0..2 }],
    )
    .is_none());
}

#[test]
fn parts_are_merged_in_order() {
    let first = leased("one", 1, 0, 3);
    let second = leased("two", 2, 0, 3);
    let merged = NativeComposerSubmission::merge_parts(
        vec![
            ("one".to_string(), Some(first)),
            ("plain".to_string(), None),
            ("two".to_string(), Some(second)),
        ],
        "one\nplain\ntwo",
    )
    .expect("the parts make up the message");
    assert_eq!(merged.submitted_text, "one\nplain\ntwo");
    assert_eq!(merged.leases.len(), 2);
    assert_eq!(merged.leases[0].range, 0..3);
    assert_eq!(merged.leases[1].range, 10..13);
}

#[test]
fn a_message_that_the_parts_do_not_make_up_has_no_provenance() {
    assert!(NativeComposerSubmission::merge_parts(
        vec![("one".to_string(), Some(leased("one", 1, 0, 3)))],
        "another",
    )
    .is_none());
    assert!(
        NativeComposerSubmission::merge_parts(vec![("one".to_string(), None)], "one").is_none()
    );
}

#[test]
fn occurrences_are_counted_up_to_a_place() {
    assert_eq!(occurrence_at("ab ab ab", "ab", 3), 2);
    assert_eq!(occurrence_at("ab ab ab", "ab", 5), 2);
    assert_eq!(occurrence_at("ab ab ab", "ab", 6), 3);
    assert_eq!(occurrence_at("aaaa", "aa", 2), 2);
    assert_eq!(occurrence_at("aaaa", "", 2), 0);
    assert_eq!(occurrence_at("ab", "abc", 0), 0);
}

#[test]
fn a_long_old_text_is_elided_in_its_middle() {
    assert_eq!(compact_old_snippet("abcdefghij", 10), "abcdefghij");
    assert_eq!(compact_old_snippet("abcdefghij", 9), "abc … hij");
    assert_eq!(compact_old_snippet("abcdefghij", 2), " … ");
    assert_eq!(compact_old_snippet("éééééééééé", 5), "é … é");
}

#[test]
fn a_single_hunk_spans_what_the_texts_do_not_share() {
    assert_eq!(common_affix_hunk("one two three", "one 2 three"), (4, "two", "2"));
    assert_eq!(common_affix_hunk("aa", "aaa"), (2, "", "a"));
    assert_eq!(common_affix_hunk("née", "nèe"), (1, "é", "è"));
    assert_eq!(common_affix_hunk("same", "same"), (4, "", ""));
}

#[test]
fn hunks_turn_the_old_text_into_the_new_one() {
    let old = "start parakeat and a long stretch of words that stays as it is until the eror";
    let new = "start Parakeet and a long stretch of words that stays as it is until the error";
    let hunks = correction_hunks(old, new).expect("short texts can be compared");
    assert_eq!(hunks.len(), 2);
    assert_eq!(hunks[0].start, 0);
    assert_eq!(hunks[0].old, "start parakeat and a long");
    assert_eq!(hunks[0].new, "start Parakeet and a long");
    assert_eq!(hunks[1].start, old.find("is until").expect("the words are there"));
    assert_eq!(hunks[1].old, "is until the eror");
    assert_eq!(hunks[1].new, "is until the error");
    let mut turned = String::new();
    let mut from = 0;
    for hunk in &hunks {
        turned.push_str(&old[from..hunk.start]);
        assert_eq!(&old[hunk.start..hunk.start + hunk.old.len()], hunk.old);
        turned.push_str(&hunk.new);
        from = hunk.start + hunk.old.len();
    }
    turned.push_str(&old[from..]);
    assert_eq!(turned, new);
    assert!(are_comparable(old, new));
    assert_eq!(MAX_DIFFERENT_WORDS, u32::MAX);
}

#[test]
fn changes_that_are_near_each_other_share_a_hunk() {
    let near = correction_hunks("x a b c d y", "X a b c d Y").expect("short texts");
    assert_eq!(near.len(), 1);
    assert_eq!(near[0].old, "x a b c d y");
    assert_eq!(near[0].new, "X a b c d Y");
    let word = correction_hunks("parakeat", "Parakeet").expect("short texts");
    assert_eq!(word.len(), 1);
    assert_eq!((word[0].start, word[0].old.as_str()), (0, "parakeat"));
    assert!(correction_hunks("same", "same").expect("short texts").is_empty());
}

#[test]
fn long_changes_are_told_without_their_shared_ends() {
    let old = format!("{}a{}", "x".repeat(9000), "y".repeat(9000));
    let new = format!("{}b{}", "x".repeat(9000), "y".repeat(9000));
    let hunks = correction_hunks(&old, &new).expect("one character differs");
    assert_eq!(hunks.len(), 1);
    assert_eq!(hunks[0].start, 9000);
    assert_eq!((hunks[0].old.as_str(), hunks[0].new.as_str()), ("a", "b"));
    assert!(correction_hunks(&"x".repeat(9000), &"y".repeat(9000)).is_none());
}

#[test]
fn a_correction_spells_out_place_occurrence_and_both_texts() {
    let submitted = "say \"hi\" hi";
    let drafts = mechanical_correction_context(ID, submitted, &(9..11), "hi", "ho\n")
        .expect("a short correction can be spelled out");
    let context = drafts.last().expect("a correction has a text");
    assert_eq!(
        context,
        "Automated mechanical transcription correction (application context, not a user \
         message).\nTarget: the same-thread user submission acknowledged under internal receipt \
         koenig-composer-00112233-4455-4677-8899-aabbccddeeff, specifically Koenig-owned \
         submitted-message bytes 9..11. The model-visible Application receipt immediately \
         preceding that user message identifies the target; the byte coordinates and exact old \
         text identify its owned range. Do not alter text outside that owned range.\nTreat only \
         the exact replacements below as corrections to the prior message. The receiving agent \
         may discern their semantic impact; Koenig asserts no edit beyond the enumerated \
         mechanical replacements.\n\nHunk 1: old bytes 9..11; occurrence 2 of this exact old \
         text in the submitted message.\n- \"hi\"\n+ \"ho\\n\""
    );
}

#[test]
fn an_insertion_names_its_place() {
    let drafts = mechanical_correction_context(ID, "", &(0..0), "", "\"x\"")
        .expect("an insertion can be spelled out");
    assert!(drafts
        .last()
        .expect("a correction has a text")
        .ends_with("\n\nHunk 1: insert at submitted-message byte 0.\n- \"\"\n+ \"\\\"x\\\"\""));
}
