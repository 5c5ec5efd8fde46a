use shift_or_euc::candidate::{disqualifies, DecodeStatus, DecodeStep};
use shift_or_euc::scan::{find_non_ascii_or_escape, is_designator_pair};
use shift_or_euc::{Detector, JapaneseEncoding};

#[test]
fn test_iso_2022_jp() {
    let mut detector = Detector::new(true);
    assert_eq!(
        detector.feed(b"abc\x1B\x28\x42\xFF", true),
        Some(JapaneseEncoding::Iso2022Jp)
    );
}

#[test]
fn test_error_precedence() {
    let mut detector = Detector::new(true);
    assert_eq!(detector.feed(b"abc\xFF", true), Some(JapaneseEncoding::ShiftJis));
}

#[test]
fn test_invalid_euc_jp() {
    let mut detector = Detector::new(true);
    assert_eq!(detector.feed(b"abc\x81\x40", true), Some(JapaneseEncoding::ShiftJis));
}

#[test]
fn test_invalid_shift_jis() {
    let mut detector = Detector::new(true);
    assert_eq!(detector.feed(b"abc\xEB\xA8", true), Some(JapaneseEncoding::EucJp));
}

#[test]
fn test_invalid_shift_jis_before_invalid_euc_jp() {
    let mut detector = Detector::new(true);
    assert_eq!(detector.feed(b"abc\xEB\xA8\x81\x40", true), Some(JapaneseEncoding::EucJp));
}

#[test]
fn escape_split_across_chunks() {
    let mut detector = Detector::new(true);
    assert_eq!(detector.feed(b"abc\x1B\x28", false), None);
    assert!(!detector.has_finished());
    assert_eq!(detector.feed(b"\x42\xFF", true), Some(JapaneseEncoding::Iso2022Jp));
    assert!(detector.has_finished());
}

#[test]
fn every_designator_escape_decides() {
    for esc in [&b"\x1B(B"[..], b"\x1B(J", b"\x1B(I", b"\x1B$@", b"\x1B$B"] {
        let mut input = b"plain ".to_vec();
        input.extend_from_slice(esc);
        input.extend_from_slice(b"\xA4\xA2");
        let mut detector = Detector::new(true);
        assert_eq!(detector.feed(&input, false), Some(JapaneseEncoding::Iso2022Jp));
    }
}

#[test]
fn escape_after_high_byte_is_ignored() {
    let mut detector = Detector::new(true);
    assert_eq!(detector.feed(b"\xEB\xA8\x1B\x28\x42", true), Some(JapaneseEncoding::EucJp));
}

#[test]
fn escape_ignored_when_not_allowed() {
    let mut detector = Detector::new(false);
    assert_eq!(detector.feed(b"abc\x1B\x28\x42", true), Some(JapaneseEncoding::ShiftJis));
}

#[test]
fn unknown_escape_disqualifies_iso_2022_jp() {
    let mut detector = Detector::new(true);
    assert_eq!(detector.feed(b"\x1B\x28\x41\x1B\x28\x42", false), None);
    assert_eq!(detector.feed(b"\xEB\xA8", true), Some(JapaneseEncoding::EucJp));
}

#[test]
fn split_feeding_gives_same_verdict() {
    let whole: &[u8] = b"abc\xEB\xA8\x81\x40";
    let mut one = Detector::new(true);
    let once = one.feed(whole, true);
    for cut in 0..=whole.len() {
        let mut two = Detector::new(true);
        let first = two.feed(&whole[..cut], false);
        let verdict = match first {
            Some(v) => Some(v),
            None => two.feed(&whole[cut..], true),
        };
        assert_eq!(verdict, once);
    }
    assert_eq!(once, Some(JapaneseEncoding::EucJp));
}

#[test]
fn truncated_lead_byte_found_at_end() {
    let mut detector = Detector::new(true);
    assert_eq!(detector.feed(b"abc\xE0", false), None);
    assert_eq!(detector.feed(b"", true), Some(JapaneseEncoding::ShiftJis));
}

#[test]
fn empty_stream_falls_back_to_shift_jis() {
    let mut detector = Detector::new(true);
    assert_eq!(detector.feed(b"", true), Some(JapaneseEncoding::ShiftJis));
}

#[test]
fn ascii_stream_waits_for_end() {
    let mut detector = Detector::new(true);
    assert_eq!(detector.feed(b"hello", false), None);
    assert_eq!(detector.feed(b" world", true), Some(JapaneseEncoding::ShiftJis));
}

#[test]
fn euc_jp_hiragana_is_euc_jp() {
    let mut detector = Detector::new(true);
    assert_eq!(detector.feed(b"\xA4\xA2", false), Some(JapaneseEncoding::EucJp));
}

#[test]
fn shift_jis_hiragana_is_shift_jis() {
    let mut detector = Detector::new(true);
    assert_eq!(detector.feed(b"\x82\xA0", false), Some(JapaneseEncoding::ShiftJis));
}

#[test]
fn half_width_katakana_under_shift_jis_drops_it() {
    let mut detector = Detector::new(true);
    assert_eq!(detector.feed(b"abc\xB1", false), Some(JapaneseEncoding::EucJp));
}

#[test]
fn half_width_katakana_under_euc_jp_drops_it() {
    let mut detector = Detector::new(true);
    assert_eq!(detector.feed(b"\x8E\xB1", false), Some(JapaneseEncoding::ShiftJis));
}

#[test]
fn detector_finishes_only_on_verdict() {
    let mut detector = Detector::new(true);
    assert!(!detector.has_finished());
    assert_eq!(detector.feed(b"abc", false), None);
    assert!(!detector.has_finished());
    assert_eq!(detector.feed(b"\xFF", false), Some(JapaneseEncoding::ShiftJis));
    assert!(detector.has_finished());
}

#[test]
fn disqualifies_each_status() {
    let step = |status, written, unit| DecodeStep { status, written, unit };
    assert!(disqualifies(&step(DecodeStatus::Malformed, 0, 0)));
    assert!(disqualifies(&step(DecodeStatus::OutputFull, 0, 0)));
    assert!(!disqualifies(&step(DecodeStatus::InputEmpty, 0, 0)));
    assert!(!disqualifies(&step(DecodeStatus::InputEmpty, 1, 0x3042)));
    assert!(disqualifies(&step(DecodeStatus::InputEmpty, 1, 0xFF61)));
    assert!(disqualifies(&step(DecodeStatus::InputEmpty, 1, 0xFF9F)));
    assert!(!disqualifies(&step(DecodeStatus::InputEmpty, 1, 0xFF60)));
    assert!(!disqualifies(&step(DecodeStatus::InputEmpty, 1, 0xFFA0)));
    assert!(!disqualifies(&step(DecodeStatus::InputEmpty, 0, 0xFF71)));
}

#[test]
fn find_non_ascii_or_escape_positions() {
    assert_eq!(find_non_ascii_or_escape(b"abc"), 3);
    assert_eq!(find_non_ascii_or_escape(b""), 0);
    assert_eq!(find_non_ascii_or_escape(b"ab\x1Bc"), 2);
    assert_eq!(find_non_ascii_or_escape(b"ab\x80c"), 2);
    assert_eq!(find_non_ascii_or_escape(b"a\x80\x1B"), 1);
    assert_eq!(find_non_ascii_or_escape(b"a\x1B\x80"), 1);
}

#[test]
fn designator_pairs() {
    assert!(is_designator_pair(0x28, 0x42));
    assert!(is_designator_pair(0x28, 0x4A));
    assert!(is_designator_pair(0x28, 0x49));
    assert!(is_designator_pair(0x24, 0x40));
    assert!(is_designator_pair(0x24, 0x42));
    assert!(!is_designator_pair(0x24, 0x49));
    assert!(!is_designator_pair(0x28, 0x40));
    assert!(!is_designator_pair(0x42, 0x28));
}
