//! Properties of the verdict, stated over the stream and proved from the
//! model of the scanner and of the race.
use crate::candidate::candidate_rejects;
use crate::detector::{end_of_race, lemma_race_push, lemma_race_settled, race, verdict};
use crate::scan::{
    candidate_bytes, is_designator, lemma_scan_plain_ascii, lemma_scan_push, lemma_scan_settled,
    scan, ScanState, ESC,
};
use crate::JapaneseEncoding;
use vstd::prelude::*;

verus! {

/// Whether a Shift_JIS (or else EUC-JP) candidate drops out at step `k` of
/// the candidates' bytes `t`: steps below `t.len()` hand it byte `k`, step
/// `t.len()` tells it that the input has ended.
pub open spec fn step_rejects(shift_jis: bool, t: Seq<u8>, k: int) -> bool {
    if k < t.len() {
        candidate_rejects(shift_jis, t.take(k), seq![t[k]], false)
    } else {
        candidate_rejects(shift_jis, t, Seq::empty(), true)
    }
}

/// Whether the candidate first drops out at step `i` over `t` and its end;
/// `i == t.len() + 1` says that it never drops out.
pub open spec fn first_rejection(shift_jis: bool, t: Seq<u8>, i: int) -> bool {
    &&& 0 <= i <= t.len() + 1
    &&& forall|k: int| 0 <= k < i && k <= t.len() ==> !step_rejects(shift_jis, t, k)
    &&& i <= t.len() ==> step_rejects(shift_jis, t, i)
}

/// Whether the candidate decodes `t` and its end without dropping out.
pub open spec fn never_rejects(shift_jis: bool, t: Seq<u8>) -> bool {
    first_rejection(shift_jis, t, (t.len() + 1) as int)
}

proof fn lemma_race_clean_prefix(t: Seq<u8>, n: int)
    requires
        0 <= n <= t.len(),
        forall|k: int| 0 <= k < n ==> !step_rejects(false, t, k) && !step_rejects(true, t, k),
    ensures
        race(t.take(n)) is None,
    decreases n,
{
    if n == 0 {
        assert(t.take(0) =~= Seq::<u8>::empty());
    } else {
        lemma_race_clean_prefix(t, n - 1);
        assert(!step_rejects(false, t, n - 1) && !step_rejects(true, t, n - 1));
        assert(t.take(n) =~= t.take(n - 1).push(t[n - 1]));
        lemma_race_push(t.take(n - 1), t[n - 1]);
    }
}

/// Over the candidates' bytes `t` to their end, the verdict goes to the
/// candidate that drops out later; a tie, or no drop-out at all, goes to
/// Shift_JIS.
pub proof fn lemma_race_by_first_rejection(t: Seq<u8>, i: int, j: int)
    requires
        first_rejection(false, t, i),
        first_rejection(true, t, j),
    ensures
        (match race(t) {
            Some(v) => v,
            None => end_of_race(t),
        }) == (if i <= j { JapaneseEncoding::ShiftJis } else { JapaneseEncoding::EucJp }),
{
    let m = if i <= j { i } else { j };
    if m < t.len() {
        assert(forall|k: int| 0 <= k < m ==> !step_rejects(false, t, k) && !step_rejects(true, t, k));
        lemma_race_clean_prefix(t, m);
        assert(i > m ==> !step_rejects(false, t, m));
        assert(t.take(m + 1) =~= t.take(m).push(t[m]));
        lemma_race_push(t.take(m), t[m]);
        assert(t.take(m + 1) + t.skip(m + 1) =~= t);
        lemma_race_settled(t.take(m + 1), t.skip(m + 1));
    } else {
        assert(forall|k: int| 0 <= k < t.len() ==> !step_rejects(false, t, k) && !step_rejects(true, t, k));
        lemma_race_clean_prefix(t, t.len() as int);
        assert(i > t.len() ==> !step_rejects(false, t, t.len() as int));
        assert(j > t.len() ==> !step_rejects(true, t, t.len() as int));
        assert(t.take(t.len() as int) =~= t);
    }
}

/// At the end of a stream with no designator escape found, the verdict goes
/// to the candidate that drops out later over the bytes it is handed; a
/// tie, or no drop-out at all, goes to Shift_JIS.
pub proof fn lemma_verdict_by_first_rejection(allow_2022: bool, s: Seq<u8>, i: int, j: int)
    requires
        !(scan(allow_2022, s) is Found),
        first_rejection(false, candidate_bytes(allow_2022, s), i),
        first_rejection(true, candidate_bytes(allow_2022, s), j),
    ensures
        verdict(allow_2022, s, true)
            == Some(if i <= j { JapaneseEncoding::ShiftJis } else { JapaneseEncoding::EucJp }),
{
    lemma_race_by_first_rejection(candidate_bytes(allow_2022, s), i, j);
}

/// Where exactly one candidate drops out over the bytes it is handed, the
/// verdict at the end of the stream is the other one (unless a designator
/// escape decided first).
pub proof fn lemma_one_candidate_fails(allow_2022: bool, s: Seq<u8>, i: int)
    requires
        !(scan(allow_2022, s) is Found),
    ensures
        ({
            let t = candidate_bytes(allow_2022, s);
            first_rejection(false, t, i) && i <= t.len() && never_rejects(true, t)
        }) ==> verdict(allow_2022, s, true) == Some(JapaneseEncoding::ShiftJis),
        ({
            let t = candidate_bytes(allow_2022, s);
            first_rejection(true, t, i) && i <= t.len() && never_rejects(false, t)
        }) ==> verdict(allow_2022, s, true) == Some(JapaneseEncoding::EucJp),
{
    let t = candidate_bytes(allow_2022, s);
    if first_rejection(false, t, i) && i <= t.len() && never_rejects(true, t) {
        lemma_verdict_by_first_rejection(allow_2022, s, i, (t.len() + 1) as int);
    }
    if first_rejection(true, t, i) && i <= t.len() && never_rejects(false, t) {
        lemma_verdict_by_first_rejection(allow_2022, s, (t.len() + 1) as int, i);
    }
}

/// Where both candidates drop out, the verdict at the end of the stream is
/// the one that decoded strictly further; on a tie it is Shift_JIS.
pub proof fn lemma_both_candidates_fail(allow_2022: bool, s: Seq<u8>, i: int, j: int)
    requires
        !(scan(allow_2022, s) is Found),
        first_rejection(false, candidate_bytes(allow_2022, s), i),
        first_rejection(true, candidate_bytes(allow_2022, s), j),
        i <= candidate_bytes(allow_2022, s).len(),
        j <= candidate_bytes(allow_2022, s).len(),
    ensures
        verdict(allow_2022, s, true)
            == Some(if i > j { JapaneseEncoding::EucJp } else { JapaneseEncoding::ShiftJis }),
{
    lemma_verdict_by_first_rejection(allow_2022, s, i, j);
}

/// A designator escape whose ESC is the first ESC of the stream and comes
/// before any byte of 0x80 or above decides ISO-2022-JP, whatever follows.
pub proof fn lemma_designator_escape_decides(s: Seq<u8>, k: int, last: bool)
    requires
        0 <= k,
        k + 3 <= s.len(),
        s[k] == ESC,
        is_designator(s[k + 1], s[k + 2]),
        forall|j: int| 0 <= j < k ==> s[j] <= 0x7F && s[j] != ESC,
    ensures
        verdict(true, s, last) == Some(JapaneseEncoding::Iso2022Jp),
{
    let e = Seq::<u8>::empty();
    lemma_scan_plain_ascii(true, e, s.take(k));
    assert(e + s.take(k) =~= s.take(k));
    assert(s.take(k + 1) =~= s.take(k).push(s[k]));
    lemma_scan_push(true, s.take(k), s[k]);
    assert(s.take(k + 2) =~= s.take(k + 1).push(s[k + 1]));
    lemma_scan_push(true, s.take(k + 1), s[k + 1]);
    assert(s.take(k + 3) =~= s.take(k + 2).push(s[k + 2]));
    lemma_scan_push(true, s.take(k + 2), s[k + 2]);
    assert(s.take(k + 3) + s.skip(k + 3) =~= s);
    lemma_scan_settled(true, s.take(k + 3), s.skip(k + 3));
}

/// Feeding `s1` and then `s2` with the end of input gives the verdict that
/// feeding `s1 + s2` at once gives: a verdict named after `s1` is the one
/// the whole stream gets.
pub proof fn lemma_split_feeding(allow_2022: bool, s1: Seq<u8>, s2: Seq<u8>)
    ensures
        (match verdict(allow_2022, s1, false) {
            Some(v) => Some(v),
            None => verdict(allow_2022, s1 + s2, true),
        }) == verdict(allow_2022, s1 + s2, true),
{
    if verdict(allow_2022, s1, false) is Some {
        match scan(allow_2022, s1) {
            ScanState::Found => {
                lemma_scan_settled(allow_2022, s1, s2);
            },
            ScanState::Scanning { .. } => {
                assert(candidate_bytes(allow_2022, s1) =~= Seq::<u8>::empty());
            },
            ScanState::Disqualified { start } => {
                lemma_scan_settled(allow_2022, s1, s2);
                crate::scan::lemma_scan_start_bound(allow_2022, s1);
                let t1 = candidate_bytes(allow_2022, s1);
                assert(candidate_bytes(allow_2022, s1 + s2) =~= t1 + s2);
                lemma_race_settled(t1, s2);
            },
        }
    }
}

} // verus!
