//! The detector: runs the escape scanner, then races the Shift_JIS and
//! EUC-JP candidates over the same bytes, and names the verdict.
use crate::candidate::{candidate_rejects, Candidate};
use crate::scan::{candidate_bytes, scan, EscapeScanner, ScanState};
use crate::JapaneseEncoding;
use vstd::prelude::*;

verus! {

/// The verdict of the race over the candidates' bytes `t`, before the end
/// of the input: byte by byte, the EUC-JP candidate is asked first, and the
/// first candidate to drop out hands the verdict to the other.
pub open spec fn race(t: Seq<u8>) -> Option<JapaneseEncoding>
    decreases t.len(),
{
    if t.len() == 0 {
        None
    } else {
        match race(t.drop_last()) {
            Some(v) => Some(v),
            None => {
                let handed = t.drop_last();
                let b = seq![t.last()];
                if candidate_rejects(false, handed, b, false) {
                    Some(JapaneseEncoding::ShiftJis)
                } else if candidate_rejects(true, handed, b, false) {
                    Some(JapaneseEncoding::EucJp)
                } else {
                    None
                }
            },
        }
    }
}

/// The verdict at the end of the input when neither candidate dropped out
/// on the bytes `t`: the end of input is told to EUC-JP first, then to
/// Shift_JIS; if both survive it, Shift_JIS is the fixed choice.
pub open spec fn end_of_race(t: Seq<u8>) -> JapaneseEncoding {
    if candidate_rejects(false, t, Seq::empty(), true) {
        JapaneseEncoding::ShiftJis
    } else if candidate_rejects(true, t, Seq::empty(), true) {
        JapaneseEncoding::EucJp
    } else {
        JapaneseEncoding::ShiftJis
    }
}

/// The verdict on the stream `s`, with `last` saying whether it has ended;
/// `None` asks for more input.
pub open spec fn verdict(allow_2022: bool, s: Seq<u8>, last: bool) -> Option<JapaneseEncoding> {
    match scan(allow_2022, s) {
        ScanState::Found => Some(JapaneseEncoding::Iso2022Jp),
        _ => {
            let t = candidate_bytes(allow_2022, s);
            match race(t) {
                Some(v) => Some(v),
                None => if last {
                    Some(end_of_race(t))
                } else {
                    None
                },
            }
        },
    }
}

pub proof fn lemma_race_push(t: Seq<u8>, b: u8)
    ensures
        race(t.push(b)) == (match race(t) {
            Some(v) => Some(v),
            None => if candidate_rejects(false, t, seq![b], false) {
                Some(JapaneseEncoding::ShiftJis)
            } else if candidate_rejects(true, t, seq![b], false) {
                Some(JapaneseEncoding::EucJp)
            } else {
                None
            },
        }),
{
    assert(t.push(b).drop_last() =~= t);
}

/// Once the race has a verdict, later bytes do not change it.
pub proof fn lemma_race_settled(t: Seq<u8>, u: Seq<u8>)
    requires
        race(t) is Some,
    ensures
        race(t + u) == race(t),
    decreases u.len(),
{
    if u.len() == 0 {
        assert(t + u =~= t);
    } else {
        let w = u.drop_last();
        lemma_race_settled(t, w);
        assert(t + u =~= (t + w).push(u.last()));
        lemma_race_push(t + w, u.last());
    }
}

/// Hands `buffer[i..]` to both candidates, EUC-JP first for each byte, until
/// one of them drops out; returns the verdict of the race, if any.
fn race_chunk(euc_jp: &mut Candidate, shift_jis: &mut Candidate, buffer: &[u8], i: usize) -> (r: Option<JapaneseEncoding>)
    requires
        old(euc_jp).is_open(),
        old(shift_jis).is_open(),
        !old(euc_jp).is_shift_jis(),
        old(shift_jis).is_shift_jis(),
        old(euc_jp).handed() == old(shift_jis).handed(),
        race(old(euc_jp).handed()) is None,
        i <= buffer@.len(),
    ensures
        r == race(old(euc_jp).handed() + buffer@.subrange(i as int, buffer@.len() as int)),
        !final(euc_jp).is_shift_jis(),
        final(shift_jis).is_shift_jis(),
        r is None ==> {
            &&& final(euc_jp).handed() == old(euc_jp).handed() + buffer@.subrange(i as int, buffer@.len() as int)
            &&& final(shift_jis).handed() == final(euc_jp).handed()
            &&& final(euc_jp).is_open()
            &&& final(shift_jis).is_open()
            &&& !final(euc_jp).is_shift_jis()
            &&& final(shift_jis).is_shift_jis()
        },
{
    let ghost h0 = euc_jp.handed();
    let ghost whole = h0 + buffer@.subrange(i as int, buffer@.len() as int);
    let mut j: usize = i;
    assert(h0 + buffer@.subrange(i as int, j as int) =~= h0);
    while j < buffer.len()
        invariant
            i <= j <= buffer@.len(),
            h0 == old(euc_jp).handed(),
            whole == h0 + buffer@.subrange(i as int, buffer@.len() as int),
            euc_jp.handed() == h0 + buffer@.subrange(i as int, j as int),
            shift_jis.handed() == euc_jp.handed(),
            race(euc_jp.handed()) is None,
            euc_jp.is_open(),
            shift_jis.is_open(),
            !euc_jp.is_shift_jis(),
            shift_jis.is_shift_jis(),
        decreases buffer@.len() - j,
    {
        let ghost handed = euc_jp.handed();
        let ghost next = handed.push(buffer@[j as int]);
        proof {
            lemma_race_push(handed, buffer@[j as int]);
            assert(next =~= h0 + buffer@.subrange(i as int, j + 1));
            assert(whole =~= next + buffer@.subrange(j + 1, buffer@.len() as int));
        }
        if euc_jp.feed_byte(buffer, j) {
            proof {
                lemma_race_settled(next, buffer@.subrange(j + 1, buffer@.len() as int));
            }
            return Some(JapaneseEncoding::ShiftJis);
        }
        if shift_jis.feed_byte(buffer, j) {
            proof {
                lemma_race_settled(next, buffer@.subrange(j + 1, buffer@.len() as int));
            }
            return Some(JapaneseEncoding::EucJp);
        }
        j += 1;
    }
    None
}

/// Tells both candidates that the input has ended, EUC-JP first, and names
/// the verdict.
fn end_race(euc_jp: &mut Candidate, shift_jis: &mut Candidate) -> (r: JapaneseEncoding)
    requires
        old(euc_jp).is_open(),
        old(shift_jis).is_open(),
        !old(euc_jp).is_shift_jis(),
        old(shift_jis).is_shift_jis(),
        old(euc_jp).handed() == old(shift_jis).handed(),
    ensures
        r == end_of_race(old(euc_jp).handed()),
        !final(euc_jp).is_shift_jis(),
        final(shift_jis).is_shift_jis(),
{
    if euc_jp.finish() {
        return JapaneseEncoding::ShiftJis;
    }
    if shift_jis.finish() {
        return JapaneseEncoding::EucJp;
    }
    JapaneseEncoding::ShiftJis
}

/// An incremental detector of Shift_JIS, EUC-JP and ISO-2022-JP.
pub struct Detector {
    shift_jis: Candidate,
    euc_jp: Candidate,
    scanner: EscapeScanner,
    finished: bool,
    allow_2022: Ghost<bool>,
    consumed: Ghost<Seq<u8>>,
}

impl Detector {
    /// Whether ISO-2022-JP is among the encodings this detector may name.
    pub closed spec fn allows_iso_2022_jp(&self) -> bool {
        self.allow_2022@
    }

    /// All bytes fed to this detector so far.
    pub closed spec fn input(&self) -> Seq<u8> {
        self.consumed@
    }

    /// Whether this detector has named its verdict and takes no more input.
    pub closed spec fn is_finished(&self) -> bool {
        self.finished
    }

    /// The detector's parts agree with the bytes it has been fed.
    pub closed spec fn wf(&self) -> bool {
        &&& self.shift_jis.is_shift_jis()
        &&& !self.euc_jp.is_shift_jis()
        &&& !self.finished ==> {
            &&& self.shift_jis.is_open()
            &&& self.euc_jp.is_open()
            &&& self.scanner.models(scan(self.allow_2022@, self.consumed@))
            &&& self.euc_jp.handed() == candidate_bytes(self.allow_2022@, self.consumed@)
            &&& self.shift_jis.handed() == self.euc_jp.handed()
            &&& verdict(self.allow_2022@, self.consumed@, false) is None
        }
    }

    /// A detector that has seen no input; `allow_2022` says whether
    /// ISO-2022-JP is a candidate.
    pub fn new(allow_2022: bool) -> (r: Detector)
        ensures
            r.wf(),
            r.allows_iso_2022_jp() == allow_2022,
            r.input() == Seq::<u8>::empty(),
            !r.is_finished(),
    {
        let r = Detector {
            shift_jis: Candidate::new_shift_jis(),
            euc_jp: Candidate::new_euc_jp(),
            scanner: EscapeScanner::new(allow_2022),
            finished: false,
            allow_2022: Ghost(allow_2022),
            consumed: Ghost(Seq::empty()),
        };
        proof {
            assert(Seq::<u8>::empty().subrange(0, 0) =~= Seq::<u8>::empty());
        }
        r
    }

    /// Whether a verdict has been named.
    pub fn has_finished(&self) -> (r: bool)
        ensures
            r == self.is_finished(),
    {
        self.finished
    }

    /// Feeds the next chunk of the stream; `last` says that the stream ends
    /// with it. Returns the verdict, or `None` while more input is needed;
    /// with `last` there is always a verdict, Shift_JIS where neither
    /// candidate dropped out. Once a verdict is named, the detector must not
    /// be fed again.
    pub fn feed(&mut self, buffer: &[u8], last: bool) -> (r: Option<JapaneseEncoding>)
        requires
            old(self).wf(),
            !old(self).is_finished(),
        ensures
            final(self).wf(),
            final(self).allows_iso_2022_jp() == old(self).allows_iso_2022_jp(),
            final(self).input() == old(self).input() + buffer@,
            r == verdict(old(self).allows_iso_2022_jp(), old(self).input() + buffer@, last),
            final(self).is_finished() == (r is Some),
            last ==> r is Some,
    {
        let ghost allow_2022 = self.allow_2022@;
        let ghost before = self.consumed@;
        self.finished = true;
        self.consumed = Ghost(before + buffer@);
        let start = match self.scanner.scan_chunk(buffer, Ghost(allow_2022), Ghost(before)) {
            None => {
                return Some(JapaneseEncoding::Iso2022Jp);
            },
            Some(i) => i,
        };
        proof {
            assert(!(scan(allow_2022, before + buffer@) is Found));
            if scan(allow_2022, before) is Scanning {
                assert(candidate_bytes(allow_2022, before) =~= Seq::<u8>::empty());
            }
        }
        if let Some(v) = race_chunk(&mut self.euc_jp, &mut self.shift_jis, buffer, start) {
            return Some(v);
        }
        if last {
            return Some(end_race(&mut self.euc_jp, &mut self.shift_jis));
        }
        self.finished = false;
        None
    }
}

} // verus!
