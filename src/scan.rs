//! The escape scanner: recognises an ISO-2022-JP designator escape in the
//! 7-bit prefix of a stream, across chunk boundaries.
use vstd::prelude::*;

verus! {

/// Where the escape scanner stands after a prefix of the stream.
pub enum ScanState {
    /// Still looking; `escape_seen` says whether an ESC is pending, and
    /// `second` holds the byte that followed it, once there is one.
    Scanning { escape_seen: bool, second: Option<u8> },
    /// A designator escape was found: the stream is ISO-2022-JP.
    Found,
    /// ISO-2022-JP is out; the candidates take the stream from `start` on.
    Disqualified { start: nat },
}

pub const ESC: u8 = 0x1B;

/// The designator escapes `ESC ( B`, `ESC ( J`, `ESC ( I`, `ESC $ @` and
/// `ESC $ B`, by their second and third bytes.
pub open spec fn is_designator(second: u8, third: u8) -> bool {
    (second == 0x28 && (third == 0x42 || third == 0x4A || third == 0x49))
        || (second == 0x24 && (third == 0x40 || third == 0x42))
}

/// One step of the scanner on byte `b` at stream offset `k`.
pub open spec fn scan_byte(state: ScanState, b: u8, k: nat) -> ScanState {
    match state {
        ScanState::Scanning { escape_seen, second } => {
            if b > 0x7F {
                ScanState::Disqualified { start: k }
            } else if !escape_seen {
                if b == ESC {
                    ScanState::Scanning { escape_seen: true, second: None }
                } else {
                    state
                }
            } else {
                match second {
                    None => if b == ESC {
                        ScanState::Disqualified { start: k }
                    } else {
                        ScanState::Scanning { escape_seen: true, second: Some(b) }
                    },
                    Some(x) => if is_designator(x, b) {
                        ScanState::Found
                    } else {
                        ScanState::Disqualified { start: k }
                    },
                }
            }
        },
        _ => state,
    }
}

/// The scanner's state after the stream `s`; when ISO-2022-JP is not
/// allowed, the candidates take the whole stream.
pub open spec fn scan(allow_2022: bool, s: Seq<u8>) -> ScanState
    decreases s.len(),
{
    if !allow_2022 {
        ScanState::Disqualified { start: 0 }
    } else if s.len() == 0 {
        ScanState::Scanning { escape_seen: false, second: None }
    } else {
        scan_byte(scan(allow_2022, s.drop_last()), s.last(), (s.len() - 1) as nat)
    }
}

/// The bytes of the stream `s` that the candidate decoders are handed.
pub open spec fn candidate_bytes(allow_2022: bool, s: Seq<u8>) -> Seq<u8> {
    match scan(allow_2022, s) {
        ScanState::Disqualified { start } => s.subrange(start as int, s.len() as int),
        _ => Seq::empty(),
    }
}

pub proof fn lemma_scan_push(allow_2022: bool, s: Seq<u8>, b: u8)
    ensures
        scan(allow_2022, s.push(b)) == (if allow_2022 {
            scan_byte(scan(allow_2022, s), b, s.len())
        } else {
            ScanState::Disqualified { start: 0 }
        }),
{
    assert(s.push(b).drop_last() =~= s);
}

/// A disqualified scanner stays disqualified at the same offset, and a
/// found escape stays found, whatever follows.
pub proof fn lemma_scan_settled(allow_2022: bool, s: Seq<u8>, t: Seq<u8>)
    requires
        !(scan(allow_2022, s) is Scanning),
    ensures
        scan(allow_2022, s + t) == scan(allow_2022, s),
    decreases t.len(),
{
    if t.len() == 0 {
        assert(s + t =~= s);
    } else {
        let u = t.drop_last();
        lemma_scan_settled(allow_2022, s, u);
        assert(s + t =~= (s + u).push(t.last()));
        lemma_scan_push(allow_2022, s + u, t.last());
    }
}

/// Bytes that are 7-bit and not ESC leave a scanner with no escape pending
/// as it was.
pub proof fn lemma_scan_plain_ascii(allow_2022: bool, s: Seq<u8>, t: Seq<u8>)
    requires
        allow_2022,
        scan(allow_2022, s) == (ScanState::Scanning { escape_seen: false, second: None }),
        forall|k: int| 0 <= k < t.len() ==> t[k] <= 0x7F && t[k] != ESC,
    ensures
        scan(allow_2022, s + t) == scan(allow_2022, s),
    decreases t.len(),
{
    if t.len() == 0 {
        assert(s + t =~= s);
    } else {
        let u = t.drop_last();
        lemma_scan_plain_ascii(allow_2022, s, u);
        assert(s + t =~= (s + u).push(t.last()));
        lemma_scan_push(allow_2022, s + u, t.last());
    }
}

/// While no escape is pending, no second byte is held.
pub proof fn lemma_scan_no_pending_second(allow_2022: bool, s: Seq<u8>)
    ensures
        scan(allow_2022, s) matches ScanState::Scanning { escape_seen, second } ==> (!escape_seen ==> second is None),
    decreases s.len(),
{
    if allow_2022 && s.len() > 0 {
        lemma_scan_no_pending_second(allow_2022, s.drop_last());
    }
}

/// A disqualified scanner hands the candidates a suffix of the stream.
pub proof fn lemma_scan_start_bound(allow_2022: bool, s: Seq<u8>)
    ensures
        scan(allow_2022, s) matches ScanState::Disqualified { start } ==> start <= s.len(),
    decreases s.len(),
{
    if allow_2022 && s.len() > 0 {
        lemma_scan_start_bound(allow_2022, s.drop_last());
    }
}

/// Relies on `Encoding::ascii_valid_up_to`: the length of the longest
/// prefix of bytes below 0x80.
pub assume_specification[ encoding_rs::Encoding::ascii_valid_up_to ](bytes: &[u8]) -> (r: usize)
    ensures
        r <= bytes@.len(),
        forall|k: int| 0 <= k < r ==> bytes@[k] < 0x80,
        r < bytes@.len() ==> bytes@[r as int] >= 0x80,
;

/// Relies on `memchr::memchr`: the index of the first occurrence of
/// `needle`, or `None` where there is none.
pub assume_specification[ memchr::memchr ](needle: u8, haystack: &[u8]) -> (r: Option<usize>)
    ensures
        match r {
            Some(i) => i < haystack@.len() && haystack@[i as int] == needle
                && forall|k: int| 0 <= k < i ==> haystack@[k] != needle,
            None => forall|k: int| 0 <= k < haystack@.len() ==> haystack@[k] != needle,
        },
;

/// Returns the index of the first byte of `buffer` that is 0x80 or above
/// or is ESC, or the length of `buffer` where there is none.
pub fn find_non_ascii_or_escape(buffer: &[u8]) -> (r: usize)
    ensures
        r <= buffer@.len(),
        forall|k: int| 0 <= k < r ==> buffer@[k] <= 0x7F && buffer@[k] != ESC,
        r < buffer@.len() ==> buffer@[r as int] > 0x7F || buffer@[r as int] == ESC,
{
    let ascii_up_to = encoding_rs::Encoding::ascii_valid_up_to(buffer);
    let prefix = vstd::slice::slice_subrange(buffer, 0, ascii_up_to);
    assert(forall|k: int| 0 <= k < ascii_up_to ==> prefix@[k] == buffer@[k]);
    match memchr::memchr(ESC, prefix) {
        Some(escape) => escape,
        None => ascii_up_to,
    }
}

/// Whether `second` and `third` complete a designator escape.
pub fn is_designator_pair(second: u8, third: u8) -> (r: bool)
    ensures
        r == is_designator(second, third),
{
    match (second, third) {
        (0x28, 0x42) | (0x28, 0x4A) | (0x28, 0x49) | (0x24, 0x40) | (0x24, 0x42) => true,
        _ => false,
    }
}

/// The scanner's state as it is kept between chunks.
pub struct EscapeScanner {
    escape_seen: bool,
    second_byte_in_escape: Option<u8>,
    disqualified: bool,
}

impl EscapeScanner {
    /// Whether this scanner stands where `state` says; it never holds a
    /// found escape, which ends the stream's detection.
    pub closed spec fn models(&self, state: ScanState) -> bool {
        match state {
            ScanState::Scanning { escape_seen, second } => !self.disqualified
                && self.escape_seen == escape_seen && self.second_byte_in_escape == second,
            ScanState::Disqualified { .. } => self.disqualified,
            ScanState::Found => false,
        }
    }

    pub fn new(allow_2022: bool) -> (r: EscapeScanner)
        ensures
            r.models(scan(allow_2022, Seq::empty())),
    {
        EscapeScanner { escape_seen: false, second_byte_in_escape: None, disqualified: !allow_2022 }
    }

    /// Scans the next chunk of a stream of which `before` came earlier.
    /// Returns `None` when a designator escape completes in this chunk, else
    /// the index from which the candidates take the chunk.
    pub fn scan_chunk(&mut self, buffer: &[u8], Ghost(allow_2022): Ghost<bool>, Ghost(before): Ghost<Seq<u8>>) -> (r: Option<usize>)
        requires
            old(self).models(scan(allow_2022, before)),
        ensures
            match r {
                None => scan(allow_2022, before + buffer@) is Found,
                Some(i) => i <= buffer@.len()
                    && !(scan(allow_2022, before + buffer@) is Found)
                    && final(self).models(scan(allow_2022, before + buffer@))
                    && candidate_bytes(allow_2022, before + buffer@)
                        == candidate_bytes(allow_2022, before) + buffer@.subrange(i as int, buffer@.len() as int),
            },
    {
        let ghost whole = before + buffer@;
        if self.disqualified {
            proof {
                lemma_scan_settled(allow_2022, before, buffer@);
                lemma_scan_start_bound(allow_2022, before);
                let start = scan(allow_2022, before)->start;
                assert(whole.subrange(start as int, whole.len() as int)
                    =~= before.subrange(start as int, before.len() as int) + buffer@);
                assert(buffer@.subrange(0, buffer@.len() as int) =~= buffer@);
            }
            return Some(0);
        }
        assert(allow_2022);
        let mut i: usize = 0;
        proof {
            lemma_scan_no_pending_second(allow_2022, before);
        }
        if !self.escape_seen {
            i = find_non_ascii_or_escape(buffer);
            proof {
                lemma_scan_plain_ascii(allow_2022, before, buffer@.take(i as int));
            }
        }
        assert(before + buffer@.take(i as int) =~= before + buffer@.subrange(0, i as int));
        while i < buffer.len() && !self.disqualified
            invariant
                allow_2022,
                whole == before + buffer@,
                i <= buffer@.len(),
                !self.disqualified ==> self.models(scan(allow_2022, before + buffer@.take(i as int))),
                self.disqualified ==> i < buffer@.len() && scan(allow_2022, before + buffer@.take(i + 1))
                    == (ScanState::Disqualified { start: (before.len() + i) as nat }),
            decreases buffer@.len() - i + (if self.disqualified { 0int } else { 1int }),
        {
            let byte = buffer[i];
            proof {
                lemma_scan_push(allow_2022, before + buffer@.take(i as int), byte);
                lemma_scan_no_pending_second(allow_2022, before + buffer@.take(i as int));
                assert(before + buffer@.take(i + 1) =~= (before + buffer@.take(i as int)).push(byte));
            }
            if byte > 0x7F {
                self.disqualified = true;
            } else if !self.escape_seen {
                if byte == ESC {
                    self.escape_seen = true;
                }
                i += 1;
            } else {
                match self.second_byte_in_escape {
                    None => {
                        if byte == ESC {
                            self.disqualified = true;
                        } else {
                            self.second_byte_in_escape = Some(byte);
                            i += 1;
                        }
                    },
                    Some(second) => {
                        if is_designator_pair(second, byte) {
                            proof {
                                let head = before + buffer@.take(i + 1);
                                let rest = buffer@.skip(i + 1);
                                lemma_scan_settled(allow_2022, head, rest);
                                assert(buffer@.take(i + 1) + rest =~= buffer@);
                                assert(head + rest =~= whole);
                            }
                            return None;
                        } else {
                            self.disqualified = true;
                        }
                    },
                }
            }
        }
        proof {
            if self.disqualified {
                let head = before + buffer@.take(i + 1);
                let rest = buffer@.skip(i + 1);
                lemma_scan_settled(allow_2022, head, rest);
                assert(buffer@.take(i + 1) + rest =~= buffer@);
                assert(head + rest =~= whole);
                assert(candidate_bytes(allow_2022, before) =~= Seq::<u8>::empty());
                assert(whole.subrange(before.len() + i, whole.len() as int)
                    =~= Seq::<u8>::empty() + buffer@.subrange(i as int, buffer@.len() as int));
            } else {
                assert(buffer@.take(i as int) =~= buffer@);
                assert(buffer@.subrange(i as int, buffer@.len() as int) =~= Seq::<u8>::empty());
                assert(candidate_bytes(allow_2022, before) =~= Seq::<u8>::empty());
                assert(candidate_bytes(allow_2022, whole) =~= Seq::<u8>::empty());
            }
        }
        Some(i)
    }
}

} // verus!
