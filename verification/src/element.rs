//! Finding where a record's element ends in a stream of XML events.
//!
//! Elements of the same name may nest inside a record, so its end is the
//! first end tag of its name that no start tag of its name inside it
//! matches.

use vstd::prelude::*;

verus! {

/// What the scan needs to know of one XML event.
#[derive(Debug)]
pub enum XmlEvent {
    /// A start tag, with the element's name.
    Start(Vec<u8>),
    /// An end tag, with the element's name.
    End(Vec<u8>),
    /// The end of the input.
    Eof,
    /// Any other event (text, an empty element, a comment, ...).
    Other,
}

/// What the scan makes of an event.
#[derive(Debug, Clone, Copy, PartialEq, Eq, Structural)]
pub enum ScanOutcome {
    /// The element is still open.
    Continue,
    /// The event closed the element.
    Complete,
    /// The input ended before the element did.
    MissingEndTag,
}

/// Whether `ev` is a start tag named `tag`.
pub open spec fn opens(tag: Seq<u8>, ev: XmlEvent) -> bool {
    ev matches XmlEvent::Start(n) && n@ == tag
}

/// Whether `ev` is an end tag named `tag`.
pub open spec fn closes(tag: Seq<u8>, ev: XmlEvent) -> bool {
    ev matches XmlEvent::End(n) && n@ == tag
}

/// The nesting depth and outcome after `ev`, at nesting depth `depth`
/// (how many start tags named `tag` inside the element are still open).
pub open spec fn scan_step(depth: nat, tag: Seq<u8>, ev: XmlEvent) -> (nat, ScanOutcome) {
    if ev is Eof {
        (depth, ScanOutcome::MissingEndTag)
    } else if opens(tag, ev) {
        (depth + 1, ScanOutcome::Continue)
    } else if closes(tag, ev) {
        if depth == 0 {
            (0, ScanOutcome::Complete)
        } else {
            ((depth - 1) as nat, ScanOutcome::Continue)
        }
    } else {
        (depth, ScanOutcome::Continue)
    }
}

/// The scan of one element, from just after its start tag.
pub struct ElementScan {
    tag: Vec<u8>,
    depth: u64,
}

impl ElementScan {
    /// The name of the element being scanned.
    pub closed spec fn tag(&self) -> Seq<u8> {
        self.tag@
    }

    /// How many start tags of that name inside the element are still open.
    pub closed spec fn depth(&self) -> nat {
        self.depth as nat
    }

    /// Starts the scan of an element named `tag`, just after its start tag.
    pub fn new(tag: Vec<u8>) -> (r: Self)
        ensures
            r.tag() == tag@,
            r.depth() == 0,
    {
        ElementScan { tag, depth: 0 }
    }

    /// How many start tags of the element's name inside it are still open.
    pub fn nesting(&self) -> (r: u64)
        ensures
            r == self.depth(),
    {
        self.depth
    }

    /// Takes in the next event and says whether the element goes on, has
    /// ended with it, or can no longer end because the input ended.
    pub fn step(&mut self, ev: &XmlEvent) -> (r: ScanOutcome)
        requires
            old(self).depth() < u64::MAX,
        ensures
            final(self).tag() == old(self).tag(),
            (final(self).depth(), r) == scan_step(old(self).depth(), old(self).tag(), *ev),
    {
        match ev {
            XmlEvent::Eof => ScanOutcome::MissingEndTag,
            XmlEvent::Start(n) => {
                if bytes_equal(n.as_slice(), self.tag.as_slice()) {
                    self.depth = self.depth + 1;
                }
                ScanOutcome::Continue
            },
            XmlEvent::End(n) => {
                if bytes_equal(n.as_slice(), self.tag.as_slice()) {
                    if self.depth == 0 {
                        ScanOutcome::Complete
                    } else {
                        self.depth = self.depth - 1;
                        ScanOutcome::Continue
                    }
                } else {
                    ScanOutcome::Continue
                }
            },
            XmlEvent::Other => ScanOutcome::Continue,
        }
    }
}

/// Whether `a` and `b` hold the same bytes.
pub fn bytes_equal(a: &[u8], b: &[u8]) -> (r: bool)
    ensures
        r == (a@ == b@),
{
    if a.len() != b.len() {
        return false;
    }
    for i in 0..a.len()
        invariant
            a.len() == b.len(),
            forall|k: int| 0 <= k < i ==> a@[k] == b@[k],
    {
        if a[i] != b[i] {
            return false;
        }
    }
    assert(a@ =~= b@);
    true
}

/// Where a scan stands after a sequence of events.
pub enum ScanState {
    /// The element is still open, at this nesting depth.
    Open(nat),
    /// The event at this index closed the element.
    Closed(int),
    /// The input ended, at this index, before the element did.
    Truncated(int),
}

/// The scan of an element named `tag` over `evs`, event by event with
/// `scan_step`, stopping at the first event that does not continue it.
pub open spec fn scan_all(tag: Seq<u8>, evs: Seq<XmlEvent>) -> ScanState
    decreases evs.len(),
{
    if evs.len() == 0 {
        ScanState::Open(0)
    } else {
        match scan_all(tag, evs.drop_last()) {
            ScanState::Open(d) => {
                let (d2, o) = scan_step(d, tag, evs.last());
                match o {
                    ScanOutcome::Continue => ScanState::Open(d2),
                    ScanOutcome::Complete => ScanState::Closed(evs.len() - 1),
                    ScanOutcome::MissingEndTag => ScanState::Truncated(evs.len() - 1),
                }
            },
            other => other,
        }
    }
}

/// Start tags named `tag` in `evs`, less end tags named `tag`.
pub open spec fn balance(tag: Seq<u8>, evs: Seq<XmlEvent>) -> int
    decreases evs.len(),
{
    if evs.len() == 0 {
        0
    } else {
        balance(tag, evs.drop_last()) + (if opens(tag, evs.last()) {
            1int
        } else {
            0int
        }) - (if closes(tag, evs.last()) {
            1int
        } else {
            0int
        })
    }
}

/// Whether the event at `k` is an end tag named `tag` that no start tag
/// before it is waiting for.
pub open spec fn unmatched_end_at(tag: Seq<u8>, evs: Seq<XmlEvent>, k: int) -> bool {
    closes(tag, evs[k]) && balance(tag, evs.take(k)) == 0
}

/// Whether, before index `k`, no event ends the input or the element.
pub open spec fn clear_before(tag: Seq<u8>, evs: Seq<XmlEvent>, k: int) -> bool {
    forall|j: int| 0 <= j < k ==> !(#[trigger] evs[j] is Eof) && !unmatched_end_at(tag, evs, j)
}

/// An element ends at the first end tag of its name that no start tag of its
/// name inside it matches, and cannot end if the input ends first; while it
/// is open, the scan's depth is the number of its unmatched inner start tags.
pub proof fn lemma_scan_finds_element_end(tag: Seq<u8>, evs: Seq<XmlEvent>)
    ensures
        scan_all(tag, evs) matches ScanState::Open(d) ==> d == balance(tag, evs) && clear_before(
            tag,
            evs,
            evs.len() as int,
        ),
        scan_all(tag, evs) matches ScanState::Closed(k) ==> 0 <= k < evs.len() && unmatched_end_at(
            tag,
            evs,
            k,
        ) && clear_before(tag, evs, k),
        scan_all(tag, evs) matches ScanState::Truncated(k) ==> 0 <= k < evs.len()
            && evs[k] is Eof && clear_before(tag, evs, k),
    decreases evs.len(),
{
    if evs.len() > 0 {
        let n = evs.len() as int;
        let front = evs.drop_last();
        lemma_scan_finds_element_end(tag, front);
        assert forall|j: int| 0 <= j < n - 1 implies #[trigger] front.take(j) == evs.take(j) && front[j]
            == evs[j] by {
            assert(front.take(j) =~= evs.take(j));
        }
        assert(evs.take(n - 1) =~= front);
        match scan_all(tag, front) {
            ScanState::Open(d) => {
                assert forall|j: int| 0 <= j < n - 1 implies !(#[trigger] evs[j] is Eof)
                    && !unmatched_end_at(tag, evs, j) by {
                    assert(front.take(j) == evs.take(j) && front[j] == evs[j]);
                    assert(!(front[j] is Eof) && !unmatched_end_at(tag, front, j));
                }
                assert(evs.drop_last() == front);
            },
            ScanState::Closed(k) => {
                assert forall|j: int| 0 <= j < k implies !(#[trigger] evs[j] is Eof)
                    && !unmatched_end_at(tag, evs, j) by {
                    assert(front.take(j) == evs.take(j) && front[j] == evs[j]);
                    assert(!(front[j] is Eof) && !unmatched_end_at(tag, front, j));
                }
                assert(front.take(k) == evs.take(k) && front[k] == evs[k]);
            },
            ScanState::Truncated(k) => {
                assert forall|j: int| 0 <= j < k implies !(#[trigger] evs[j] is Eof)
                    && !unmatched_end_at(tag, evs, j) by {
                    assert(front.take(j) == evs.take(j) && front[j] == evs[j]);
                    assert(!(front[j] is Eof) && !unmatched_end_at(tag, front, j));
                }
                assert(front[k] == evs[k]);
            },
        }
    }
}

} // verus!
