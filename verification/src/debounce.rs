use vstd::prelude::*;
use vstd::string::StringExecFns;

use crate::bridge::SidecarState;
use crate::session::Document;

verus! {

/// Milliseconds an edit burst must be quiet before analysis runs.
pub const DEBOUNCE_MS: u64 = 300;

/// Capacity of the edit queue feeding the debouncer.
pub const DEBOUNCE_QUEUE_CAPACITY: usize = 64;

/// The debouncer's whole state: the one document awaiting analysis.
/// Edits within the debounce interval coalesce by replacement, so a
/// burst costs one analysis.
#[derive(Debug)]
pub struct Debouncer {
    pub pending: Option<String>,
}

/// Where a burst of edits leaves the pending slot: on the last edit.
pub open spec fn debounce_fold(p: Option<String>, edits: Seq<String>) -> Option<String>
    decreases edits.len(),
{
    if edits.len() == 0 {
        p
    } else {
        debounce_fold(Some(edits[0]), edits.skip(1))
    }
}

impl Debouncer {
    pub fn new() -> (d: Debouncer)
        ensures
            d.pending is None,
    {
        Debouncer { pending: None }
    }

    /// An edit arrived: only the latest document is kept; whatever
    /// was waiting is superseded, and the timer starts over.
    pub fn on_edit(&mut self, uri: String)
        ensures
            final(self).pending == Some(uri),
    {
        self.pending = Some(uri);
    }

    /// The debounce interval elapsed: the pending document is taken
    /// and the slot cleared, so the burst costs exactly one analysis.
    pub fn on_timer(&mut self) -> (r: Option<String>)
        ensures
            r == old(self).pending,
            final(self).pending is None,
    {
        let r = match &self.pending {
            Some(u) => Some(u.clone()),
            None => None,
        };
        self.pending = None;
        r
    }
}

/// However many edits arrive within one debounce interval, the timer
/// finds only the last of them pending: the burst coalesces into a
/// single analysis of the freshest document.
pub proof fn lemma_debounce_coalesces(p: Option<String>, edits: Seq<String>)
    requires
        edits.len() > 0,
    ensures
        debounce_fold(p, edits) == Some(edits.last()),
    decreases edits.len(),
{
    if edits.len() == 1 {
        assert(edits.skip(1) =~= Seq::<String>::empty());
        assert(debounce_fold(p, edits) == debounce_fold(Some(edits[0]), edits.skip(1)));
        assert(debounce_fold(Some(edits[0]), edits.skip(1)) == Some(edits[0]));
    } else {
        lemma_debounce_coalesces(Some(edits[0]), edits.skip(1));
        assert(edits.skip(1).last() == edits.last());
        assert(debounce_fold(p, edits) == debounce_fold(Some(edits[0]), edits.skip(1)));
    }
}

/// What the timer does when it fires: nothing at all unless the
/// sidecar is ready and the document is still open; otherwise one
/// cycle over the document's current snapshot.
#[derive(Debug)]
pub enum AnalyzeCycle {
    /// The cycle is skipped, not queued; a later edit starts fresh.
    Skip,
    /// Send `didChange` with this snapshot, then request `analyze`.
    Run { text: String, version: i32 },
}

/// Decides the analysis cycle for a fired timer from the sidecar
/// state and the session's current view of the document.
pub fn plan_analyze_cycle(state: SidecarState, doc: Option<&Document>) -> (r: AnalyzeCycle)
    ensures
        state != SidecarState::Ready ==> r is Skip,
        doc is None ==> r is Skip,
        state == SidecarState::Ready ==> (doc matches Some(d) ==> (r matches AnalyzeCycle::Run {
            text,
            version,
        } && text == d.text && version == d.version)),
{
    match state {
        SidecarState::Ready => {
            match doc {
                Some(d) => AnalyzeCycle::Run { text: d.text.clone(), version: d.version },
                None => AnalyzeCycle::Skip,
            }
        },
        _ => AnalyzeCycle::Skip,
    }
}

} // verus!
