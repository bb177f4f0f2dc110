//! The refresh engine.
//!
//! An engine owns a source, a processor and the snapshot cell. One refresh asks
//! the source, processes what it fetched, and publishes the result if its version
//! differs from the one in place. A failure is reported and changes nothing. The
//! engine is the only writer of its cell, so the snapshot it published last is
//! the one in the cell.
//!
//! What a refresh decides is a function of the slot and of what the refresh
//! found: [`step`] gives the slot afterwards, [`report`] what is told.

use crate::callbacks::{FailureCallback, Fallback, Quiet, UpdateCallback};
use crate::collections::{collection_of, UpdatingMap, UpdatingObject, UpdatingSet};
use crate::error::Error;
use crate::holder::Holder;
use crate::metrics::{Metrics, NoMetrics};
use crate::processors::RawConfigProcessor;
use crate::sources::{ConfigSource, SourceCheck};
use std::sync::Arc;
use std::time::{Duration, Instant, SystemTime};
use vstd::prelude::*;

verus! {

/// What one refresh found.
#[derive(Debug)]
pub enum Observation<C> {
    /// The source said that nothing changed.
    Unchanged,
    /// Fetching failed.
    FetchFailed(Error),
    /// Processing failed; whatever was built so far is gone.
    ProcessFailed(Error),
    /// A version and the collection processed from the data fetched with it.
    Ready(u128, C),
}

/// What one refresh did.
#[derive(Debug)]
pub enum Outcome {
    /// Nothing was published: the source said so, or the version was the one in place.
    Unchanged,
    /// A new snapshot was published.
    Updated { previous: Option<u128>, version: u128 },
    /// Fetching failed; nothing was published.
    FetchFailed(Error),
    /// Processing failed; nothing was published.
    ProcessFailed(Error),
}

/// The version of the snapshot in `slot`, if there is one.
pub open spec fn version_in<C>(slot: Option<(u128, C)>) -> Option<u128> {
    match slot {
        Some(snapshot) => Some(snapshot.0),
        None => None,
    }
}

/// The collection of the snapshot behind `current`, if there is one.
pub open spec fn collection_in<C>(current: Arc<Option<(u128, C)>>) -> Option<C> {
    match *current {
        Some(snapshot) => Some(snapshot.1),
        None => None,
    }
}

/// The slot after a refresh that found `found`.
pub open spec fn step<C>(slot: Option<(u128, C)>, found: Observation<C>) -> Option<(u128, C)> {
    match found {
        Observation::Ready(version, collection) => if version_in(slot) == Some(version) {
            slot
        } else {
            Some((version, collection))
        },
        _ => slot,
    }
}

/// What a refresh that found `found` tells.
pub open spec fn report<C>(slot: Option<(u128, C)>, found: Observation<C>) -> Outcome {
    match found {
        Observation::Unchanged => Outcome::Unchanged,
        Observation::FetchFailed(err) => Outcome::FetchFailed(err),
        Observation::ProcessFailed(err) => Outcome::ProcessFailed(err),
        Observation::Ready(version, _) => if version_in(slot) == Some(version) {
            Outcome::Unchanged
        } else {
            Outcome::Updated { previous: version_in(slot), version }
        },
    }
}

/// One thing that the engine tells after a refresh: a call of a callback or of the
/// metrics sink.
#[derive(Clone, Copy, Debug, PartialEq, Eq, Structural)]
pub enum Notice {
    /// The update callback, with the version before, the new version and the
    /// new collection.
    CallOnUpdate,
    /// The failure callback, with the error and the version in place.
    CallOnFailure,
    /// `Metrics::update`, with the new version and the times that fetching and
    /// processing took.
    MetricsUpdate,
    /// `Metrics::last_successful_update`, with the time of day.
    MetricsLastSuccessfulUpdate,
    /// `Metrics::check_no_update`, with the time that the refresh took.
    MetricsCheckNoUpdate,
    /// `Metrics::last_successful_check`, with the time of day.
    MetricsLastSuccessfulCheck,
    /// `Metrics::fetch_error`, with the error.
    MetricsFetchError,
    /// `Metrics::process_error`, with the error.
    MetricsProcessError,
}

/// What the engine tells after a refresh with this outcome, in order.
pub open spec fn notices(outcome: Outcome) -> Seq<Notice> {
    match outcome {
        Outcome::Unchanged => seq![Notice::MetricsCheckNoUpdate, Notice::MetricsLastSuccessfulCheck],
        Outcome::Updated { .. } => seq![
            Notice::CallOnUpdate,
            Notice::MetricsUpdate,
            Notice::MetricsLastSuccessfulUpdate,
            Notice::MetricsLastSuccessfulCheck,
        ],
        Outcome::FetchFailed(_) => seq![Notice::CallOnFailure, Notice::MetricsFetchError],
        Outcome::ProcessFailed(_) => seq![Notice::CallOnFailure, Notice::MetricsProcessError],
    }
}

/// What the engine tells after a refresh with this outcome, in order.
pub fn notices_for(outcome: &Outcome) -> (list: Vec<Notice>)
    ensures
        list@ == notices(*outcome),
{
    let mut list: Vec<Notice> = Vec::new();
    match outcome {
        Outcome::Unchanged => {
            list.push(Notice::MetricsCheckNoUpdate);
            list.push(Notice::MetricsLastSuccessfulCheck);
        },
        Outcome::Updated { .. } => {
            list.push(Notice::CallOnUpdate);
            list.push(Notice::MetricsUpdate);
            list.push(Notice::MetricsLastSuccessfulUpdate);
            list.push(Notice::MetricsLastSuccessfulCheck);
        },
        Outcome::FetchFailed(_) => {
            list.push(Notice::CallOnFailure);
            list.push(Notice::MetricsFetchError);
        },
        Outcome::ProcessFailed(_) => {
            list.push(Notice::CallOnFailure);
            list.push(Notice::MetricsProcessError);
        },
    }
    assert(list@ =~= notices(*outcome));
    list
}

/// The slot after one refresh for each element of `found`, in order.
pub open spec fn run<C>(slot: Option<(u128, C)>, found: Seq<Observation<C>>) -> Option<(u128, C)>
    decreases found.len(),
{
    if found.len() == 0 {
        slot
    } else {
        step(run(slot, found.drop_last()), found.last())
    }
}

/// Whether version `earlier` may stand before version `later`: nothing stands
/// before everything, and a version before those that are not smaller.
pub open spec fn precedes(earlier: Option<u128>, later: Option<u128>) -> bool {
    match (earlier, later) {
        (None, _) => true,
        (Some(_), None) => false,
        (Some(a), Some(b)) => a <= b,
    }
}

/// Whether the source never hands out a version smaller than the one in place.
pub open spec fn never_goes_back<C>(slot: Option<(u128, C)>, found: Seq<Observation<C>>) -> bool {
    forall|i: int|
        0 <= i < found.len() ==> ((#[trigger] found[i]) matches Observation::Ready(version, _)
            ==> precedes(version_in(run(slot, found.take(i))), Some(version)))
}

/// Whether an observation is a fetch or process failure.
pub open spec fn is_failure<C>(found: Observation<C>) -> bool {
    found is FetchFailed || found is ProcessFailed
}

/// A snapshot is published whole: after a refresh that reports an update the
/// slot holds the version and the collection of that one refresh, and after any
/// other refresh it holds what it held before.
pub proof fn lemma_publish_is_whole<C>(slot: Option<(u128, C)>, found: Observation<C>)
    ensures
        report(slot, found) is Updated ==> ({
            &&& found matches Observation::Ready(version, collection)
            &&& step(slot, found) == Some((version, collection))
            &&& report(slot, found) == (Outcome::Updated { previous: version_in(slot), version })
            &&& version_in(slot) != Some(version)
        }),
        !(report(slot, found) is Updated) ==> step(slot, found) == slot,
        slot is Some ==> step(slot, found) is Some,
{
}

/// A slot that holds a snapshot holds one after any run of refreshes: nothing
/// empties it again.
pub proof fn lemma_slot_stays_filled<C>(slot: Option<(u128, C)>, found: Seq<Observation<C>>)
    requires
        slot is Some,
    ensures
        run(slot, found) is Some,
    decreases found.len(),
{
    if found.len() > 0 {
        lemma_slot_stays_filled(slot, found.drop_last());
    }
}

/// Versions never go back as long as the source's do not: of two moments in a
/// run of refreshes, the earlier one's version precedes the later one's.
pub proof fn lemma_versions_never_go_back<C>(
    slot: Option<(u128, C)>,
    found: Seq<Observation<C>>,
    i: int,
    j: int,
)
    requires
        never_goes_back(slot, found),
        0 <= i <= j <= found.len(),
    ensures
        precedes(version_in(run(slot, found.take(i))), version_in(run(slot, found.take(j)))),
    decreases j - i,
{
    if i < j {
        lemma_versions_never_go_back(slot, found, i, j - 1);
        assert(found.take(j).drop_last() =~= found.take(j - 1));
        assert(found.take(j).last() == found[j - 1]);
        let before = run(slot, found.take(j - 1));
        assert(run(slot, found.take(j)) == step(before, found[j - 1]));
    }
}

/// When the source says that nothing changed, the slot stays as it is, no
/// update is reported, and neither callback is called.
pub proof fn lemma_unchanged_is_silent<C>(slot: Option<(u128, C)>)
    ensures
        step(slot, Observation::<C>::Unchanged) == slot,
        report(slot, Observation::<C>::Unchanged) == Outcome::Unchanged,
        !notices(report(slot, Observation::<C>::Unchanged)).contains(Notice::CallOnUpdate),
        !notices(report(slot, Observation::<C>::Unchanged)).contains(Notice::CallOnFailure),
{
}

/// The update callback is called exactly after an update, and the failure
/// callback exactly after a failure.
pub proof fn lemma_callbacks_follow_the_outcome(outcome: Outcome)
    ensures
        notices(outcome).contains(Notice::CallOnUpdate) <==> outcome is Updated,
        notices(outcome).contains(Notice::CallOnFailure) <==> (outcome is FetchFailed || outcome
            is ProcessFailed),
        notices(outcome).contains(Notice::MetricsFetchError) <==> outcome is FetchFailed,
        notices(outcome).contains(Notice::MetricsProcessError) <==> outcome is ProcessFailed,
        notices(outcome).contains(Notice::MetricsLastSuccessfulCheck) <==> (outcome is Unchanged
            || outcome is Updated),
{
    let list = notices(outcome);
    match outcome {
        Outcome::Unchanged => {
            assert(list[1] == Notice::MetricsLastSuccessfulCheck);
        },
        Outcome::Updated { .. } => {
            assert(list[0] == Notice::CallOnUpdate);
            assert(list[3] == Notice::MetricsLastSuccessfulCheck);
        },
        Outcome::FetchFailed(_) => {
            assert(list[0] == Notice::CallOnFailure);
            assert(list[1] == Notice::MetricsFetchError);
        },
        Outcome::ProcessFailed(_) => {
            assert(list[0] == Notice::CallOnFailure);
            assert(list[1] == Notice::MetricsProcessError);
        },
    }
}

/// A version equal to the one in place is no update either, whatever came with it.
pub proof fn lemma_same_version_is_silent<C>(slot: Option<(u128, C)>, collection: C)
    requires
        slot is Some,
    ensures
        step(slot, Observation::Ready((slot->0).0, collection)) == slot,
        report(slot, Observation::Ready((slot->0).0, collection)) == Outcome::Unchanged,
{
}

/// A failure changes nothing and is reported as what it is, with its error: the
/// slot holds what it held, and a process error is told as a process error.
pub proof fn lemma_failure_changes_nothing<C>(slot: Option<(u128, C)>, err: Error)
    ensures
        step(slot, Observation::<C>::FetchFailed(err)) == slot,
        report(slot, Observation::<C>::FetchFailed(err)) == Outcome::FetchFailed(err),
        step(slot, Observation::<C>::ProcessFailed(err)) == slot,
        report(slot, Observation::<C>::ProcessFailed(err)) == Outcome::ProcessFailed(err),
        notices(Outcome::ProcessFailed(err)).contains(Notice::MetricsProcessError),
        notices(Outcome::FetchFailed(err)).contains(Notice::MetricsFetchError),
{
    lemma_callbacks_follow_the_outcome(Outcome::ProcessFailed(err));
    lemma_callbacks_follow_the_outcome(Outcome::FetchFailed(err));
}

/// Through any run of failures the slot keeps what it held at the start.
pub proof fn lemma_failures_keep_the_slot<C>(slot: Option<(u128, C)>, found: Seq<Observation<C>>)
    requires
        forall|i: int| 0 <= i < found.len() ==> is_failure(#[trigger] found[i]),
    ensures
        run(slot, found) == slot,
    decreases found.len(),
{
    if found.len() > 0 {
        let front = found.drop_last();
        assert forall|i: int| 0 <= i < front.len() implies is_failure(#[trigger] front[i]) by {
            assert(front[i] == found[i]);
        }
        lemma_failures_keep_the_slot(slot, front);
        assert(is_failure(found[found.len() - 1]));
    }
}

/// In a run of failures every refresh finds the slot as it was at the start and
/// reports its failure: the failure callback is called each time, the update
/// callback never.
pub proof fn lemma_failures_are_reported<C>(
    slot: Option<(u128, C)>,
    found: Seq<Observation<C>>,
    i: int,
)
    requires
        forall|k: int| 0 <= k < found.len() ==> is_failure(#[trigger] found[k]),
        0 <= i < found.len(),
    ensures
        run(slot, found.take(i)) == slot,
        report(run(slot, found.take(i)), found[i]) is FetchFailed || report(
            run(slot, found.take(i)),
            found[i],
        ) is ProcessFailed,
        notices(report(run(slot, found.take(i)), found[i])).contains(Notice::CallOnFailure),
        !notices(report(run(slot, found.take(i)), found[i])).contains(Notice::CallOnUpdate),
{
    let front = found.take(i);
    assert forall|k: int| 0 <= k < front.len() implies is_failure(#[trigger] front[k]) by {
        assert(front[k] == found[k]);
    }
    lemma_failures_keep_the_slot(slot, front);
    assert(is_failure(found[i]));
    lemma_callbacks_follow_the_outcome(report(slot, found[i]));
}

/// Whether `version` and `collection` come from one fetch: the source handed out
/// raw data with this version, and the collection is what the processor yields
/// for that raw data, made ready to be stored.
pub open spec fn comes_from_one_fetch<
    O: UpdatingObject,
    S: ConfigSource,
    P: RawConfigProcessor<S::Raw, O::Parsed>,
>(source: S, processor: P, version: u128, collection: O::Stored) -> bool {
    exists|raw: S::Raw, parsed: O::Parsed|
        {
            &&& call_ensures(S::fetch, (&source,), Ok::<(u128, S::Raw), Error>((version, raw)))
            &&& #[trigger] processor.yields(raw, Ok(parsed))
            &&& O::stores(parsed, collection)
        }
}

/// What the cell of an engine may hold: nothing, while there is no fallback; the
/// fallback at version 0; or a version and a collection that come from one
/// fetch. A version of one fetch beside the collection of another is not among
/// them.
pub open spec fn may_hold<O: UpdatingObject, S: ConfigSource, P: RawConfigProcessor<S::Raw, O::Parsed>>(
    source: S,
    processor: P,
    seed: Option<O::Stored>,
    slot: Option<(u128, O::Stored)>,
) -> bool {
    match slot {
        None => seed is None,
        Some(snapshot) => (snapshot.0 == 0 && seed == Some(snapshot.1)) || comes_from_one_fetch::<
            O,
            S,
            P,
        >(source, processor, snapshot.0, snapshot.1),
    }
}

/// A snapshot that an engine's cell admits is whole: it is the fallback at
/// version 0, or its version and its collection come from one and the same
/// fetch. Every read of the cell hands out such a snapshot, whatever is published
/// while the read runs.
pub proof fn lemma_admitted_snapshots_are_whole<
    O: UpdatingObject,
    S: ConfigSource,
    P: RawConfigProcessor<S::Raw, O::Parsed>,
>(source: S, processor: P, seed: Option<O::Stored>, version: u128, collection: O::Stored)
    requires
        may_hold::<O, S, P>(source, processor, seed, Some((version, collection))),
    ensures
        (version == 0 && seed == Some(collection)) || comes_from_one_fetch::<O, S, P>(
            source,
            processor,
            version,
            collection,
        ),
{
}

/// Whether `found` is what a refresh can find when the version in place is
/// `last`. The source is asked with that version. If it says that nothing
/// changed, that is what was found. Otherwise the source is asked to fetch:
/// its error is a fetch failure; the raw data it hands out goes to the
/// processor, whose error is a process failure and whose collection, made
/// ready to be stored, is found together with the version that came with the
/// raw data.
pub open spec fn can_find<O: UpdatingObject, S: ConfigSource, P: RawConfigProcessor<S::Raw, O::Parsed>>(
    source: S,
    processor: P,
    last: Option<u128>,
    found: Observation<O::Stored>,
) -> bool {
    match found {
        Observation::Unchanged => call_ensures(S::check, (&source, &last), SourceCheck::Unchanged),
        Observation::FetchFailed(err) => {
            &&& call_ensures(S::check, (&source, &last), SourceCheck::Changed)
            &&& call_ensures(S::fetch, (&source,), Err::<(u128, S::Raw), Error>(err))
        },
        Observation::ProcessFailed(err) => {
            &&& call_ensures(S::check, (&source, &last), SourceCheck::Changed)
            &&& exists|version: u128, raw: S::Raw|
                {
                    &&& #[trigger] call_ensures(
                        S::fetch,
                        (&source,),
                        Ok::<(u128, S::Raw), Error>((version, raw)),
                    )
                    &&& call_ensures(P::process, (&processor, raw), Err::<O::Parsed, Error>(err))
                }
        },
        Observation::Ready(version, collection) => {
            &&& call_ensures(S::check, (&source, &last), SourceCheck::Changed)
            &&& exists|raw: S::Raw, parsed: O::Parsed|
                {
                    &&& call_ensures(
                        S::fetch,
                        (&source,),
                        Ok::<(u128, S::Raw), Error>((version, raw)),
                    )
                    &&& #[trigger] call_ensures(
                        P::process,
                        (&processor, raw),
                        Ok::<O::Parsed, Error>(parsed),
                    )
                    &&& processor.yields(raw, Ok(parsed))
                    &&& call_ensures(O::adopt, (parsed,), collection)
                    &&& O::stores(parsed, collection)
                }
        },
    }
}

/// The refresh engine for read views of kind `O`.
#[verifier::reject_recursive_types(O)]
#[verifier::reject_recursive_types(S)]
#[verifier::reject_recursive_types(P)]
pub struct MirrorCache<
    O: UpdatingObject,
    S: ConfigSource,
    P: RawConfigProcessor<S::Raw, O::Parsed>,
    U: UpdateCallback<O::Stored>,
    F: FailureCallback,
    M: Metrics,
> {
    name: Option<String>,
    source: S,
    processor: P,
    fetch_interval: Duration,
    on_update: U,
    on_failure: F,
    metrics: M,
    holder: Holder<O::Stored>,
    current: Arc<Option<(u128, O::Stored)>>,
    seed: Ghost<Option<O::Stored>>,
}

impl<
    O: UpdatingObject,
    S: ConfigSource,
    P: RawConfigProcessor<S::Raw, O::Parsed>,
    U: UpdateCallback<O::Stored>,
    F: FailureCallback,
    M: Metrics,
> MirrorCache<O, S, P, U, F, M> {
    /// The cell admits what [`may_hold`] says, and the engine's own snapshot is
    /// one of those.
    #[verifier::type_invariant]
    spec fn cell_follows_processor(self) -> bool {
        &&& forall|slot: Option<(u128, O::Stored)>| #[trigger]
            self.holder.admits(slot) == may_hold::<O, S, P>(
                self.source,
                self.processor,
                self.seed@,
                slot,
            )
        &&& self.holder.admits(*self.current)
    }

    /// The slot as the engine, its only writer, knows it: the snapshot published
    /// last, or the fallback, or nothing.
    pub closed spec fn slot(&self) -> Option<(u128, O::Stored)> {
        *self.current
    }

    /// The cell that the engine publishes into.
    pub closed spec fn holder(&self) -> Holder<O::Stored> {
        self.holder
    }

    /// The source.
    pub closed spec fn source(&self) -> S {
        self.source
    }

    /// The processor.
    pub closed spec fn processor(&self) -> P {
        self.processor
    }

    /// The fallback as it was stored when the engine was built, if there was one.
    pub closed spec fn seed(&self) -> Option<O::Stored> {
        self.seed@
    }

    /// The engine's name, a label for diagnostics.
    pub closed spec fn label(&self) -> Option<String> {
        self.name
    }

    /// The time to wait between two refreshes.
    pub closed spec fn interval(&self) -> Duration {
        self.fetch_interval
    }

    /// The engine's name, if it was given one.
    pub fn name(&self) -> (name: &Option<String>)
        ensures
            *name == self.label(),
    {
        &self.name
    }

    /// The time to wait between two refreshes.
    pub fn fetch_interval(&self) -> (interval: Duration)
        ensures
            interval == self.interval(),
    {
        self.fetch_interval
    }

    /// The version of the snapshot in place, if there is one.
    pub fn last_version(&self) -> (version: Option<u128>)
        ensures
            version == version_in(self.slot()),
    {
        match &*self.current {
            Some((version, _)) => Some(*version),
            None => None,
        }
    }

    /// A read view of the engine's collection. Views may be cloned and handed
    /// around freely; all of them read the engine's cell.
    pub fn get_collection(&self) -> (view: O)
        ensures
            view.cell() == self.holder(),
            forall|slot: Option<(u128, O::Stored)>| #[trigger]
                view.cell().admits(slot) == may_hold::<O, S, P>(
                    self.source(),
                    self.processor(),
                    self.seed(),
                    slot,
                ),
            view.cell().seeded() == self.seed() is Some,
    {
        proof {
            use_type_invariant(self);
        }
        O::over(self.holder.clone())
    }

    /// Takes in what a refresh found: publishes a collection whose version is not
    /// the one in place, and leaves the slot alone otherwise.
    pub fn apply(&mut self, found: Observation<O::Stored>) -> (outcome: Outcome)
        requires
            found matches Observation::Ready(version, collection) ==> old(self).holder().admits(
                Some((version, collection)),
            ),
        ensures
            final(self).slot() == step(old(self).slot(), found),
            outcome == report(old(self).slot(), found),
            final(self).holder() == old(self).holder(),
            final(self).source() == old(self).source(),
            final(self).processor() == old(self).processor(),
            final(self).seed() == old(self).seed(),
            final(self).label() == old(self).label(),
            final(self).interval() == old(self).interval(),
    {
        proof {
            use_type_invariant(&*self);
        }
        match found {
            Observation::Unchanged => Outcome::Unchanged,
            Observation::FetchFailed(err) => Outcome::FetchFailed(err),
            Observation::ProcessFailed(err) => Outcome::ProcessFailed(err),
            Observation::Ready(version, collection) => {
                let previous = self.last_version();
                let same = match previous {
                    Some(last) => last == version,
                    None => false,
                };
                if same {
                    Outcome::Unchanged
                } else {
                    let stored = self.holder.publish(collection, version);
                    self.current = stored;
                    Outcome::Updated { previous, version }
                }
            },
        }
    }

    /// Asks the source and, if it has something, fetches and processes it.
    ///
    /// What comes back is what the source and the processor made of the calls
    /// described by [`can_find`]. The second part of the result is the time
    /// from the start to the end of a fetch that succeeded, the third the time
    /// that processing took when it succeeded too.
    fn observe(&self) -> (found: (Observation<O::Stored>, Option<Duration>, Option<Duration>))
        ensures
            can_find::<O, S, P>(self.source(), self.processor(), version_in(self.slot()), found.0),
            found.0 matches Observation::Ready(version, collection) ==> self.holder().admits(
                Some((version, collection)),
            ),
            found.1 is Some <==> (found.0 is ProcessFailed || found.0 is Ready),
            found.2 is Some <==> found.0 is Ready,
    {
        proof {
            use_type_invariant(self);
        }
        let started = Instant::now();
        let last = self.last_version();
        match self.source.check(&last) {
            SourceCheck::Unchanged => (Observation::Unchanged, None, None),
            SourceCheck::Changed => match self.source.fetch() {
                Err(err) => (Observation::FetchFailed(err), None, None),
                Ok((version, raw)) => {
                    let fetch_time = started.elapsed();
                    let processing = Instant::now();
                    let ghost handed = raw;
                    match self.processor.process(raw) {
                        Err(err) => {
                            proof {
                                assert(call_ensures(
                                    S::fetch,
                                    (&self.source,),
                                    Ok::<(u128, S::Raw), Error>((version, handed)),
                                ));
                            }
                            (Observation::ProcessFailed(err), Some(fetch_time), None)
                        },
                        Ok(parsed) => {
                            let process_time = processing.elapsed();
                            let ghost yielded = parsed;
                            let collection = O::adopt(parsed);
                            proof {
                                assert(self.processor.yields(handed, Ok(yielded)));
                                assert(call_ensures(
                                    P::process,
                                    (&self.processor, handed),
                                    Ok::<O::Parsed, Error>(yielded),
                                ));
                                assert(comes_from_one_fetch::<O, S, P>(
                                    self.source,
                                    self.processor,
                                    version,
                                    collection,
                                ));
                            }
                            (
                                Observation::Ready(version, collection),
                                Some(fetch_time),
                                Some(process_time),
                            )
                        },
                    }
                },
            },
        }
    }

    /// Tells the callbacks and the metrics sink what a refresh did: one call for
    /// each notice of the outcome, in order.
    fn notify(
        &self,
        outcome: &Outcome,
        started: &Instant,
        fetch_time: Option<Duration>,
        process_time: Option<Duration>,
    )
        requires
            *outcome is Updated ==> self.slot() is Some,
    {
        let total = started.elapsed();
        let at = SystemTime::now();
        let fetched_in = match fetch_time {
            Some(time) => time,
            None => total,
        };
        let processed_in = match process_time {
            Some(time) => time,
            None => total,
        };
        let previous = match outcome {
            Outcome::Updated { previous, .. } => *previous,
            _ => None,
        };
        let last = self.last_version();
        let list = notices_for(outcome);
        let mut i: usize = 0;
        while i < list.len()
            invariant
                list@ == notices(*outcome),
                *outcome is Updated ==> self.slot() is Some,
            decreases list.len() - i,
        {
            match list[i] {
                Notice::CallOnUpdate => {
                    proof {
                        lemma_callbacks_follow_the_outcome(*outcome);
                        assert(list@.contains(list@[i as int]));
                    }
                    self.on_update.updated(&previous, &last, collection_of(&*self.current));
                },
                Notice::CallOnFailure => match outcome {
                    Outcome::FetchFailed(err) => self.on_failure.failed(err, &last),
                    Outcome::ProcessFailed(err) => self.on_failure.failed(err, &last),
                    _ => {},
                },
                Notice::MetricsUpdate => self.metrics.update(&last, fetched_in, processed_in),
                Notice::MetricsLastSuccessfulUpdate => self.metrics.last_successful_update(&at),
                Notice::MetricsCheckNoUpdate => self.metrics.check_no_update(&total),
                Notice::MetricsLastSuccessfulCheck => self.metrics.last_successful_check(&at),
                Notice::MetricsFetchError => match outcome {
                    Outcome::FetchFailed(err) => self.metrics.fetch_error(err),
                    _ => {},
                },
                Notice::MetricsProcessError => match outcome {
                    Outcome::ProcessFailed(err) => self.metrics.process_error(err),
                    _ => {},
                },
            }
            i = i + 1;
        }
    }

    /// One refresh: check, fetch, process, publish, notify.
    ///
    /// What the source and the processor hand back is theirs to decide. What
    /// the refresh found is what they made of the calls that [`can_find`]
    /// describes, and the slot afterwards and the outcome are what [`step`] and
    /// [`report`] give for it, so a slot that held a snapshot still holds one.
    pub fn refresh(&mut self) -> (outcome: Outcome)
        ensures
            exists|found: Observation<O::Stored>|
                {
                    &&& final(self).slot() == step(old(self).slot(), found)
                    &&& outcome == #[trigger] report(old(self).slot(), found)
                    &&& can_find::<O, S, P>(
                        old(self).source(),
                        old(self).processor(),
                        version_in(old(self).slot()),
                        found,
                    )
                    &&& found matches Observation::Ready(version, collection) ==> may_hold::<
                        O,
                        S,
                        P,
                    >(
                        old(self).source(),
                        old(self).processor(),
                        old(self).seed(),
                        Some((version, collection)),
                    )
                },
            final(self).holder() == old(self).holder(),
            final(self).source() == old(self).source(),
            final(self).processor() == old(self).processor(),
            final(self).seed() == old(self).seed(),
            final(self).label() == old(self).label(),
            final(self).interval() == old(self).interval(),
    {
        proof {
            use_type_invariant(&*self);
        }
        let started = Instant::now();
        let (found, fetch_time, process_time) = self.observe();
        let ghost seen = found;
        let ghost before = self.slot();
        let outcome = self.apply(found);
        proof {
            assert(outcome == report(before, seen));
        }
        self.notify(&outcome, &started, fetch_time, process_time);
        outcome
    }
}

/// The message of the error that `build` returns when no source was given.
pub open spec fn no_source() -> Seq<char> {
    "a source is required"@
}

/// The message of the error that `build` returns when no processor was given.
pub open spec fn no_processor() -> Seq<char> {
    "a processor is required"@
}

/// The message of the error that `build` returns when no fetch interval was given.
pub open spec fn no_fetch_interval() -> Seq<char> {
    "a fetch interval is required"@
}

/// Collects what an engine is made of. A source, a processor and a fetch interval
/// are required; the rest has defaults that do nothing.
#[verifier::reject_recursive_types(O)]
#[verifier::reject_recursive_types(S)]
#[verifier::reject_recursive_types(P)]
pub struct MirrorCacheBuilder<
    O: UpdatingObject,
    S: ConfigSource,
    P: RawConfigProcessor<S::Raw, O::Parsed>,
    U: UpdateCallback<O::Stored>,
    F: FailureCallback,
    M: Metrics,
> {
    pub name: Option<String>,
    pub source: Option<S>,
    pub processor: Option<P>,
    pub fetch_interval: Option<Duration>,
    pub fallback: Option<Fallback<O::Parsed>>,
    pub on_update: U,
    pub on_failure: F,
    pub metrics: M,
}

impl<
    O: UpdatingObject,
    S: ConfigSource,
    P: RawConfigProcessor<S::Raw, O::Parsed>,
> MirrorCacheBuilder<O, S, P, Quiet, Quiet, NoMetrics> {
    /// A builder with nothing set.
    pub fn new() -> (builder: Self)
        ensures
            builder.name is None,
            builder.source is None,
            builder.processor is None,
            builder.fetch_interval is None,
            builder.fallback is None,
    {
        MirrorCacheBuilder {
            name: None,
            source: None,
            processor: None,
            fetch_interval: None,
            fallback: None,
            on_update: Quiet,
            on_failure: Quiet,
            metrics: NoMetrics,
        }
    }
}

impl<
    O: UpdatingObject,
    S: ConfigSource,
    P: RawConfigProcessor<S::Raw, O::Parsed>,
    U: UpdateCallback<O::Stored>,
    F: FailureCallback,
    M: Metrics,
> MirrorCacheBuilder<O, S, P, U, F, M> {
    /// Sets the source. Required.
    pub fn with_source(self, source: S) -> (builder: Self)
        ensures
            builder == (MirrorCacheBuilder { source: Some(source), ..self }),
    {
        MirrorCacheBuilder { source: Some(source), ..self }
    }

    /// Sets the processor. Required.
    pub fn with_processor(self, processor: P) -> (builder: Self)
        ensures
            builder == (MirrorCacheBuilder { processor: Some(processor), ..self }),
    {
        MirrorCacheBuilder { processor: Some(processor), ..self }
    }

    /// Sets the time to wait between two refreshes. Required.
    pub fn with_fetch_interval(self, fetch_interval: Duration) -> (builder: Self)
        ensures
            builder == (MirrorCacheBuilder { fetch_interval: Some(fetch_interval), ..self }),
    {
        MirrorCacheBuilder { fetch_interval: Some(fetch_interval), ..self }
    }

    /// Sets the engine's name, a label for diagnostics.
    pub fn with_name(self, name: &str) -> (builder: Self)
        ensures
            builder.name matches Some(label) && label@ == name@,
            builder == (MirrorCacheBuilder { name: builder.name, ..self }),
    {
        MirrorCacheBuilder { name: Some(name.to_owned()), ..self }
    }

    /// Sets the collection that readers see until the first fetch has succeeded.
    pub fn with_fallback(self, fallback: Fallback<O::Parsed>) -> (builder: Self)
        ensures
            builder == (MirrorCacheBuilder { fallback: Some(fallback), ..self }),
    {
        MirrorCacheBuilder { fallback: Some(fallback), ..self }
    }

    /// Sets the callback that is told of each publish.
    pub fn with_update_callback<U2: UpdateCallback<O::Stored>>(self, on_update: U2) -> (builder:
        MirrorCacheBuilder<O, S, P, U2, F, M>)
        ensures
            builder.on_update == on_update,
            builder.name == self.name,
            builder.source == self.source,
            builder.processor == self.processor,
            builder.fetch_interval == self.fetch_interval,
            builder.fallback == self.fallback,
            builder.on_failure == self.on_failure,
            builder.metrics == self.metrics,
    {
        MirrorCacheBuilder {
            name: self.name,
            source: self.source,
            processor: self.processor,
            fetch_interval: self.fetch_interval,
            fallback: self.fallback,
            on_update,
            on_failure: self.on_failure,
            metrics: self.metrics,
        }
    }

    /// Sets the callback that is told of each failure.
    pub fn with_failure_callback<F2: FailureCallback>(self, on_failure: F2) -> (builder:
        MirrorCacheBuilder<O, S, P, U, F2, M>)
        ensures
            builder.on_failure == on_failure,
            builder.name == self.name,
            builder.source == self.source,
            builder.processor == self.processor,
            builder.fetch_interval == self.fetch_interval,
            builder.fallback == self.fallback,
            builder.on_update == self.on_update,
            builder.metrics == self.metrics,
    {
        MirrorCacheBuilder {
            name: self.name,
            source: self.source,
            processor: self.processor,
            fetch_interval: self.fetch_interval,
            fallback: self.fallback,
            on_update: self.on_update,
            on_failure,
            metrics: self.metrics,
        }
    }

    /// Sets the metrics sink.
    pub fn with_metrics<M2: Metrics>(self, metrics: M2) -> (builder: MirrorCacheBuilder<
        O,
        S,
        P,
        U,
        F,
        M2,
    >)
        ensures
            builder.metrics == metrics,
            builder.name == self.name,
            builder.source == self.source,
            builder.processor == self.processor,
            builder.fetch_interval == self.fetch_interval,
            builder.fallback == self.fallback,
            builder.on_update == self.on_update,
            builder.on_failure == self.on_failure,
    {
        MirrorCacheBuilder {
            name: self.name,
            source: self.source,
            processor: self.processor,
            fetch_interval: self.fetch_interval,
            fallback: self.fallback,
            on_update: self.on_update,
            on_failure: self.on_failure,
            metrics,
        }
    }

    /// Whether everything that is required was given.
    pub open spec fn complete(&self) -> bool {
        self.source is Some && self.processor is Some && self.fetch_interval is Some
    }

    /// The message of the error for the first required part that is missing.
    pub open spec fn missing(&self) -> Seq<char> {
        if self.source is None {
            no_source()
        } else if self.processor is None {
            no_processor()
        } else {
            no_fetch_interval()
        }
    }

    /// Builds the engine, or says what is missing.
    ///
    /// With a fallback the cell starts with the fallback at version 0, the
    /// metrics sink is told so, and the cell can never be found empty. Without
    /// one the cell starts empty. Nothing is fetched yet: the first call of
    /// `refresh` does that.
    pub fn build(self) -> (built: Result<MirrorCache<O, S, P, U, F, M>, Error>)
        ensures
            built is Ok <==> self.complete(),
            built matches Err(err) ==> err@ == self.missing(),
            built matches Ok(cache) ==> {
                &&& cache.source() == self.source->0
                &&& cache.processor() == self.processor->0
                &&& cache.interval() == self.fetch_interval->0
                &&& cache.label() == self.name
                &&& cache.holder().seeded() == self.fallback is Some
                &&& match self.fallback {
                    Some(fallback) => {
                        &&& cache.slot() matches Some(snapshot)
                        &&& snapshot.0 == 0
                        &&& O::stores(fallback.value(), snapshot.1)
                        &&& cache.seed() == Some(snapshot.1)
                    },
                    None => cache.slot() is None && cache.seed() is None,
                }
            },
    {
        let source = match self.source {
            Some(source) => source,
            None => {
                return Err(Error::new("a source is required"));
            },
        };
        let processor = match self.processor {
            Some(processor) => processor,
            None => {
                return Err(Error::new("a processor is required"));
            },
        };
        let fetch_interval = match self.fetch_interval {
            Some(fetch_interval) => fetch_interval,
            None => {
                return Err(Error::new("a fetch interval is required"));
            },
        };
        let metrics = self.metrics;
        let current = match self.fallback {
            Some(fallback) => {
                let stored = O::adopt(fallback.into_value());
                metrics.fallback_invoked();
                Arc::new(Some((0u128, stored)))
            },
            None => Arc::new(None),
        };
        let ghost seed = collection_in(current);
        let ghost rule = |slot: Option<(u128, O::Stored)>|
            may_hold::<O, S, P>(source, processor, seed, slot);
        let holder = Holder::with_rule(current.clone(), Ghost(rule));
        Ok(
            MirrorCache {
                name: self.name,
                source,
                processor,
                fetch_interval,
                on_update: self.on_update,
                on_failure: self.on_failure,
                metrics,
                holder,
                current,
                seed: Ghost(seed),
            },
        )
    }
}

/// A builder for an engine that mirrors a map.
pub fn map_builder<
    K: Eq + std::hash::Hash + Send + Sync,
    V: Send + Sync,
    S: ConfigSource,
    P: RawConfigProcessor<S::Raw, std::collections::HashMap<K, V>>,
>() -> (builder: MirrorCacheBuilder<UpdatingMap<K, V>, S, P, Quiet, Quiet, NoMetrics>)
    ensures
        builder.name is None,
        builder.source is None,
        builder.processor is None,
        builder.fetch_interval is None,
        builder.fallback is None,
{
    MirrorCacheBuilder::new()
}

/// A builder for an engine that mirrors a set.
pub fn set_builder<
    T: Eq + std::hash::Hash + Send + Sync,
    S: ConfigSource,
    P: RawConfigProcessor<S::Raw, std::collections::HashSet<T>>,
>() -> (builder: MirrorCacheBuilder<UpdatingSet<T>, S, P, Quiet, Quiet, NoMetrics>)
    ensures
        builder.name is None,
        builder.source is None,
        builder.processor is None,
        builder.fetch_interval is None,
        builder.fallback is None,
{
    MirrorCacheBuilder::new()
}

} // verus!
