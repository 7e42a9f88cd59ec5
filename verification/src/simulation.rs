//! Restbus simulation over frames that are assembled from all of their PDUs.
use crate::assembly::{
    assemble_scheduled_frame, frame_outcome, is_cyclic, length_message,
    outcome_view, scheduled_frame_is_wf, PduInput, ScheduledFrame, ScheduledFrameView,
};
use crate::cast::i64_to_usize;
use crate::cluster::{
    can_extract, is_walk, may_extract, walk_entries, CanCluster, CanFrameTriggering, PDUMapping,
    PDU,
};
use crate::error::SimulationError;
use crate::timing::{Seconds, Span};
use crate::wire::CANFD_MAX_DLEN;
use vstd::prelude::*;

verus! {

/// All that building the frame asks of `extract` and `to_span` can be asked.
pub open spec fn can_build<
    S,
    G,
    E: Fn(bool, &Vec<S>, &Vec<G>, i64, bool) -> Vec<u8>,
    T: Fn(Seconds) -> Span,
>(triggering: CanFrameTriggering<S, G>, extract: E, to_span: T) -> bool {
    triggering.spec_is_cyclic() && triggering.spec_has_valid_length() ==> forall|k: int|
        0 <= k < triggering.pdu_mappings@.len() ==> {
            let mapping = #[trigger] triggering.pdu_mappings@[k];
            &&& can_extract(extract, mapping, mapping.length)
            &&& mapping.pdu matches PDU::ISignalIPDU(ipdu) ==> is_cyclic(mapping) ==> {
                &&& call_requires(to_span, (ipdu.cyclic_timing_period_value,))
                &&& call_requires(to_span, (ipdu.cyclic_timing_offset_value,))
            }
        }
}

/// `input` is what `extract` and `to_span` answer for one mapping. The bytes are asked for with
/// the length of the mapping.
pub open spec fn may_feed<
    S,
    G,
    E: Fn(bool, &Vec<S>, &Vec<G>, i64, bool) -> Vec<u8>,
    T: Fn(Seconds) -> Span,
>(mapping: PDUMapping<S, G>, input: PduInput, extract: E, to_span: T) -> bool {
    &&& may_extract(extract, mapping, mapping.length, input.data)
    &&& mapping.pdu matches PDU::ISignalIPDU(ipdu) ==> is_cyclic(mapping) ==> {
        &&& call_ensures(to_span, (ipdu.cyclic_timing_period_value,), input.period)
        &&& call_ensures(to_span, (ipdu.cyclic_timing_offset_value,), input.offset)
    }
}

/// `inputs` is what `extract` and `to_span` answer for the mappings of a cyclic frame of valid
/// length. Of other frames nothing is asked.
pub open spec fn may_feed_all<
    S,
    G,
    E: Fn(bool, &Vec<S>, &Vec<G>, i64, bool) -> Vec<u8>,
    T: Fn(Seconds) -> Span,
>(
    triggering: CanFrameTriggering<S, G>,
    inputs: Seq<PduInput>,
    extract: E,
    to_span: T,
) -> bool {
    triggering.spec_is_cyclic() && triggering.spec_has_valid_length() ==> {
        &&& inputs.len() == triggering.pdu_mappings@.len()
        &&& forall|k: int|
            0 <= k < inputs.len() ==> may_feed(
                triggering.pdu_mappings@[k],
                #[trigger] inputs[k],
                extract,
                to_span,
            )
    }
}

/// `outcome` is what becomes of a frame for some answers of `extract` and `to_span`.
pub open spec fn may_build<
    S,
    G,
    E: Fn(bool, &Vec<S>, &Vec<G>, i64, bool) -> Vec<u8>,
    T: Fn(Seconds) -> Span,
>(
    triggering: CanFrameTriggering<S, G>,
    outcome: Result<Option<ScheduledFrameView>, Seq<char>>,
    extract: E,
    to_span: T,
) -> bool {
    exists|inputs: Seq<PduInput>|
        #![trigger frame_outcome(triggering, inputs)]
        may_feed_all(triggering, inputs, extract, to_span) && outcome == frame_outcome(
            triggering,
            inputs,
        )
}

/// The mathematical contents of a list of outcomes.
pub open spec fn outcome_views(outcomes: Seq<Result<Option<ScheduledFrame>, String>>) -> Seq<
    Result<Option<ScheduledFrameView>, Seq<char>>,
> {
    outcomes.map_values(|outcome: Result<Option<ScheduledFrame>, String>| outcome_view(outcome))
}

/// The mathematical contents of a list of frames.
pub open spec fn frame_views(frames: Seq<ScheduledFrame>) -> Seq<ScheduledFrameView> {
    frames.map_values(|frame: ScheduledFrame| frame@)
}

/// The frames among the outcomes, in their order.
pub open spec fn scheduled(
    outcomes: Seq<Result<Option<ScheduledFrameView>, Seq<char>>>,
) -> Seq<ScheduledFrameView>
    decreases outcomes.len(),
{
    if outcomes.len() == 0 {
        Seq::empty()
    } else {
        match outcomes.last() {
            Ok(Some(frame)) => scheduled(outcomes.drop_last()).push(frame),
            _ => scheduled(outcomes.drop_last()),
        }
    }
}

/// The frames among the outcomes are kept, and no others.
pub proof fn scheduled_holds_the_frames(
    outcomes: Seq<Result<Option<ScheduledFrameView>, Seq<char>>>,
    frame: ScheduledFrameView,
)
    ensures
        scheduled(outcomes).contains(frame) <==> outcomes.contains(Ok(Some(frame))),
    decreases outcomes.len(),
{
    if outcomes.len() > 0 {
        let front = outcomes.drop_last();
        let last = outcomes.last();
        scheduled_holds_the_frames(front, frame);
        assert(outcomes == front.push(last));
        vstd::seq_lib::lemma_seq_contains_after_push(front, last, Ok(Some(frame)));
        if let Ok(Some(kept)) = last {
            vstd::seq_lib::lemma_seq_contains_after_push(scheduled(front), kept, frame);
        }
    }
}

/// The frames among the outcomes are well formed.
pub open spec fn all_wf(outcomes: Seq<Result<Option<ScheduledFrameView>, Seq<char>>>) -> bool {
    forall|i: int|
        0 <= i < outcomes.len() ==> (#[trigger] outcomes[i] matches Ok(Some(frame)) ==> frame.wf())
}

proof fn scheduled_keeps_wf(outcomes: Seq<Result<Option<ScheduledFrameView>, Seq<char>>>)
    requires
        all_wf(outcomes),
    ensures
        forall|f: int|
            0 <= f < scheduled(outcomes).len() ==> (#[trigger] scheduled(outcomes)[f]).wf(),
    decreases outcomes.len(),
{
    if outcomes.len() > 0 {
        assert(all_wf(outcomes.drop_last()));
        scheduled_keeps_wf(outcomes.drop_last());
        assert(outcomes.last() == outcomes[outcomes.len() - 1]);
        let front = scheduled(outcomes.drop_last());
        assert forall|f: int| 0 <= f < scheduled(outcomes).len() implies (
        #[trigger] scheduled(outcomes)[f]).wf() by {
            if f < front.len() {
                assert(scheduled(outcomes)[f] == front[f]);
            }
        }
    }
}

/// `outcomes` is what becomes of the frames of a cluster, taken once each in some order, for some
/// answers of `extract` and `to_span`.
pub open spec fn may_build_cluster<
    S,
    G,
    E: Fn(bool, &Vec<S>, &Vec<G>, i64, bool) -> Vec<u8>,
    T: Fn(Seconds) -> Span,
>(
    cluster: CanCluster<S, G>,
    outcomes: Seq<Result<Option<ScheduledFrameView>, Seq<char>>>,
    extract: E,
    to_span: T,
) -> bool {
    exists|walk: Seq<(i64, &CanFrameTriggering<S, G>)>| #[trigger]
        is_walk(walk, cluster.can_frame_triggerings@) && outcomes.len() == walk.len() && forall|
            j: int,
        |
            0 <= j < walk.len() ==> may_build(*walk[j].1, #[trigger] outcomes[j], extract, to_span)
}

/// Every frame that is scheduled for a cluster is that of one of its triggerings.
pub proof fn cluster_frame_comes_from_a_triggering<
    S,
    G,
    E: Fn(bool, &Vec<S>, &Vec<G>, i64, bool) -> Vec<u8>,
    T: Fn(Seconds) -> Span,
>(
    cluster: CanCluster<S, G>,
    outcomes: Seq<Result<Option<ScheduledFrameView>, Seq<char>>>,
    frame: ScheduledFrameView,
    extract: E,
    to_span: T,
)
    requires
        may_build_cluster(cluster, outcomes, extract, to_span),
        scheduled(outcomes).contains(frame),
    ensures
        exists|key: i64| #[trigger]
            cluster.can_frame_triggerings@.contains_key(key) && may_build(
                cluster.can_frame_triggerings@[key],
                Ok(Some(frame)),
                extract,
                to_span,
            ),
{
    scheduled_holds_the_frames(outcomes, frame);
    let walk = choose|walk: Seq<(i64, &CanFrameTriggering<S, G>)>| #[trigger]
        is_walk(walk, cluster.can_frame_triggerings@) && outcomes.len() == walk.len() && forall|
            j: int,
        |
            0 <= j < walk.len() ==> may_build(*walk[j].1, #[trigger] outcomes[j], extract, to_span);
    let j = outcomes.index_of(Ok(Some(frame)));
    assert(may_build(*walk[j].1, outcomes[j], extract, to_span));
    assert(cluster.can_frame_triggerings@.contains_key(walk[j].0));
}

/// Every triggering of a cluster is built, and there are no more outcomes than triggerings.
pub proof fn every_triggering_is_built_once<
    S,
    G,
    E: Fn(bool, &Vec<S>, &Vec<G>, i64, bool) -> Vec<u8>,
    T: Fn(Seconds) -> Span,
>(
    cluster: CanCluster<S, G>,
    outcomes: Seq<Result<Option<ScheduledFrameView>, Seq<char>>>,
    key: i64,
    extract: E,
    to_span: T,
)
    requires
        may_build_cluster(cluster, outcomes, extract, to_span),
        cluster.can_frame_triggerings@.contains_key(key),
    ensures
        outcomes.len() == cluster.can_frame_triggerings@.len(),
        exists|j: int|
            0 <= j < outcomes.len() && may_build(
                cluster.can_frame_triggerings@[key],
                #[trigger] outcomes[j],
                extract,
                to_span,
            ),
{
    let walk = choose|walk: Seq<(i64, &CanFrameTriggering<S, G>)>| #[trigger]
        is_walk(walk, cluster.can_frame_triggerings@) && outcomes.len() == walk.len() && forall|
            j: int,
        |
            0 <= j < walk.len() ==> may_build(*walk[j].1, #[trigger] outcomes[j], extract, to_span);
    crate::cluster::walk_has_one_step_per_entry(walk, cluster.can_frame_triggerings@);
    let j = choose|j: int| 0 <= j < walk.len() && (#[trigger] walk[j]).0 == key;
    assert(may_build(*walk[j].1, outcomes[j], extract, to_span));
}

/// All that building the frames of a cluster asks of `extract` and `to_span` can be asked.
pub open spec fn can_build_cluster<
    S,
    G,
    E: Fn(bool, &Vec<S>, &Vec<G>, i64, bool) -> Vec<u8>,
    T: Fn(Seconds) -> Span,
>(cluster: CanCluster<S, G>, extract: E, to_span: T) -> bool {
    forall|key: i64| #[trigger]
        cluster.can_frame_triggerings@.contains_key(key) ==> can_build(
            cluster.can_frame_triggerings@[key],
            extract,
            to_span,
        )
}

/// A triggering together with what became of its frame.
#[derive(Debug)]
pub struct BuiltFrame<'a, S, G> {
    pub triggering: &'a CanFrameTriggering<S, G>,
    pub outcome: Result<Option<ScheduledFrame>, String>,
}

/// The mathematical contents of the outcomes.
pub open spec fn built_outcomes<S, G>(built: Seq<BuiltFrame<'_, S, G>>) -> Seq<
    Result<Option<ScheduledFrameView>, Seq<char>>,
> {
    built.map_values(|frame: BuiltFrame<'_, S, G>| outcome_view(frame.outcome))
}

/// `built` holds every triggering of a cluster once, in some order, each with what becomes of its
/// frame for some answers of `extract` and `to_span`.
pub open spec fn may_build_each<
    S,
    G,
    E: Fn(bool, &Vec<S>, &Vec<G>, i64, bool) -> Vec<u8>,
    T: Fn(Seconds) -> Span,
>(
    cluster: CanCluster<S, G>,
    built: Seq<BuiltFrame<'_, S, G>>,
    extract: E,
    to_span: T,
) -> bool {
    exists|walk: Seq<(i64, &CanFrameTriggering<S, G>)>| #[trigger]
        is_walk(walk, cluster.can_frame_triggerings@) && built.len() == walk.len() && forall|
            j: int,
        |
            0 <= j < walk.len() ==> (#[trigger] built[j]).triggering == walk[j].1 && may_build(
                *built[j].triggering,
                outcome_view(built[j].outcome),
                extract,
                to_span,
            )
}

/// What becomes of each triggering is what becomes of the cluster.
pub proof fn building_each_builds_the_cluster<
    S,
    G,
    E: Fn(bool, &Vec<S>, &Vec<G>, i64, bool) -> Vec<u8>,
    T: Fn(Seconds) -> Span,
>(
    cluster: CanCluster<S, G>,
    built: Seq<BuiltFrame<'_, S, G>>,
    extract: E,
    to_span: T,
)
    requires
        may_build_each(cluster, built, extract, to_span),
    ensures
        may_build_cluster(cluster, built_outcomes(built), extract, to_span),
{
    let walk = choose|walk: Seq<(i64, &CanFrameTriggering<S, G>)>| #[trigger]
        is_walk(walk, cluster.can_frame_triggerings@) && built.len() == walk.len() && forall|
            j: int,
        |
            0 <= j < walk.len() ==> (#[trigger] built[j]).triggering == walk[j].1 && may_build(
                *built[j].triggering,
                outcome_view(built[j].outcome),
                extract,
                to_span,
            );
    let outcomes = built_outcomes(built);
    assert forall|j: int| 0 <= j < walk.len() implies may_build(
        *walk[j].1,
        #[trigger] outcomes[j],
        extract,
        to_span,
    ) by {
        assert(built[j].triggering == walk[j].1);
    }
}

/// `parts` holds, cluster by cluster, every triggering with what becomes of its frame.
pub open spec fn may_build_parts<
    S,
    G,
    E: Fn(bool, &Vec<S>, &Vec<G>, i64, bool) -> Vec<u8>,
    T: Fn(Seconds) -> Span,
>(
    clusters: Seq<&CanCluster<S, G>>,
    parts: Seq<Seq<BuiltFrame<'_, S, G>>>,
    extract: E,
    to_span: T,
) -> bool {
    &&& parts.len() == clusters.len()
    &&& forall|c: int|
        0 <= c < parts.len() ==> {
            &&& may_build_each(*clusters[c], #[trigger] parts[c], extract, to_span)
            &&& may_build_cluster(*clusters[c], built_outcomes(parts[c]), extract, to_span)
        }
}

proof fn outcomes_of_parts<S, G>(parts: Seq<Seq<BuiltFrame<'_, S, G>>>)
    ensures
        built_outcomes(parts.flatten()) == parts.map_values(
            |part: Seq<BuiltFrame<'_, S, G>>| built_outcomes(part),
        ).flatten(),
    decreases parts.len(),
{
    let outcomes = parts.map_values(|part: Seq<BuiltFrame<'_, S, G>>| built_outcomes(part));
    if parts.len() > 0 {
        outcomes_of_parts(parts.drop_first());
        assert(outcomes.drop_first() == parts.drop_first().map_values(
            |part: Seq<BuiltFrame<'_, S, G>>| built_outcomes(part),
        ));
        assert(built_outcomes(parts.flatten()) == built_outcomes(parts.first()) + built_outcomes(
            parts.drop_first().flatten(),
        ));
    }
}

/// Takes the outcomes out of what was built.
pub fn outcomes_of<S, G>(built: Vec<BuiltFrame<'_, S, G>>) -> (outcomes: Vec<
    Result<Option<ScheduledFrame>, String>,
>)
    ensures
        outcomes@ == built@.map_values(|frame: BuiltFrame<'_, S, G>| frame.outcome),
{
    let mut outcomes: Vec<Result<Option<ScheduledFrame>, String>> = Vec::new();
    let ghost all = built@;
    for frame in it: built
        invariant
            it.seq() == all,
            outcomes@.len() == it.index(),
            forall|i: int| 0 <= i < outcomes@.len() ==> #[trigger] outcomes@[i] == all[i].outcome,
    {
        outcomes.push(frame.outcome);
    }
    outcomes
}

/// The restbus simulation engine.
///
/// Holds the frames of CAN clusters that are replayed on a CAN interface at their cyclic timing
/// rates.
#[derive(Debug)]
pub struct RestbusSimulation {
    interface_name: String,
    scheduled_frames: Vec<ScheduledFrame>,
}

impl RestbusSimulation {
    /// Builds a [`ScheduledFrame`] from a single [`CanFrameTriggering`].
    ///
    /// Returns `Ok(None)` if the triggering has no PDU mappings, or no cyclic timing (it is
    /// event-driven only). Returns a message if the length of a cyclic frame is not one of a CAN FD
    /// frame.
    ///
    /// `extract` gives the initial bytes of a PDU; `to_span` turns a number of seconds into a
    /// length of time.
    pub fn build_scheduled_frame<
        S,
        G,
        E: Fn(bool, &Vec<S>, &Vec<G>, i64, bool) -> Vec<u8> + Copy,
        T: Fn(Seconds) -> Span + Copy,
    >(triggering: &CanFrameTriggering<S, G>, extract: E, to_span: T) -> (res: Result<
        Option<ScheduledFrame>,
        String,
    >)
        requires
            can_build(*triggering, extract, to_span),
        ensures
            may_build(*triggering, outcome_view(res), extract, to_span),
            res matches Ok(Some(frame)) ==> frame@.wf(),
            res is Err <==> (exists|k: int|
                0 <= k < triggering.pdu_mappings@.len() && is_cyclic(
                    #[trigger] triggering.pdu_mappings@[k],
                )) && !triggering.spec_has_valid_length(),
            res matches Err(message) ==> message@ == triggering.spec_length_message(),
            (forall|k: int|
                0 <= k < triggering.pdu_mappings@.len() ==> !is_cyclic(
                    #[trigger] triggering.pdu_mappings@[k],
                )) ==> res == Ok::<Option<ScheduledFrame>, String>(None),
    {
        if !triggering.carries_cyclic_pdu() {
            assert(outcome_view(Ok(None)) == frame_outcome(*triggering, Seq::empty()));
            return Ok(None);
        }
        let frame_length: usize = i64_to_usize(triggering.frame_length);
        if frame_length == 0 || frame_length > CANFD_MAX_DLEN {
            let message = length_message(frame_length, &triggering.frame_name);
            assert(outcome_view(Err(message)) == frame_outcome(*triggering, Seq::empty()));
            return Err(message);
        }
        let mut inputs: Vec<PduInput> = Vec::new();
        let mut k: usize = 0;
        while k < triggering.pdu_mappings.len()
            invariant
                k <= triggering.pdu_mappings@.len(),
                inputs@.len() == k,
                triggering.spec_is_cyclic(),
                triggering.spec_has_valid_length(),
                can_build(*triggering, extract, to_span),
                forall|j: int|
                    0 <= j < inputs@.len() ==> may_feed(
                        triggering.pdu_mappings@[j],
                        #[trigger] inputs@[j],
                        extract,
                        to_span,
                    ),
            decreases triggering.pdu_mappings@.len() - k,
        {
            let mapping = &triggering.pdu_mappings[k];
            let mut period = Span::zero();
            let mut offset = Span::zero();
            if let PDU::ISignalIPDU(ipdu) = &mapping.pdu {
                if ipdu.cyclic_timing_period_value.is_positive() {
                    period = to_span(ipdu.cyclic_timing_period_value);
                    offset = to_span(ipdu.cyclic_timing_offset_value);
                }
            }
            let data = mapping.init_values(mapping.length, extract);
            inputs.push(PduInput { data, period, offset });
            k = k + 1;
        }
        proof {
            scheduled_frame_is_wf(*triggering, inputs@);
        }
        assemble_scheduled_frame(triggering, &inputs)
    }

    /// The name of the interface on which the frames are sent.
    pub closed spec fn spec_interface_name(self) -> Seq<char> {
        self.interface_name@
    }

    /// The frames that are sent.
    pub closed spec fn spec_scheduled_frames(self) -> Seq<ScheduledFrame> {
        self.scheduled_frames@
    }

    /// Builds the frames of one cluster.
    fn build_cluster<
        'a,
        S,
        G,
        E: Fn(bool, &Vec<S>, &Vec<G>, i64, bool) -> Vec<u8> + Copy,
        T: Fn(Seconds) -> Span + Copy,
    >(cluster: &'a CanCluster<S, G>, extract: E, to_span: T) -> (built: Vec<BuiltFrame<'a, S, G>>)
        requires
            can_build_cluster(*cluster, extract, to_span),
        ensures
            may_build_each(*cluster, built@, extract, to_span),
            all_wf(built_outcomes(built@)),
    {
        let walk = walk_entries(&cluster.can_frame_triggerings);
        let mut built: Vec<BuiltFrame<'a, S, G>> = Vec::new();
        let mut j: usize = 0;
        while j < walk.len()
            invariant
                j <= walk@.len(),
                is_walk(walk@, cluster.can_frame_triggerings@),
                can_build_cluster(*cluster, extract, to_span),
                built@.len() == j,
                all_wf(built_outcomes(built@)),
                forall|i: int|
                    0 <= i < j ==> (#[trigger] built@[i]).triggering == walk@[i].1 && may_build(
                        *built@[i].triggering,
                        outcome_view(built@[i].outcome),
                        extract,
                        to_span,
                    ),
            decreases walk@.len() - j,
        {
            let triggering = walk[j].1;
            assert(cluster.can_frame_triggerings@.contains_key(walk@[j as int].0));
            let outcome = Self::build_scheduled_frame(triggering, extract, to_span);
            let ghost before = built@;
            let ghost view = outcome_view(outcome);
            built.push(BuiltFrame { triggering, outcome });
            assert(built_outcomes(built@) == built_outcomes(before).push(view));
            j = j + 1;
        }
        built
    }

    /// Builds the frames of CAN clusters: every triggering of every cluster once, with what became
    /// of its frame.
    ///
    /// `extract` gives the initial bytes of a PDU; `to_span` turns a number of seconds into a
    /// length of time.
    pub fn build_frames<
        'a,
        S,
        G,
        E: Fn(bool, &Vec<S>, &Vec<G>, i64, bool) -> Vec<u8> + Copy,
        T: Fn(Seconds) -> Span + Copy,
    >(clusters: &Vec<&'a CanCluster<S, G>>, extract: E, to_span: T) -> (built: Vec<
        BuiltFrame<'a, S, G>,
    >)
        requires
            forall|c: int|
                0 <= c < clusters@.len() ==> can_build_cluster(
                    *#[trigger] clusters@[c],
                    extract,
                    to_span,
                ),
        ensures
            exists|parts: Seq<Seq<BuiltFrame<'a, S, G>>>| #[trigger]
                may_build_parts(clusters@, parts, extract, to_span) && built@ == parts.flatten(),
            all_wf(built_outcomes(built@)),
    {
        let mut built: Vec<BuiltFrame<'a, S, G>> = Vec::new();
        let ghost mut parts: Seq<Seq<BuiltFrame<'a, S, G>>> = Seq::empty();
        let mut c: usize = 0;
        while c < clusters.len()
            invariant
                c <= clusters@.len(),
                forall|i: int|
                    0 <= i < clusters@.len() ==> can_build_cluster(
                        *#[trigger] clusters@[i],
                        extract,
                        to_span,
                    ),
                may_build_parts(clusters@.take(c as int), parts, extract, to_span),
                built@ == parts.flatten(),
                all_wf(built_outcomes(built@)),
            decreases clusters@.len() - c,
        {
            let mut part = Self::build_cluster(clusters[c], extract, to_span);
            let ghost before = built@;
            let ghost added = part@;
            built.append(&mut part);
            proof {
                building_each_builds_the_cluster(*clusters@[c as int], added, extract, to_span);
                parts.lemma_flatten_push(added);
                parts = parts.push(added);
                assert(built_outcomes(built@) == built_outcomes(before) + built_outcomes(added));
            }
            c = c + 1;
        }
        assert(clusters@.take(c as int) == clusters@);
        built
    }

    /// Builds a new simulation from CAN clusters.
    ///
    /// Goes over every [`CanFrameTriggering`] of each cluster and keeps those that are sent
    /// cyclically, each with the packed initial values of its signals. A frame of invalid length
    /// is left out.
    ///
    /// `extract` gives the initial bytes of a PDU; `to_span` turns a number of seconds into a
    /// length of time.
    pub fn new<
        S,
        G,
        E: Fn(bool, &Vec<S>, &Vec<G>, i64, bool) -> Vec<u8> + Copy,
        T: Fn(Seconds) -> Span + Copy,
    >(
        interface_name: &str,
        clusters: &Vec<&CanCluster<S, G>>,
        extract: E,
        to_span: T,
    ) -> (res: Self)
        requires
            forall|c: int|
                0 <= c < clusters@.len() ==> can_build_cluster(
                    *#[trigger] clusters@[c],
                    extract,
                    to_span,
                ),
        ensures
            res.spec_interface_name() == interface_name@,
            exists|outcomes: Seq<Seq<Result<Option<ScheduledFrameView>, Seq<char>>>>|
                #![trigger outcomes.flatten()]
                outcomes.len() == clusters@.len() && (forall|c: int|
                    0 <= c < outcomes.len() ==> may_build_cluster(
                        *clusters@[c],
                        #[trigger] outcomes[c],
                        extract,
                        to_span,
                    )) && frame_views(res.spec_scheduled_frames()) == scheduled(outcomes.flatten()),
            forall|f: int|
                0 <= f < res.spec_scheduled_frames().len() ==> (
                #[trigger] res.spec_scheduled_frames()[f])@.wf(),
    {
        let built = Self::build_frames(clusters, extract, to_span);
        let ghost all = built@;
        let ghost parts = choose|parts: Seq<Seq<BuiltFrame<'_, S, G>>>| #[trigger]
            may_build_parts(clusters@, parts, extract, to_span) && all == parts.flatten();
        let outcomes = outcomes_of(built);
        assert(outcome_views(outcomes@) == built_outcomes(all));
        let res = Self::from_outcomes(interface_name, outcomes);
        proof {
            let per_cluster = parts.map_values(
                |part: Seq<BuiltFrame<'_, S, G>>| built_outcomes(part),
            );
            outcomes_of_parts(parts);
            assert(frame_views(res.spec_scheduled_frames()) == scheduled(per_cluster.flatten()));
            assert forall|c: int| 0 <= c < per_cluster.len() implies may_build_cluster(
                *clusters@[c],
                #[trigger] per_cluster[c],
                extract,
                to_span,
            ) by {
                assert(may_build_each(*clusters@[c], parts[c], extract, to_span));
            }
            scheduled_keeps_wf(per_cluster.flatten());
            assert forall|f: int| 0 <= f < res.spec_scheduled_frames().len() implies (
            #[trigger] res.spec_scheduled_frames()[f])@.wf() by {
                assert(frame_views(res.spec_scheduled_frames())[f]
                    == res.spec_scheduled_frames()[f]@);
            }
        }
        res
    }

    /// Collects the frames that were scheduled. A frame with a message, and one that is not sent
    /// cyclically, is left out.
    pub fn from_outcomes(
        interface_name: &str,
        outcomes: Vec<Result<Option<ScheduledFrame>, String>>,
    ) -> (res: Self)
        ensures
            res.spec_interface_name() == interface_name@,
            frame_views(res.spec_scheduled_frames()) == scheduled(outcome_views(outcomes@)),
    {
        let mut scheduled_frames: Vec<ScheduledFrame> = Vec::new();
        let ghost all = outcomes@;
        for outcome in it: outcomes
            invariant
                it.seq() == all,
                frame_views(scheduled_frames@) == scheduled(
                    outcome_views(all.take(it.index() as int)),
                ),
        {
            let ghost k = it.index() as int;
            proof {
                assert(outcome_views(all.take(k + 1)).drop_last() == outcome_views(all.take(k)));
                assert(outcome_views(all.take(k + 1)).last() == outcome_view(all[k]));
            }
            let ghost before = scheduled_frames@;
            if let Ok(Some(frame)) = outcome {
                scheduled_frames.push(frame);
                assert(frame_views(scheduled_frames@) == frame_views(before).push(frame@));
            }
        }
        assert(all.take(all.len() as int) == all);
        RestbusSimulation { interface_name: interface_name.to_owned(), scheduled_frames }
    }

    /// Returns the list of frames that will be transmitted.
    pub fn scheduled_frames(&self) -> (res: &[ScheduledFrame])
        ensures
            res@ == self.spec_scheduled_frames(),
    {
        self.scheduled_frames.as_slice()
    }

    /// Returns the target CAN interface name.
    pub fn interface_name(&self) -> (res: &str)
        ensures
            res@ == self.spec_interface_name(),
    {
        self.interface_name.as_str()
    }

    /// Tells whether there is a frame to transmit; without one the simulation does not run.
    pub fn check_frames(&self) -> (res: Result<(), SimulationError>)
        ensures
            res == (if self.spec_scheduled_frames().len() == 0 {
                Err(SimulationError::NoFrames)
            } else {
                Ok::<(), SimulationError>(())
            }),
    {
        if self.scheduled_frames.len() == 0 {
            Err(SimulationError::NoFrames)
        } else {
            Ok(())
        }
    }
}

/// A frame that is built takes its timing from its last cyclic PDU: its period is an answer of
/// `to_span` to the period of that PDU, its offset one to the offset of that PDU.
pub proof fn built_frame_has_the_timing_of_its_last_cyclic_pdu<
    S,
    G,
    E: Fn(bool, &Vec<S>, &Vec<G>, i64, bool) -> Vec<u8>,
    T: Fn(Seconds) -> Span,
>(
    triggering: CanFrameTriggering<S, G>,
    frame: ScheduledFrameView,
    k: int,
    extract: E,
    to_span: T,
)
    requires
        may_build(triggering, Ok(Some(frame)), extract, to_span),
        0 <= k < triggering.pdu_mappings@.len(),
        is_cyclic(triggering.pdu_mappings@[k]),
        forall|j: int|
            k < j < triggering.pdu_mappings@.len() ==> !is_cyclic(
                #[trigger] triggering.pdu_mappings@[j],
            ),
    ensures
        triggering.pdu_mappings@[k].pdu matches PDU::ISignalIPDU(ipdu) && call_ensures(
            to_span,
            (ipdu.cyclic_timing_period_value,),
            frame.period,
        ) && call_ensures(to_span, (ipdu.cyclic_timing_offset_value,), frame.offset),
{
    let inputs = choose|inputs: Seq<PduInput>|
        #![trigger frame_outcome(triggering, inputs)]
        may_feed_all(triggering, inputs, extract, to_span) && Ok::<
            Option<ScheduledFrameView>,
            Seq<char>,
        >(Some(frame)) == frame_outcome(triggering, inputs);
    crate::assembly::timing_comes_from_last_cyclic_pdu(triggering.pdu_mappings@, inputs, k);
    assert(may_feed(triggering.pdu_mappings@[k], inputs[k], extract, to_span));
}

/// The initial bytes of a PDU, asked of `extract` with the length of the mapping, can be read in a
/// frame from the byte on in which the first bit of the PDU lies, as far as the frame reaches.
pub open spec fn holds_pdu<S, G, E: Fn(bool, &Vec<S>, &Vec<G>, i64, bool) -> Vec<u8>>(
    frame: Seq<u8>,
    mapping: PDUMapping<S, G>,
    extract: E,
) -> bool {
    exists|data: Vec<u8>| #[trigger]
        may_extract(extract, mapping, mapping.length, data) && forall|b: int|
            0 <= b < data@.len() && mapping.start_position as int / 8 + b < frame.len()
                ==> frame[mapping.start_position as int / 8 + b] == #[trigger] data@[b]
}

/// The initial bytes of the last PDU of a frame, asked for with the length of its mapping, lie in the
/// frame from the byte on in which its first bit lies. So does any PDU that no later one covers.
pub proof fn built_frame_holds_the_initial_bytes<
    S,
    G,
    E: Fn(bool, &Vec<S>, &Vec<G>, i64, bool) -> Vec<u8>,
    T: Fn(Seconds) -> Span,
>(
    triggering: CanFrameTriggering<S, G>,
    frame: ScheduledFrameView,
    k: int,
    extract: E,
    to_span: T,
)
    requires
        may_build(triggering, Ok(Some(frame)), extract, to_span),
        0 <= k < triggering.pdu_mappings@.len(),
        0 <= triggering.pdu_mappings@[k].start_position,
        forall|j: int, data: Vec<u8>, i: int|
            k < j < triggering.pdu_mappings@.len() && #[trigger] may_extract(
                extract,
                triggering.pdu_mappings@[j],
                triggering.pdu_mappings@[j].length,
                data,
            ) && triggering.pdu_mappings@[k].start_position as int / 8 <= i < frame.data.len()
                ==> #[trigger] is_free(triggering.pdu_mappings@[j], data@, i),
    ensures
        holds_pdu(frame.data, triggering.pdu_mappings@[k], extract),
{
    let mappings = triggering.pdu_mappings@;
    let inputs = choose|inputs: Seq<PduInput>|
        #![trigger frame_outcome(triggering, inputs)]
        may_feed_all(triggering, inputs, extract, to_span) && Ok::<
            Option<ScheduledFrameView>,
            Seq<char>,
        >(Some(frame)) == frame_outcome(triggering, inputs);
    let length = triggering.spec_data_length();
    crate::assembly::frame_bytes_has_frame_length(mappings, inputs, length);
    crate::assembly::pdu_begins_at_the_byte_of_its_first_bit(mappings[k]);
    assert(may_feed(mappings[k], inputs[k], extract, to_span));
    let data = inputs[k].data;
    assert forall|b: int|
        0 <= b < data@.len() && mappings[k].start_position as int / 8 + b
            < frame.data.len() implies frame.data[mappings[k].start_position as int / 8 + b]
        == #[trigger] data@[b] by {
        let i = mappings[k].start_position as int / 8 + b;
        assert forall|j: int| k < j < mappings.len() implies !(#[trigger] crate::assembly::covers(
            mappings,
            inputs,
            j,
            i,
        )) by {
            assert(may_feed(mappings[j], inputs[j], extract, to_span));
            assert(may_extract(extract, mappings[j], mappings[j].length, inputs[j].data));
            assert(is_free(mappings[j], inputs[j].data@, i));
            crate::assembly::pdu_begins_at_the_byte_of_its_first_bit(mappings[j]);
        }
        crate::assembly::covered_byte_comes_from_last_pdu(mappings, inputs, length, k, i);
    }
}

/// PDU data at the place of its mapping leaves the byte `i` of the frame free. Counted from the byte
/// in which its first bit lies, it ends before the byte or begins after it.
pub open spec fn is_free<S, G>(mapping: PDUMapping<S, G>, data: Seq<u8>, i: int) -> bool {
    let p = mapping.start_position as int;
    0 <= p && p / 8 <= usize::MAX && (i < p / 8 || p / 8 + data.len() <= i)
}

/// A frame that is built has the name of its triggering and goes out under its identifier, marked
/// as one of 29 bits if and only if the addressing mode says so. It has as many bytes as its length
/// says.
pub proof fn built_frame_is_that_of_its_triggering<
    S,
    G,
    E: Fn(bool, &Vec<S>, &Vec<G>, i64, bool) -> Vec<u8> + Copy,
    T: Fn(Seconds) -> Span + Copy,
>(
    triggering: CanFrameTriggering<S, G>,
    extract: E,
    to_span: T,
    res: Result<Option<ScheduledFrame>, String>,
)
    requires
        call_ensures(
            RestbusSimulation::build_scheduled_frame::<S, G, E, T>,
            (&triggering, extract, to_span),
            res,
        ),
    ensures
        may_build(triggering, outcome_view(res), extract, to_span),
        res matches Ok(Some(frame)) ==> {
            let id = (triggering.can_id as int % 0x1_0000_0000) as u32;
            &&& frame.frame_name@ == triggering.frame_name@
            &&& frame.extended_id <==> triggering.addressing_mode@ == "Extended"@
            &&& !frame.extended_id ==> frame.can_id == id
            &&& frame.extended_id ==> frame.can_id == id | 0x8000_0000
            &&& 1 <= frame.data@.len() <= 64
            &&& frame.period.secs > 0 || frame.period.nanos > 0
            &&& 0 <= triggering.frame_length <= usize::MAX ==> frame.data@.len()
                == triggering.frame_length
        },
        64 - usize::MAX <= triggering.frame_length <= usize::MAX ==> (res is Err <==> !(1
            <= triggering.frame_length <= 64) && exists|k: int|
            0 <= k < triggering.pdu_mappings@.len() && is_cyclic(
                #[trigger] triggering.pdu_mappings@[k],
            )),
        0 <= triggering.frame_length <= usize::MAX ==> (res matches Err(message) ==> message@
            == "invalid frame length "@ + crate::text::decimal(triggering.frame_length as nat)
            + " for '"@ + triggering.frame_name@ + "'"@),
        triggering.pdu_mappings@.len() == 0 ==> res matches Ok(None),
{
    crate::assembly::valid_length_is_from_1_to_64(triggering);
    if let Ok(Some(frame)) = res {
        let inputs = choose|inputs: Seq<PduInput>|
            #![trigger frame_outcome(triggering, inputs)]
            may_feed_all(triggering, inputs, extract, to_span) && outcome_view(res)
                == frame_outcome(triggering, inputs);
        crate::assembly::frame_bytes_has_frame_length(
            triggering.pdu_mappings@,
            inputs,
            triggering.spec_data_length(),
        );
    }
}

/// The frames among two lists of outcomes are those of the first and then those of the second. In a
/// list of one outcome it is the frame that was scheduled, or none.
pub proof fn scheduled_frames_keep_their_order(
    left: Seq<Result<Option<ScheduledFrameView>, Seq<char>>>,
    right: Seq<Result<Option<ScheduledFrameView>, Seq<char>>>,
    frame: ScheduledFrameView,
    outcome: Result<Option<ScheduledFrameView>, Seq<char>>,
)
    ensures
        scheduled(left + right) == scheduled(left) + scheduled(right),
        outcome == Ok::<Option<ScheduledFrameView>, Seq<char>>(Some(frame)) ==> scheduled(
            seq![outcome],
        ) == seq![frame],
        outcome is Err || outcome == Ok::<Option<ScheduledFrameView>, Seq<char>>(None)
            ==> scheduled(seq![outcome]).len() == 0,
    decreases right.len(),
{
    reveal_with_fuel(scheduled, 2);
    assert(seq![outcome].drop_last() == Seq::<
        Result<Option<ScheduledFrameView>, Seq<char>>,
    >::empty());
    assert(seq![outcome].last() == outcome);
    if right.len() == 0 {
        assert(left + right == left);
    } else {
        scheduled_frames_keep_their_order(left, right.drop_last(), frame, outcome);
        assert((left + right).drop_last() == left + right.drop_last());
        assert((left + right).last() == right.last());
    }
}

/// A simulation sends on the interface that it is given the frames that were scheduled, and no
/// others.
pub proof fn simulation_holds_the_scheduled_frames(
    interface_name: &str,
    outcomes: Vec<Result<Option<ScheduledFrame>, String>>,
    simulation: RestbusSimulation,
    frame: ScheduledFrameView,
)
    requires
        call_ensures(RestbusSimulation::from_outcomes, (interface_name, outcomes), simulation),
    ensures
        simulation.spec_interface_name() == interface_name@,
        (exists|i: int|
            0 <= i < simulation.spec_scheduled_frames().len() && (
            #[trigger] simulation.spec_scheduled_frames()[i])@ == frame) <==> (exists|j: int|
            0 <= j < outcomes@.len() && (#[trigger] outcomes@[j] matches Ok(Some(scheduled_frame))
                && scheduled_frame@ == frame)),
{
    let views = outcome_views(outcomes@);
    let frames = frame_views(simulation.spec_scheduled_frames());
    scheduled_holds_the_frames(views, frame);
    if frames.contains(frame) {
        let i = frames.index_of(frame);
        assert(simulation.spec_scheduled_frames()[i]@ == frame);
        let j = views.index_of(Ok(Some(frame)));
        assert(outcome_view(outcomes@[j]) == views[j]);
    } else {
        assert forall|i: int| 0 <= i < simulation.spec_scheduled_frames().len() implies (
        #[trigger] simulation.spec_scheduled_frames()[i])@ != frame by {
            assert(frames[i] == simulation.spec_scheduled_frames()[i]@);
        }
        assert forall|j: int| 0 <= j < outcomes@.len() implies outcome_view(
            #[trigger] outcomes@[j],
        ) != Ok::<Option<ScheduledFrameView>, Seq<char>>(Some(frame)) by {
            assert(views[j] == outcome_view(outcomes@[j]));
        }
    }
}

/// A simulation hands out its interface and its frames, and runs if and only if it has a frame.
pub proof fn simulation_runs_unless_it_has_no_frames(
    simulation: RestbusSimulation,
    frames: &[ScheduledFrame],
    interface_name: &str,
    res: Result<(), SimulationError>,
)
    requires
        call_ensures(RestbusSimulation::scheduled_frames, (&simulation,), frames),
        call_ensures(RestbusSimulation::interface_name, (&simulation,), interface_name),
        call_ensures(RestbusSimulation::check_frames, (&simulation,), res),
    ensures
        frames@ == simulation.spec_scheduled_frames(),
        interface_name@ == simulation.spec_interface_name(),
        res is Ok <==> frames@.len() > 0,
        res matches Err(error) ==> error is NoFrames,
{
}

proof fn part_lies_in_the_whole<A>(parts: Seq<Seq<A>>, c: int, j: int)
    requires
        0 <= c < parts.len(),
        0 <= j < parts[c].len(),
    ensures
        parts.flatten().contains(parts[c][j]),
    decreases parts.len(),
{
    let rest = parts.drop_first();
    if c == 0 {
        assert(parts.flatten()[j] == parts[0][j]);
    } else {
        assert(rest[c - 1] == parts[c]);
        part_lies_in_the_whole(rest, c - 1, j);
        let i = rest.flatten().index_of(parts[c][j]);
        assert(parts.flatten()[parts.first().len() + i] == parts[c][j]);
    }
}

proof fn whole_is_made_of_parts<A>(parts: Seq<Seq<A>>, i: int) -> (place: (int, int))
    requires
        0 <= i < parts.flatten().len(),
    ensures
        0 <= place.0 < parts.len(),
        0 <= place.1 < parts[place.0].len(),
        parts[place.0][place.1] == parts.flatten()[i],
    decreases parts.len(),
{
    let rest = parts.drop_first();
    if i < parts.first().len() {
        (0, i)
    } else {
        let (c, j) = whole_is_made_of_parts(rest, i - parts.first().len());
        assert(rest[c] == parts[c + 1]);
        (c + 1, j)
    }
}

/// A simulation of clusters holds, for every triggering of each of them, the frame that is built for
/// it, if one is.
pub proof fn every_triggering_is_simulated<
    S,
    G,
    E: Fn(bool, &Vec<S>, &Vec<G>, i64, bool) -> Vec<u8> + Copy,
    T: Fn(Seconds) -> Span + Copy,
>(
    interface_name: &str,
    clusters: Vec<&CanCluster<S, G>>,
    extract: E,
    to_span: T,
    simulation: RestbusSimulation,
    c: int,
    key: i64,
)
    requires
        call_ensures(
            RestbusSimulation::new::<S, G, E, T>,
            (interface_name, &clusters, extract, to_span),
            simulation,
        ),
        0 <= c < clusters@.len(),
        clusters@[c].can_frame_triggerings@.contains_key(key),
    ensures
        simulation.spec_interface_name() == interface_name@,
        exists|outcome: Result<Option<ScheduledFrameView>, Seq<char>>| #[trigger]
            may_build(clusters@[c].can_frame_triggerings@[key], outcome, extract, to_span) && (
            outcome matches Ok(Some(frame)) ==> frame_views(
                simulation.spec_scheduled_frames(),
            ).contains(frame)),
{
    let outcomes = choose|outcomes: Seq<Seq<Result<Option<ScheduledFrameView>, Seq<char>>>>|
        #![trigger outcomes.flatten()]
        outcomes.len() == clusters@.len() && (forall|c: int|
            0 <= c < outcomes.len() ==> may_build_cluster(
                *clusters@[c],
                #[trigger] outcomes[c],
                extract,
                to_span,
            )) && frame_views(simulation.spec_scheduled_frames()) == scheduled(outcomes.flatten());
    assert(may_build_cluster(*clusters@[c], outcomes[c], extract, to_span));
    every_triggering_is_built_once(*clusters@[c], outcomes[c], key, extract, to_span);
    let j = choose|j: int|
        0 <= j < outcomes[c].len() && may_build(
            clusters@[c].can_frame_triggerings@[key],
            #[trigger] outcomes[c][j],
            extract,
            to_span,
        );
    part_lies_in_the_whole(outcomes, c, j);
    if let Ok(Some(frame)) = outcomes[c][j] {
        scheduled_holds_the_frames(outcomes.flatten(), frame);
    }
}

/// Every frame of a simulation of clusters is one that is built for a triggering of one of them.
pub proof fn every_simulated_frame_is_that_of_a_triggering<
    S,
    G,
    E: Fn(bool, &Vec<S>, &Vec<G>, i64, bool) -> Vec<u8> + Copy,
    T: Fn(Seconds) -> Span + Copy,
>(
    interface_name: &str,
    clusters: Vec<&CanCluster<S, G>>,
    extract: E,
    to_span: T,
    simulation: RestbusSimulation,
    f: int,
)
    requires
        call_ensures(
            RestbusSimulation::new::<S, G, E, T>,
            (interface_name, &clusters, extract, to_span),
            simulation,
        ),
        0 <= f < simulation.spec_scheduled_frames().len(),
    ensures
        exists|c: int, key: i64|
            0 <= c < clusters@.len() && #[trigger] clusters@[c].can_frame_triggerings@.contains_key(
                key,
            ) && may_build(
                clusters@[c].can_frame_triggerings@[key],
                Ok(Some(simulation.spec_scheduled_frames()[f]@)),
                extract,
                to_span,
            ),
{
    let outcomes = choose|outcomes: Seq<Seq<Result<Option<ScheduledFrameView>, Seq<char>>>>|
        #![trigger outcomes.flatten()]
        outcomes.len() == clusters@.len() && (forall|c: int|
            0 <= c < outcomes.len() ==> may_build_cluster(
                *clusters@[c],
                #[trigger] outcomes[c],
                extract,
                to_span,
            )) && frame_views(simulation.spec_scheduled_frames()) == scheduled(outcomes.flatten());
    let frame = simulation.spec_scheduled_frames()[f]@;
    let frames = frame_views(simulation.spec_scheduled_frames());
    assert(frames[f] == frame);
    assert(frames.contains(frame));
    scheduled_holds_the_frames(outcomes.flatten(), frame);
    let i = outcomes.flatten().index_of(Ok(Some(frame)));
    let (c, j) = whole_is_made_of_parts(outcomes, i);
    assert(may_build_cluster(*clusters@[c], outcomes[c], extract, to_span));
    assert(outcomes[c].contains(Ok(Some(frame))));
    scheduled_holds_the_frames(outcomes[c], frame);
    cluster_frame_comes_from_a_triggering(*clusters@[c], outcomes[c], frame, extract, to_span);
}

/// A frame whose length is from 1 to 64 is built where the period of its last cyclic PDU is turned
/// into a length of time that is not empty, and passed over where that is empty.
pub proof fn cyclic_frame_is_built<
    S,
    G,
    E: Fn(bool, &Vec<S>, &Vec<G>, i64, bool) -> Vec<u8> + Copy,
    T: Fn(Seconds) -> Span + Copy,
>(
    triggering: CanFrameTriggering<S, G>,
    extract: E,
    to_span: T,
    k: int,
    res: Result<Option<ScheduledFrame>, String>,
)
    requires
        call_ensures(
            RestbusSimulation::build_scheduled_frame::<S, G, E, T>,
            (&triggering, extract, to_span),
            res,
        ),
        1 <= triggering.frame_length <= 64,
        0 <= k < triggering.pdu_mappings@.len(),
        is_cyclic(triggering.pdu_mappings@[k]),
        forall|j: int|
            k < j < triggering.pdu_mappings@.len() ==> !is_cyclic(
                #[trigger] triggering.pdu_mappings@[j],
            ),
    ensures
        triggering.pdu_mappings@[k].pdu matches PDU::ISignalIPDU(ipdu) && exists|
            period: Span,
            offset: Span,
        |
            call_ensures(to_span, (ipdu.cyclic_timing_period_value,), period) && call_ensures(
                to_span,
                (ipdu.cyclic_timing_offset_value,),
                offset,
            ) && (if period.secs == 0 && period.nanos == 0 {
                res matches Ok(None)
            } else {
                res matches Ok(Some(frame)) && frame.period == period && frame.offset == offset
            }),
{
    crate::assembly::valid_length_is_from_1_to_64(triggering);
    let inputs = choose|inputs: Seq<PduInput>|
        #![trigger frame_outcome(triggering, inputs)]
        may_feed_all(triggering, inputs, extract, to_span) && outcome_view(res) == frame_outcome(
            triggering,
            inputs,
        );
    assert(triggering.spec_is_cyclic());
    crate::assembly::timing_comes_from_last_cyclic_pdu(triggering.pdu_mappings@, inputs, k);
    assert(may_feed(triggering.pdu_mappings@[k], inputs[k], extract, to_span));
    if let PDU::ISignalIPDU(ipdu) = triggering.pdu_mappings@[k].pdu {
        let (period, offset) = (inputs[k].period, inputs[k].offset);
        assert(call_ensures(to_span, (ipdu.cyclic_timing_period_value,), period));
        assert(call_ensures(to_span, (ipdu.cyclic_timing_offset_value,), offset));
    }
}

/// Of what is built for clusters, each is a triggering of one of them together with what becomes of
/// that triggering. Every triggering of each cluster is built.
pub proof fn each_triggering_is_built_with_its_own_outcome<
    S,
    G,
    E: Fn(bool, &Vec<S>, &Vec<G>, i64, bool) -> Vec<u8> + Copy,
    T: Fn(Seconds) -> Span + Copy,
>(
    clusters: Vec<&CanCluster<S, G>>,
    extract: E,
    to_span: T,
    built: Vec<BuiltFrame<'_, S, G>>,
)
    requires
        call_ensures(
            RestbusSimulation::build_frames::<S, G, E, T>,
            (&clusters, extract, to_span),
            built,
        ),
    ensures
        forall|i: int|
            0 <= i < built@.len() ==> may_build(
                *(#[trigger] built@[i]).triggering,
                outcome_view(built@[i].outcome),
                extract,
                to_span,
            ) && exists|c: int, key: i64|
                0 <= c < clusters@.len()
                    && #[trigger] clusters@[c].can_frame_triggerings@.contains_key(key)
                    && clusters@[c].can_frame_triggerings@[key] == *built@[i].triggering,
        forall|c: int, key: i64|
            0 <= c < clusters@.len() && #[trigger] clusters@[c].can_frame_triggerings@.contains_key(
                key,
            ) ==> exists|i: int|
                0 <= i < built@.len() && *(#[trigger] built@[i]).triggering
                    == clusters@[c].can_frame_triggerings@[key],
        clusters@.len() == 1 ==> built@.len() == clusters@[0].can_frame_triggerings@.len(),
{
    let parts = choose|parts: Seq<Seq<BuiltFrame<'_, S, G>>>| #[trigger]
        may_build_parts(clusters@, parts, extract, to_span) && built@ == parts.flatten();
    assert forall|i: int| 0 <= i < built@.len() implies may_build(
        *(#[trigger] built@[i]).triggering,
        outcome_view(built@[i].outcome),
        extract,
        to_span,
    ) && exists|c: int, key: i64|
        0 <= c < clusters@.len() && #[trigger] clusters@[c].can_frame_triggerings@.contains_key(key)
            && clusters@[c].can_frame_triggerings@[key] == *built@[i].triggering by {
        let (c, j) = whole_is_made_of_parts(parts, i);
        let walk = walk_of_each(*clusters@[c], parts[c], extract, to_span);
        assert(parts[c][j].triggering == walk[j].1);
        assert(clusters@[c].can_frame_triggerings@.contains_key(walk[j].0));
    }
    assert forall|c: int, key: i64|
        0 <= c < clusters@.len() && #[trigger] clusters@[c].can_frame_triggerings@.contains_key(
            key,
        ) implies exists|i: int|
        0 <= i < built@.len() && *(#[trigger] built@[i]).triggering
            == clusters@[c].can_frame_triggerings@[key] by {
        assert(may_build_each(*clusters@[c], parts[c], extract, to_span));
        let walk = walk_of_each(*clusters@[c], parts[c], extract, to_span);
        let j = choose|j: int| 0 <= j < walk.len() && (#[trigger] walk[j]).0 == key;
        assert(parts[c][j].triggering == walk[j].1);
        part_lies_in_the_whole(parts, c, j);
        let i = parts.flatten().index_of(parts[c][j]);
        assert(built@[i] == parts[c][j]);
    }
    if clusters@.len() == 1 {
        assert(may_build_each(*clusters@[0], parts[0], extract, to_span));
        let walk = walk_of_each(*clusters@[0], parts[0], extract, to_span);
        crate::cluster::walk_has_one_step_per_entry(walk, clusters@[0].can_frame_triggerings@);
        parts.lemma_flatten_one_element();
    }
}

proof fn walk_of_each<
    'a,
    S,
    G,
    E: Fn(bool, &Vec<S>, &Vec<G>, i64, bool) -> Vec<u8>,
    T: Fn(Seconds) -> Span,
>(
    cluster: CanCluster<S, G>,
    built: Seq<BuiltFrame<'a, S, G>>,
    extract: E,
    to_span: T,
) -> (walk: Seq<(i64, &'a CanFrameTriggering<S, G>)>)
    requires
        may_build_each(cluster, built, extract, to_span),
    ensures
        is_walk(walk, cluster.can_frame_triggerings@),
        built.len() == walk.len(),
        forall|j: int|
            0 <= j < walk.len() ==> (#[trigger] built[j]).triggering == walk[j].1 && may_build(
                *built[j].triggering,
                outcome_view(built[j].outcome),
                extract,
                to_span,
            ),
{
    choose|walk: Seq<(i64, &'a CanFrameTriggering<S, G>)>| #[trigger]
        is_walk(walk, cluster.can_frame_triggerings@) && built.len() == walk.len() && forall|
            j: int,
        |
            0 <= j < walk.len() ==> (#[trigger] built[j]).triggering == walk[j].1 && may_build(
                *built[j].triggering,
                outcome_view(built[j].outcome),
                extract,
                to_span,
            )
}

/// The outcomes are taken out of what was built one by one.
pub proof fn outcomes_are_taken_out_in_order<S, G>(
    built: Vec<BuiltFrame<'_, S, G>>,
    outcomes: Vec<Result<Option<ScheduledFrame>, String>>,
)
    requires
        call_ensures(outcomes_of::<S, G>, (built,), outcomes),
    ensures
        outcomes@.len() == built@.len(),
        forall|i: int| 0 <= i < built@.len() ==> #[trigger] outcomes@[i] == built@[i].outcome,
{
}

/// The frames of a simulation keep the order of the outcomes, and each is taken once: a simulation
/// of two lists of outcomes has the frames of the first and then those of the second, and one of a
/// single outcome has its frame, if there is one.
pub proof fn simulation_keeps_the_order_of_the_outcomes(
    interface_name: &str,
    left: Vec<Result<Option<ScheduledFrame>, String>>,
    right: Vec<Result<Option<ScheduledFrame>, String>>,
    whole: Vec<Result<Option<ScheduledFrame>, String>>,
    of_left: RestbusSimulation,
    of_right: RestbusSimulation,
    of_whole: RestbusSimulation,
)
    requires
        whole@ == left@ + right@,
        call_ensures(RestbusSimulation::from_outcomes, (interface_name, left), of_left),
        call_ensures(RestbusSimulation::from_outcomes, (interface_name, right), of_right),
        call_ensures(RestbusSimulation::from_outcomes, (interface_name, whole), of_whole),
    ensures
        frame_views(of_whole.spec_scheduled_frames()) == frame_views(of_left.spec_scheduled_frames())
            + frame_views(of_right.spec_scheduled_frames()),
        left@.len() == 1 ==> (left@[0] matches Ok(Some(frame)) ==> frame_views(
            of_left.spec_scheduled_frames(),
        ) == seq![frame@]),
        left@.len() == 1 && !(left@[0] matches Ok(Some(_)))
            ==> of_left.spec_scheduled_frames().len() == 0,
{
    assert(outcome_views(whole@) == outcome_views(left@) + outcome_views(right@));
    let outcome = outcome_views(left@)[0];
    scheduled_frames_keep_their_order(
        outcome_views(left@),
        outcome_views(right@),
        outcome->Ok_0->0,
        outcome,
    );
    if left@.len() == 1 {
        assert(outcome_views(left@) == seq![outcome]);
        assert(outcome == outcome_view(left@[0]));
        assert(frame_views(of_left.spec_scheduled_frames()).len()
            == of_left.spec_scheduled_frames().len());
    }
}

proof fn no_more_frames_than_outcomes(
    outcomes: Seq<Result<Option<ScheduledFrameView>, Seq<char>>>,
)
    ensures
        scheduled(outcomes).len() <= outcomes.len(),
    decreases outcomes.len(),
{
    if outcomes.len() > 0 {
        no_more_frames_than_outcomes(outcomes.drop_last());
    }
}

/// A simulation of clusters has the frames of the first cluster, then those of the next, and so on.
/// Each part has no more frames than its cluster has triggerings.
pub proof fn no_triggering_is_simulated_twice<
    S,
    G,
    E: Fn(bool, &Vec<S>, &Vec<G>, i64, bool) -> Vec<u8> + Copy,
    T: Fn(Seconds) -> Span + Copy,
>(
    interface_name: &str,
    clusters: Vec<&CanCluster<S, G>>,
    extract: E,
    to_span: T,
    simulation: RestbusSimulation,
)
    requires
        call_ensures(
            RestbusSimulation::new::<S, G, E, T>,
            (interface_name, &clusters, extract, to_span),
            simulation,
        ),
    ensures
        exists|parts: Seq<Seq<ScheduledFrameView>>|
            #![trigger parts.flatten()]
            parts.len() == clusters@.len() && (forall|c: int|
                0 <= c < parts.len() ==> (#[trigger] parts[c]).len()
                    <= clusters@[c].can_frame_triggerings@.len()) && parts.flatten() == frame_views(
                simulation.spec_scheduled_frames(),
            ),
{
    let outcomes = choose|outcomes: Seq<Seq<Result<Option<ScheduledFrameView>, Seq<char>>>>|
        #![trigger outcomes.flatten()]
        outcomes.len() == clusters@.len() && (forall|c: int|
            0 <= c < outcomes.len() ==> may_build_cluster(
                *clusters@[c],
                #[trigger] outcomes[c],
                extract,
                to_span,
            )) && frame_views(simulation.spec_scheduled_frames()) == scheduled(outcomes.flatten());
    let parts = outcomes.map_values(
        |part: Seq<Result<Option<ScheduledFrameView>, Seq<char>>>| scheduled(part),
    );
    scheduled_part_by_part(outcomes);
    assert forall|c: int| 0 <= c < parts.len() implies (#[trigger] parts[c]).len()
        <= clusters@[c].can_frame_triggerings@.len() by {
        no_more_frames_than_outcomes(outcomes[c]);
        assert(may_build_cluster(*clusters@[c], outcomes[c], extract, to_span));
        let m = clusters@[c].can_frame_triggerings@;
        let walk = choose|walk: Seq<(i64, &CanFrameTriggering<S, G>)>| #[trigger]
            is_walk(walk, m) && outcomes[c].len() == walk.len();
        crate::cluster::walk_has_one_step_per_entry(walk, m);
    }
}

proof fn scheduled_part_by_part(
    outcomes: Seq<Seq<Result<Option<ScheduledFrameView>, Seq<char>>>>,
)
    ensures
        scheduled(outcomes.flatten()) == outcomes.map_values(
            |part: Seq<Result<Option<ScheduledFrameView>, Seq<char>>>| scheduled(part),
        ).flatten(),
    decreases outcomes.len(),
{
    let parts = outcomes.map_values(
        |part: Seq<Result<Option<ScheduledFrameView>, Seq<char>>>| scheduled(part),
    );
    if outcomes.len() > 0 {
        let rest = outcomes.drop_first();
        scheduled_part_by_part(rest);
        assert(parts.drop_first() == rest.map_values(
            |part: Seq<Result<Option<ScheduledFrameView>, Seq<char>>>| scheduled(part),
        ));
        let any = scheduled(rest.flatten())[0];
        scheduled_frames_keep_their_order(outcomes.first(), rest.flatten(), any, Ok(Some(any)));
        assert(outcomes.flatten() == outcomes.first() + rest.flatten());
    }
}

} // verus!
