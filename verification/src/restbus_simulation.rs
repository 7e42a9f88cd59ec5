//! Restbus simulation over classic frames that are built from one of their PDUs.
use crate::can_frame::{CanFrame, CanFrameView};
use crate::cluster::{walk_entries, CanCluster, CanFrameTriggering, PDUMapping, PDU};
use crate::text::upper_hex_string;
use crate::timing::Seconds;
use vstd::prelude::*;
use vstd::string::*;

verus! {

/// A prepared CAN frame together with its cyclic timing parameters.
#[derive(Clone, Debug)]
pub struct ScheduledFrame {
    pub frame: CanFrame,
    /// Cyclic period in seconds (must be positive for the frame to be sent).
    pub period_secs: Seconds,
    /// Initial offset in seconds before the first transmission.
    pub offset_secs: Seconds,
    /// Human-readable label.
    pub label: String,
}

/// The mathematical content of a [`ScheduledFrame`].
#[verifier::ext_equal]
pub struct ScheduledFrameView {
    pub frame: CanFrameView,
    pub period_secs: Seconds,
    pub offset_secs: Seconds,
    pub label: Seq<char>,
}

impl View for ScheduledFrame {
    type V = ScheduledFrameView;

    open spec fn view(&self) -> ScheduledFrameView {
        ScheduledFrameView {
            frame: self.frame@,
            period_secs: self.period_secs,
            offset_secs: self.offset_secs,
            label: self.label@,
        }
    }
}

/// The first I-PDU from the `k`-th mapping on, or the number of mappings.
pub open spec fn first_ipdu<S, G>(mappings: Seq<PDUMapping<S, G>>, k: int) -> int
    decreases mappings.len() - k,
{
    if 0 <= k < mappings.len() && !(mappings[k].pdu is ISignalIPDU) {
        first_ipdu(mappings, k + 1)
    } else {
        k
    }
}

/// The mapping whose PDU fills the frame: the first I-PDU or, where there is none, the last PDU.
pub open spec fn source_mapping<S, G>(mappings: Seq<PDUMapping<S, G>>) -> Option<int> {
    let first = first_ipdu(mappings, 0);
    if first < mappings.len() {
        Some(first)
    } else if mappings.len() > 0 {
        Some(mappings.len() - 1)
    } else {
        None
    }
}

/// Period and offset that a PDU brings: zero for a network-management PDU.
pub open spec fn pdu_timing<S, G>(pdu: PDU<S, G>) -> (Seconds, Seconds) {
    match pdu {
        PDU::ISignalIPDU(ipdu) => (
            ipdu.cyclic_timing_period_value,
            ipdu.cyclic_timing_offset_value,
        ),
        PDU::NMPDU(_) => (Seconds { bits: 0 }, Seconds { bits: 0 }),
    }
}

/// The label of a frame.
pub open spec fn frame_label(frame_name: Seq<char>, can_id: nat) -> Seq<char> {
    frame_name + "(0x"@ + crate::text::upper_hex(can_id) + ")"@
}

/// The frame under the identifier `can_id` where it is filled with `data`. There is none where no
/// PDU is mapped, or where the identifier is not a 32-bit number.
pub open spec fn prepared<S, G>(
    can_id: i64,
    triggering: CanFrameTriggering<S, G>,
    data: Seq<u8>,
) -> Option<ScheduledFrameView> {
    match source_mapping(triggering.pdu_mappings@) {
        Some(k) if 0 <= can_id <= u32::MAX => {
            let (period_secs, offset_secs) = pdu_timing(triggering.pdu_mappings@[k].pdu);
            Some(
                ScheduledFrameView {
                    frame: crate::can_frame::frame_of(
                        can_id as u32,
                        data,
                        triggering.spec_is_extended(),
                    ),
                    period_secs,
                    offset_secs,
                    label: frame_label(triggering.frame_name@, can_id as nat),
                },
            )
        },
        _ => None,
    }
}

/// All that preparing a frame asks of `extract` can be asked.
pub open spec fn can_prepare<S, G, E: Fn(bool, &Vec<S>, &Vec<G>, i64, bool) -> Vec<u8>>(
    triggering: CanFrameTriggering<S, G>,
    extract: E,
) -> bool {
    forall|k: int|
        0 <= k < triggering.pdu_mappings@.len() && k <= first_ipdu(triggering.pdu_mappings@, 0)
            ==> crate::cluster::can_extract(
            extract,
            #[trigger] triggering.pdu_mappings@[k],
            triggering.frame_length,
        )
}

/// `frame` is what is prepared for some answer of `extract`, which is asked for the initial bytes
/// with the length of the frame.
pub open spec fn may_prepare<S, G, E: Fn(bool, &Vec<S>, &Vec<G>, i64, bool) -> Vec<u8>>(
    can_id: i64,
    triggering: CanFrameTriggering<S, G>,
    frame: Option<ScheduledFrameView>,
    extract: E,
) -> bool {
    match source_mapping(triggering.pdu_mappings@) {
        None => frame is None,
        Some(k) => exists|data: Vec<u8>| #[trigger]
            crate::cluster::may_extract(
                extract,
                triggering.pdu_mappings@[k],
                triggering.frame_length,
                data,
            ) && frame == prepared(can_id, triggering, data@),
    }
}

fn label_text(frame_name: &String, can_id: u32) -> (res: String)
    ensures
        res@ == frame_label(frame_name@, can_id as nat),
{
    let mut text = frame_name.clone();
    text.append("(0x");
    text.append(upper_hex_string(can_id as u64).as_str());
    text.append(")");
    text
}

/// Prepares the frame under the identifier `can_id` where it is filled with `data`.
pub fn prepare_frame<S, G>(
    can_id: i64,
    triggering: &CanFrameTriggering<S, G>,
    data: &Vec<u8>,
) -> (res: Option<ScheduledFrame>)
    ensures
        option_view(res) == prepared(can_id, *triggering, data@),
{
    let mappings = &triggering.pdu_mappings;
    if mappings.len() == 0 {
        return None;
    }
    if can_id < 0 || can_id > u32::MAX as i64 {
        return None;
    }
    let mut k: usize = 0;
    while k < mappings.len() - 1 && !matches!(mappings[k].pdu, PDU::ISignalIPDU(_))
        invariant
            0 < mappings@.len(),
            k < mappings@.len(),
            first_ipdu(mappings@, 0) == first_ipdu(mappings@, k as int),
        decreases mappings@.len() - k,
    {
        k = k + 1;
    }
    assert(source_mapping(mappings@) == Some(k as int)) by {
        reveal_with_fuel(first_ipdu, 2);
    }
    let (period_secs, offset_secs) = match &mappings[k].pdu {
        PDU::ISignalIPDU(ipdu) => (
            ipdu.cyclic_timing_period_value,
            ipdu.cyclic_timing_offset_value,
        ),
        PDU::NMPDU(_) => (Seconds { bits: 0 }, Seconds { bits: 0 }),
    };
    let frame = CanFrame::new(can_id as u32, data.as_slice(), triggering.is_extended());
    let label = label_text(&triggering.frame_name, can_id as u32);
    Some(ScheduledFrame { frame, period_secs, offset_secs, label })
}

proof fn first_ipdu_skips<S, G>(mappings: Seq<PDUMapping<S, G>>, k: int)
    requires
        0 <= k <= mappings.len(),
        forall|j: int| 0 <= j < k ==> !((#[trigger] mappings[j]).pdu is ISignalIPDU),
    ensures
        first_ipdu(mappings, 0) == first_ipdu(mappings, k),
        k <= first_ipdu(mappings, 0) <= mappings.len(),
    decreases k,
{
    first_ipdu_bounds(mappings, k);
    if k > 0 {
        first_ipdu_skips(mappings, k - 1);
    }
}

proof fn first_ipdu_bounds<S, G>(mappings: Seq<PDUMapping<S, G>>, k: int)
    requires
        0 <= k <= mappings.len(),
    ensures
        k <= first_ipdu(mappings, k) <= mappings.len(),
    decreases mappings.len() - k,
{
    if k < mappings.len() {
        first_ipdu_bounds(mappings, k + 1);
    }
}

/// Prepares one frame: the initial bytes come from the first I-PDU or, where there is none, from
/// the last PDU.
fn build_frame<S, G, E: Fn(bool, &Vec<S>, &Vec<G>, i64, bool) -> Vec<u8> + Copy>(
    can_id: i64,
    triggering: &CanFrameTriggering<S, G>,
    extract: E,
) -> (res: Option<ScheduledFrame>)
    requires
        can_prepare(*triggering, extract),
    ensures
        may_prepare(can_id, *triggering, option_view(res), extract),
{
    let mappings = &triggering.pdu_mappings;
    let mut data_bytes: Option<Vec<u8>> = None;
    let mut k: usize = 0;
    while k < mappings.len()
        invariant_except_break
            forall|j: int| 0 <= j < k ==> !((#[trigger] mappings@[j]).pdu is ISignalIPDU),
            k > 0 ==> (data_bytes matches Some(data) && crate::cluster::may_extract(
                extract,
                mappings@[k - 1],
                triggering.frame_length,
                data,
            )),
            k == 0 ==> data_bytes is None,
            first_ipdu(mappings@, 0) == first_ipdu(mappings@, k as int),
        invariant
            mappings == triggering.pdu_mappings,
            k <= mappings@.len(),
            can_prepare(*triggering, extract),
        ensures
            match source_mapping(mappings@) {
                Some(source) => data_bytes matches Some(data) && crate::cluster::may_extract(
                    extract,
                    mappings@[source],
                    triggering.frame_length,
                    data,
                ),
                None => data_bytes is None,
            },
        decreases mappings@.len() - k,
    {
        let mapping = &mappings[k];
        proof {
            first_ipdu_skips(mappings@, k as int);
        }
        data_bytes = Some(mapping.init_values(triggering.frame_length, extract));
        if let PDU::ISignalIPDU(_) = &mapping.pdu {
            break;
        }
        k = k + 1;
        proof {
            first_ipdu_skips(mappings@, k as int);
        }
    }
    match data_bytes {
        Some(data) => prepare_frame(can_id, triggering, &data),
        None => None,
    }
}

/// The mathematical content of a frame that may be missing.
pub open spec fn option_view(frame: Option<ScheduledFrame>) -> Option<ScheduledFrameView> {
    match frame {
        Some(frame) => Some(frame@),
        None => None,
    }
}

/// The mathematical contents of a list of frames.
pub open spec fn frame_views(frames: Seq<ScheduledFrame>) -> Seq<ScheduledFrameView> {
    frames.map_values(|frame: ScheduledFrame| frame@)
}

/// The frames that are there, in their order.
pub open spec fn present(frames: Seq<Option<ScheduledFrameView>>) -> Seq<ScheduledFrameView>
    decreases frames.len(),
{
    if frames.len() == 0 {
        Seq::empty()
    } else {
        match frames.last() {
            Some(frame) => present(frames.drop_last()).push(frame),
            None => present(frames.drop_last()),
        }
    }
}

/// The frames that are there are kept, and no others.
pub proof fn present_holds_the_frames(
    frames: Seq<Option<ScheduledFrameView>>,
    frame: ScheduledFrameView,
)
    ensures
        present(frames).contains(frame) <==> frames.contains(Some(frame)),
    decreases frames.len(),
{
    if frames.len() > 0 {
        let front = frames.drop_last();
        let last = frames.last();
        present_holds_the_frames(front, frame);
        assert(frames == front.push(last));
        vstd::seq_lib::lemma_seq_contains_after_push(front, last, Some(frame));
        if let Some(kept) = last {
            vstd::seq_lib::lemma_seq_contains_after_push(present(front), kept, frame);
        }
    }
}

/// All that preparing the frames of a cluster asks of `extract` can be asked.
pub open spec fn can_prepare_cluster<S, G, E: Fn(bool, &Vec<S>, &Vec<G>, i64, bool) -> Vec<u8>>(
    cluster: CanCluster<S, G>,
    extract: E,
) -> bool {
    forall|key: i64| #[trigger]
        cluster.can_frame_triggerings@.contains_key(key) ==> can_prepare(
            cluster.can_frame_triggerings@[key],
            extract,
        )
}

/// `frames` are those of a cluster, taken once each in some order, for some answers of `extract`.
/// Each is sent under the identifier that it has in the map.
pub open spec fn may_prepare_cluster<S, G, E: Fn(bool, &Vec<S>, &Vec<G>, i64, bool) -> Vec<u8>>(
    cluster: CanCluster<S, G>,
    frames: Seq<ScheduledFrameView>,
    extract: E,
) -> bool {
    exists|walk: Seq<(i64, &CanFrameTriggering<S, G>)>, all: Seq<Option<ScheduledFrameView>>|
        #![trigger crate::cluster::is_walk(walk, cluster.can_frame_triggerings@), present(all)]
        crate::cluster::is_walk(walk, cluster.can_frame_triggerings@) && all.len() == walk.len()
            && (forall|j: int|
            0 <= j < walk.len() ==> may_prepare(
                walk[j].0,
                *walk[j].1,
                #[trigger] all[j],
                extract,
            )) && frames == present(all)
}

/// Builds the list of [`ScheduledFrame`]s of a [`CanCluster`].
///
/// For each triggering this looks at the first PDU mapping that is an I-PDU, which carries cyclic
/// timing information. The initial data bytes are those that `extract` gives.
pub fn build_scheduled_frames<
    S,
    G,
    E: Fn(bool, &Vec<S>, &Vec<G>, i64, bool) -> Vec<u8> + Copy,
>(cluster: &CanCluster<S, G>, extract: E) -> (frames: Vec<ScheduledFrame>)
    requires
        can_prepare_cluster(*cluster, extract),
    ensures
        may_prepare_cluster(*cluster, frame_views(frames@), extract),
{
    let walk = walk_entries(&cluster.can_frame_triggerings);
    let mut frames: Vec<ScheduledFrame> = Vec::new();
    let ghost mut all: Seq<Option<ScheduledFrameView>> = Seq::empty();
    assert(frame_views(frames@) == present(all));
    let mut j: usize = 0;
    while j < walk.len()
        invariant
            j <= walk@.len(),
            crate::cluster::is_walk(walk@, cluster.can_frame_triggerings@),
            can_prepare_cluster(*cluster, extract),
            all.len() == j,
            forall|i: int|
                0 <= i < j ==> may_prepare(
                    walk@[i].0,
                    *walk@[i].1,
                    #[trigger] all[i],
                    extract,
                ),
            frame_views(frames@) == present(all),
        decreases walk@.len() - j,
    {
        let (can_id, triggering) = walk[j];
        assert(cluster.can_frame_triggerings@.contains_key(walk@[j as int].0));
        let prepared_frame = build_frame(can_id, triggering, extract);
        let ghost before = frames@;
        proof {
            let view = option_view(prepared_frame);
            assert(all.push(view).drop_last() == all);
            all = all.push(view);
        }
        if let Some(frame) = prepared_frame {
            frames.push(frame);
            assert(frame_views(frames@) == frame_views(before).push(frame@));
        }
        j = j + 1;
    }
    frames
}

/// Without an I-PDU a frame has no cyclic timing, so that it is never sent.
pub proof fn frame_without_ipdu_is_not_sent<S, G>(
    can_id: i64,
    triggering: CanFrameTriggering<S, G>,
    data: Seq<u8>,
)
    requires
        forall|k: int|
            0 <= k < triggering.pdu_mappings@.len() ==> (
            #[trigger] triggering.pdu_mappings@[k]).pdu is NMPDU,
    ensures
        prepared(can_id, triggering, data) matches Some(frame) ==> !is_sent(frame),
{
    first_ipdu_bounds(triggering.pdu_mappings@, 0);
}

/// The `k`-th mapping fills the frame and gives its timing where it is the first I-PDU.
pub proof fn first_ipdu_fills_the_frame<S, G>(mappings: Seq<PDUMapping<S, G>>, k: int)
    requires
        0 <= k < mappings.len(),
        mappings[k].pdu is ISignalIPDU,
        forall|j: int| 0 <= j < k ==> (#[trigger] mappings[j]).pdu is NMPDU,
    ensures
        source_mapping(mappings) == Some(k),
{
    first_ipdu_skips(mappings, k);
}

/// Every frame whose identifier is a 32-bit number and that carries a PDU is prepared.
pub proof fn frame_is_prepared_unless_empty_or_out_of_range<S, G>(
    can_id: i64,
    triggering: CanFrameTriggering<S, G>,
    data: Seq<u8>,
)
    ensures
        prepared(can_id, triggering, data) is Some <==> triggering.pdu_mappings@.len() > 0
            && 0 <= can_id <= u32::MAX,
{
}

/// The frame is sent: its period is positive.
pub open spec fn is_sent(frame: ScheduledFrameView) -> bool {
    frame.period_secs.spec_is_positive()
}

/// The frames of a cluster, parted into those that are sent and those that are not.
#[derive(Debug)]
pub struct ClusterPlan {
    /// The frames to send.
    pub frames: Vec<ScheduledFrame>,
    /// The frames without a positive period.
    pub skipped: Vec<ScheduledFrame>,
}

impl ClusterPlan {
    /// The plan is that for the given prepared frames.
    pub open spec fn is_for(self, frames: Seq<ScheduledFrameView>) -> bool {
        &&& frame_views(self.frames@) == frames.filter(
            |frame: ScheduledFrameView| is_sent(frame),
        )
        &&& frame_views(self.skipped@) == frames.filter(
            |frame: ScheduledFrameView| !is_sent(frame),
        )
    }

    /// Parts the frames by whether they are sent.
    pub fn new(frames: Vec<ScheduledFrame>) -> (res: Self)
        ensures
            res.is_for(frame_views(frames@)),
    {
        let ghost all = frames@;
        let ghost views = frame_views(frames@);
        let mut sent: Vec<ScheduledFrame> = Vec::new();
        let mut skipped: Vec<ScheduledFrame> = Vec::new();
        for frame in it: frames
            invariant
                it.seq() == all,
                views == frame_views(all),
                frame_views(sent@) == views.take(it.index() as int).filter(
                    |frame: ScheduledFrameView| is_sent(frame),
                ),
                frame_views(skipped@) == views.take(it.index() as int).filter(
                    |frame: ScheduledFrameView| !is_sent(frame),
                ),
        {
            let ghost k = it.index() as int;
            proof {
                assert(views.take(k + 1) == views.take(k).push(views[k]));
                broadcast use vstd::seq::Seq::lemma_filter_push;
            }
            if frame.period_secs.is_positive() {
                let ghost before = sent@;
                sent.push(frame);
                assert(frame_views(sent@) == frame_views(before).push(frame@));
            } else {
                let ghost before = skipped@;
                skipped.push(frame);
                assert(frame_views(skipped@) == frame_views(before).push(frame@));
            }
        }
        assert(views.take(all.len() as int) == views);
        ClusterPlan { frames: sent, skipped }
    }
}

/// Why no frame is prepared for a triggering.
#[derive(Clone, Copy, Debug, PartialEq, Eq, Structural)]
pub enum SkipReason {
    /// No PDU is mapped into the frame.
    NoPdu,
    /// The identifier is not a 32-bit number.
    IdOutOfRange,
}

/// Tells why no frame is prepared for a triggering, if none is.
pub fn skip_reason<S, G>(can_id: i64, triggering: &CanFrameTriggering<S, G>) -> (res: Option<
    SkipReason,
>)
    ensures
        res == (if triggering.pdu_mappings@.len() == 0 {
            Some(SkipReason::NoPdu)
        } else if !(0 <= can_id <= u32::MAX) {
            Some(SkipReason::IdOutOfRange)
        } else {
            None
        }),
        forall|data: Seq<u8>| res is None <==> #[trigger] prepared(can_id, *triggering, data) is Some,
{
    if triggering.pdu_mappings.len() == 0 {
        Some(SkipReason::NoPdu)
    } else if can_id < 0 || can_id > u32::MAX as i64 {
        Some(SkipReason::IdOutOfRange)
    } else {
        None
    }
}

/// The restbus simulation engine.
///
/// Replays the frames of CAN clusters on a CAN interface, respecting cyclic timing periods and
/// initial signal values.
#[derive(Clone, Copy, Debug)]
pub struct RestbusSimulation;

impl RestbusSimulation {
    /// Plans what is sent for each of the clusters.
    pub fn plan<S, G, E: Fn(bool, &Vec<S>, &Vec<G>, i64, bool) -> Vec<u8> + Copy>(
        clusters: &Vec<&CanCluster<S, G>>,
        extract: E,
    ) -> (plans: Vec<ClusterPlan>)
        requires
            forall|c: int|
                0 <= c < clusters@.len() ==> can_prepare_cluster(*#[trigger] clusters@[c], extract),
        ensures
            plans@.len() == clusters@.len(),
            forall|c: int|
                0 <= c < clusters@.len() ==> may_plan(*clusters@[c], #[trigger] plans@[c], extract),
    {
        let mut plans: Vec<ClusterPlan> = Vec::new();
        let mut c: usize = 0;
        while c < clusters.len()
            invariant
                c <= clusters@.len(),
                plans@.len() == c,
                forall|i: int|
                    0 <= i < clusters@.len() ==> can_prepare_cluster(
                        *#[trigger] clusters@[i],
                        extract,
                    ),
                forall|i: int|
                    0 <= i < c ==> may_plan(*clusters@[i], #[trigger] plans@[i], extract),
            decreases clusters@.len() - c,
        {
            let frames = build_scheduled_frames(clusters[c], extract);
            let plan = ClusterPlan::new(frames);
            plans.push(plan);
            c = c + 1;
        }
        plans
    }
}

/// The plan is that for the frames of the cluster, for some answers of `extract`.
pub open spec fn may_plan<S, G, E: Fn(bool, &Vec<S>, &Vec<G>, i64, bool) -> Vec<u8>>(
    cluster: CanCluster<S, G>,
    plan: ClusterPlan,
    extract: E,
) -> bool {
    exists|frames: Seq<ScheduledFrameView>| #[trigger]
        may_prepare_cluster(cluster, frames, extract) && plan.is_for(frames)
}

/// Configuration for the restbus simulation.
#[derive(Clone, Debug)]
pub struct RestbusSimulationConfig {
    /// Name of the SocketCAN interface to send frames on (e.g. "vcan0").
    pub interface_name: String,
}

impl Default for RestbusSimulationConfig {
    fn default() -> (res: Self)
        ensures
            res.interface_name@ == "vcan0"@,
    {
        RestbusSimulationConfig { interface_name: "vcan0".to_owned() }
    }
}

/// A frame is prepared if and only if a PDU is mapped into it and its identifier is a 32-bit number.
/// It is a classic frame under that identifier, marked as one of 29 bits if and only if the
/// addressing mode says so. It carries the data that it is filled with, whole where that has at most
/// eight bytes and its first eight bytes otherwise, and is labelled with its name and identifier.
pub proof fn prepared_frame_carries_the_data<S, G>(
    can_id: i64,
    triggering: CanFrameTriggering<S, G>,
    data: Vec<u8>,
    res: Option<ScheduledFrame>,
)
    requires
        call_ensures(prepare_frame::<S, G>, (can_id, &triggering, &data), res),
    ensures
        res is Some <==> triggering.pdu_mappings@.len() > 0 && 0 <= can_id <= 0xFFFF_FFFF,
        res matches Some(scheduled) ==> {
            let frame = scheduled.frame;
            &&& triggering.addressing_mode@ != "Extended"@ ==> frame.can_id == can_id
            &&& triggering.addressing_mode@ == "Extended"@ ==> frame.can_id == can_id as u32
                | 0x8000_0000
            &&& data@.len() <= 8 ==> frame.len == data@.len() && frame.data@.take(
                data@.len() as int,
            ) == data@
            &&& data@.len() > 8 ==> frame.len == 8 && frame.data@ == data@.take(8)
            &&& forall|i: int| data@.len() <= i < 8 ==> #[trigger] frame.data@[i] == 0
            &&& frame.pad == 0 && frame.res0 == 0 && frame.res1 == 0
            &&& data@.len() <= 8 ==> frame@.payload() == data@
            &&& data@.len() > 8 ==> frame@.payload() == data@.take(8)
            &&& scheduled.label@ == triggering.frame_name@ + "(0x"@ + crate::text::upper_hex(
                can_id as nat,
            ) + ")"@
        },
{
}

/// The payload of a prepared frame is the data, as far as eight bytes reach.
pub proof fn prepared_payload_is_the_data<S, G>(
    can_id: i64,
    triggering: CanFrameTriggering<S, G>,
    data: Seq<u8>,
)
    ensures
        prepared(can_id, triggering, data) matches Some(scheduled) ==> {
            &&& data.len() <= 8 ==> scheduled.frame.payload() == data
            &&& data.len() > 8 ==> scheduled.frame.payload() == data.take(8)
        },
{
    crate::can_frame::payload_is_data_up_to_eight_bytes(
        can_id as u32,
        data,
        triggering.spec_is_extended(),
    );
}

/// A prepared frame has period and offset of its first I-PDU, and none where it carries no I-PDU.
pub proof fn prepared_frame_has_the_timing_of_its_first_ipdu<S, G>(
    can_id: i64,
    triggering: CanFrameTriggering<S, G>,
    data: Vec<u8>,
    scheduled: ScheduledFrame,
    k: int,
)
    requires
        call_ensures(prepare_frame::<S, G>, (can_id, &triggering, &data), Some(scheduled)),
        0 <= k <= triggering.pdu_mappings@.len(),
        forall|j: int| 0 <= j < k ==> (#[trigger] triggering.pdu_mappings@[j]).pdu is NMPDU,
        k < triggering.pdu_mappings@.len() ==> triggering.pdu_mappings@[k].pdu is ISignalIPDU,
    ensures
        k < triggering.pdu_mappings@.len() ==> (
        triggering.pdu_mappings@[k].pdu matches PDU::ISignalIPDU(ipdu) && scheduled.period_secs
            == ipdu.cyclic_timing_period_value && scheduled.offset_secs
            == ipdu.cyclic_timing_offset_value),
        k == triggering.pdu_mappings@.len() ==> scheduled.period_secs.bits == 0
            && scheduled.offset_secs.bits == 0,
{
    first_ipdu_skips(triggering.pdu_mappings@, k);
    if k == triggering.pdu_mappings@.len() {
        assert(triggering.pdu_mappings@[k - 1].pdu is NMPDU);
    }
}

/// The mapped PDU gives the initial bytes of its frame: it is the first I-PDU, or the last PDU where
/// none is an I-PDU.
pub open spec fn gives_the_bytes<S, G>(mappings: Seq<PDUMapping<S, G>>, k: int) -> bool {
    &&& 0 <= k < mappings.len()
    &&& forall|j: int| 0 <= j < k ==> (#[trigger] mappings[j]).pdu is NMPDU
    &&& mappings[k].pdu is ISignalIPDU || k == mappings.len() - 1
}

/// What is prepared for a triggering is filled with the initial bytes of its first I-PDU, or of its
/// last PDU where none is an I-PDU. They are asked for with the length of the frame.
pub proof fn frame_is_filled_from_its_first_ipdu<
    S,
    G,
    E: Fn(bool, &Vec<S>, &Vec<G>, i64, bool) -> Vec<u8>,
>(
    can_id: i64,
    triggering: CanFrameTriggering<S, G>,
    frame: Option<ScheduledFrameView>,
    extract: E,
)
    requires
        may_prepare(can_id, triggering, frame, extract),
    ensures
        frame is Some <==> triggering.pdu_mappings@.len() > 0 && 0 <= can_id <= 0xFFFF_FFFF,
        frame matches Some(scheduled) ==> exists|k: int, data: Vec<u8>|
            #![trigger gives_the_bytes(triggering.pdu_mappings@, k), data@]
            gives_the_bytes(triggering.pdu_mappings@, k) && crate::cluster::may_extract(
                extract,
                triggering.pdu_mappings@[k],
                triggering.frame_length,
                data,
            ) && (data@.len() <= 8 ==> scheduled.frame.payload() == data@) && (data@.len() > 8
                ==> scheduled.frame.payload() == data@.take(8)) && (
            triggering.pdu_mappings@[k].pdu matches PDU::ISignalIPDU(ipdu) ==> scheduled.period_secs
                == ipdu.cyclic_timing_period_value && scheduled.offset_secs
                == ipdu.cyclic_timing_offset_value) && (triggering.pdu_mappings@[k].pdu is NMPDU
                ==> scheduled.period_secs.bits == 0),
{
    let mappings = triggering.pdu_mappings@;
    if mappings.len() > 0 {
        let k = source_mapping(mappings)->0;
        source_gives_the_bytes(mappings);
        let data = choose|data: Vec<u8>| #[trigger]
            crate::cluster::may_extract(extract, mappings[k], triggering.frame_length, data)
                && frame == prepared(can_id, triggering, data@);
        prepared_payload_is_the_data(can_id, triggering, data@);
        assert(gives_the_bytes(mappings, k));
        assert(data@.len() >= 0);
    } else {
        first_ipdu_bounds(mappings, 0);
    }
}

proof fn source_gives_the_bytes<S, G>(mappings: Seq<PDUMapping<S, G>>)
    requires
        mappings.len() > 0,
    ensures
        source_mapping(mappings) matches Some(k) && gives_the_bytes(mappings, k),
{
    none_before_the_first_ipdu(mappings, 0);
    first_ipdu_bounds(mappings, 0);
}

proof fn none_before_the_first_ipdu<S, G>(mappings: Seq<PDUMapping<S, G>>, k: int)
    requires
        0 <= k <= mappings.len(),
    ensures
        forall|j: int|
            k <= j < first_ipdu(mappings, k) ==> (#[trigger] mappings[j]).pdu is NMPDU,
        first_ipdu(mappings, k) < mappings.len() ==> mappings[first_ipdu(
            mappings,
            k,
        )].pdu is ISignalIPDU,
    decreases mappings.len() - k,
{
    first_ipdu_bounds(mappings, k);
    if k < mappings.len() {
        none_before_the_first_ipdu(mappings, k + 1);
    }
}

/// The frames that are there in two lists are those of the first and then those of the second; in a
/// list of one, it is that one.
pub proof fn present_frames_keep_their_order(
    left: Seq<Option<ScheduledFrameView>>,
    right: Seq<Option<ScheduledFrameView>>,
    frame: ScheduledFrameView,
)
    ensures
        present(left + right) == present(left) + present(right),
        present(seq![Some(frame)]) == seq![frame],
        present(seq![None::<ScheduledFrameView>]) == Seq::<ScheduledFrameView>::empty(),
    decreases right.len(),
{
    reveal_with_fuel(present, 2);
    assert(seq![Some(frame)].drop_last() == Seq::<Option<ScheduledFrameView>>::empty());
    assert(seq![None::<ScheduledFrameView>].drop_last() == Seq::<
        Option<ScheduledFrameView>,
    >::empty());
    assert(present(seq![Some(frame)]) == seq![frame]);
    if right.len() == 0 {
        assert(left + right == left);
    } else {
        present_frames_keep_their_order(left, right.drop_last(), frame);
        assert((left + right).drop_last() == left + right.drop_last());
        assert((left + right).last() == right.last());
    }
}

proof fn all_present(all: Seq<Option<ScheduledFrameView>>)
    ensures
        present(all).len() <= all.len(),
        (forall|j: int| 0 <= j < all.len() ==> #[trigger] all[j] is Some) ==> present(all).len()
            == all.len(),
    decreases all.len(),
{
    if all.len() > 0 {
        all_present(all.drop_last());
        assert(all.last() == all[all.len() - 1]);
        if forall|j: int| 0 <= j < all.len() ==> #[trigger] all[j] is Some {
            assert forall|j: int| 0 <= j < all.drop_last().len() implies #[trigger] all.drop_last()[j]
                is Some by {
                assert(all[j] is Some);
            }
        }
    }
}

/// The frames of a cluster are those of its triggerings. Every triggering into which a PDU is mapped
/// and whose identifier is a 32-bit number has a frame, which is sent under the identifier that the
/// triggering has in the cluster, and every frame is that of such a triggering. There are no more
/// frames than triggerings, and as many where each of them has a frame.
pub proof fn cluster_frames_are_those_of_its_triggerings<
    S,
    G,
    E: Fn(bool, &Vec<S>, &Vec<G>, i64, bool) -> Vec<u8> + Copy,
>(cluster: CanCluster<S, G>, extract: E, frames: Vec<ScheduledFrame>)
    requires
        call_ensures(build_scheduled_frames::<S, G, E>, (&cluster, extract), frames),
    ensures
        forall|key: i64| #[trigger]
            cluster.can_frame_triggerings@.contains_key(key)
                && cluster.can_frame_triggerings@[key].pdu_mappings@.len() > 0 && 0 <= key
                <= 0xFFFF_FFFF ==> exists|i: int|
                0 <= i < frames@.len() && may_prepare(
                    key,
                    cluster.can_frame_triggerings@[key],
                    Some((#[trigger] frames@[i])@),
                    extract,
                ),
        forall|i: int|
            0 <= i < frames@.len() ==> exists|key: i64| #[trigger]
                cluster.can_frame_triggerings@.contains_key(key) && may_prepare(
                    key,
                    cluster.can_frame_triggerings@[key],
                    Some((#[trigger] frames@[i])@),
                    extract,
                ),
        frames@.len() <= cluster.can_frame_triggerings@.len(),
        (forall|key: i64| #[trigger]
            cluster.can_frame_triggerings@.contains_key(key)
                ==> cluster.can_frame_triggerings@[key].pdu_mappings@.len() > 0 && 0 <= key
                <= 0xFFFF_FFFF) ==> frames@.len() == cluster.can_frame_triggerings@.len(),
{
    let m = cluster.can_frame_triggerings@;
    let views = frame_views(frames@);
    assert(may_prepare_cluster(cluster, views, extract));
    let (walk, all) = choose|
        walk: Seq<(i64, &CanFrameTriggering<S, G>)>,
        all: Seq<Option<ScheduledFrameView>>,
    |
        #![trigger crate::cluster::is_walk(walk, cluster.can_frame_triggerings@), present(all)]
        crate::cluster::is_walk(walk, cluster.can_frame_triggerings@) && all.len() == walk.len()
            && (forall|j: int|
            0 <= j < walk.len() ==> may_prepare(
                walk[j].0,
                *walk[j].1,
                #[trigger] all[j],
                extract,
            )) && views == present(all);
    crate::cluster::walk_has_one_step_per_entry(walk, m);
    all_present(all);
    assert(views.len() == frames@.len());
    assert forall|key: i64| #[trigger]
        m.contains_key(key) && m[key].pdu_mappings@.len() > 0 && 0 <= key
            <= 0xFFFF_FFFF implies exists|i: int|
        0 <= i < frames@.len() && may_prepare(
            key,
            m[key],
            Some((#[trigger] frames@[i])@),
            extract,
        ) by {
        let j = choose|j: int| 0 <= j < walk.len() && (#[trigger] walk[j]).0 == key;
        assert(may_prepare(walk[j].0, *walk[j].1, all[j], extract));
        frame_is_filled_from_its_first_ipdu(key, m[key], all[j], extract);
        let frame = all[j]->0;
        assert(all.contains(Some(frame)));
        present_holds_the_frames(all, frame);
        let i = views.index_of(frame);
        assert(frames@[i]@ == views[i]);
    }
    assert forall|i: int| 0 <= i < frames@.len() implies exists|key: i64| #[trigger]
        m.contains_key(key) && may_prepare(
            key,
            m[key],
            Some((#[trigger] frames@[i])@),
            extract,
        ) by {
        let frame = views[i];
        assert(views.contains(frame));
        present_holds_the_frames(all, frame);
        let j = all.index_of(Some(frame));
        assert(may_prepare(walk[j].0, *walk[j].1, all[j], extract));
        assert(m.contains_key(walk[j].0));
    }
    if forall|key: i64| #[trigger]
        m.contains_key(key) ==> m[key].pdu_mappings@.len() > 0 && 0 <= key <= 0xFFFF_FFFF {
        assert forall|j: int| 0 <= j < all.len() implies #[trigger] all[j] is Some by {
            assert(may_prepare(walk[j].0, *walk[j].1, all[j], extract));
            assert(m.contains_key(walk[j].0));
            frame_is_filled_from_its_first_ipdu(walk[j].0, *walk[j].1, all[j], extract);
        }
    }
}

/// The frames of a cluster are sent, in their order, if and only if their period is positive. The
/// others are told apart from them, and no frame is lost.
pub proof fn frames_with_a_positive_period_are_sent(
    frames: Vec<ScheduledFrame>,
    plan: ClusterPlan,
)
    requires
        call_ensures(ClusterPlan::new, (frames,), plan),
    ensures
        frame_views(plan.frames@) == frame_views(frames@).filter(
            |frame: ScheduledFrameView|
                0 < frame.period_secs.bits <= 0x7FF0_0000_0000_0000,
        ),
        frame_views(plan.skipped@) == frame_views(frames@).filter(
            |frame: ScheduledFrameView|
                !(0 < frame.period_secs.bits <= 0x7FF0_0000_0000_0000),
        ),
        plan.frames@.len() + plan.skipped@.len() == frames@.len(),
{
    let sent = |frame: ScheduledFrameView| is_sent(frame);
    let unsent = |frame: ScheduledFrameView| !is_sent(frame);
    assert(sent =~= (|frame: ScheduledFrameView|
        0 < frame.period_secs.bits <= 0x7FF0_0000_0000_0000));
    assert(unsent =~= (|frame: ScheduledFrameView|
        !(0 < frame.period_secs.bits <= 0x7FF0_0000_0000_0000)));
    parts_add_up(frame_views(frames@));
    assert(frame_views(plan.frames@).len() == plan.frames@.len());
    assert(frame_views(plan.skipped@).len() == plan.skipped@.len());
    assert(frame_views(frames@).len() == frames@.len());
}

proof fn parts_add_up(views: Seq<ScheduledFrameView>)
    ensures
        views.filter(|frame: ScheduledFrameView| is_sent(frame)).len() + views.filter(
            |frame: ScheduledFrameView| !is_sent(frame),
        ).len() == views.len(),
    decreases views.len(),
{
    reveal(Seq::filter);
    if views.len() > 0 {
        parts_add_up(views.drop_last());
    }
}

/// There is one plan for each cluster, in the order of the clusters, and it is for the frames of
/// that cluster.
pub proof fn every_cluster_is_planned<
    S,
    G,
    E: Fn(bool, &Vec<S>, &Vec<G>, i64, bool) -> Vec<u8> + Copy,
>(clusters: Vec<&CanCluster<S, G>>, extract: E, plans: Vec<ClusterPlan>, c: int)
    requires
        call_ensures(RestbusSimulation::plan::<S, G, E>, (&clusters, extract), plans),
        0 <= c < clusters@.len(),
    ensures
        plans@.len() == clusters@.len(),
        exists|frames: Seq<ScheduledFrameView>| #[trigger]
            may_prepare_cluster(*clusters@[c], frames, extract) && frame_views(plans@[c].frames@)
                == frames.filter(
                |frame: ScheduledFrameView|
                    0 < frame.period_secs.bits <= 0x7FF0_0000_0000_0000,
            ) && plans@[c].frames@.len() + plans@[c].skipped@.len() == frames.len(),
{
    assert(may_plan(*clusters@[c], plans@[c], extract));
    let frames = choose|frames: Seq<ScheduledFrameView>| #[trigger]
        may_prepare_cluster(*clusters@[c], frames, extract) && plans@[c].is_for(frames);
    let sent = |frame: ScheduledFrameView| is_sent(frame);
    assert(sent =~= (|frame: ScheduledFrameView|
        0 < frame.period_secs.bits <= 0x7FF0_0000_0000_0000));
    parts_add_up(frames);
    assert(frame_views(plans@[c].frames@).len() == plans@[c].frames@.len());
    assert(frame_views(plans@[c].skipped@).len() == plans@[c].skipped@.len());
}

/// No reason is given if and only if a frame is prepared. A missing PDU is told before an identifier
/// that is not a 32-bit number.
pub proof fn reason_is_given_where_no_frame_is_prepared<S, G>(
    can_id: i64,
    triggering: CanFrameTriggering<S, G>,
    data: Vec<u8>,
    reason: Option<SkipReason>,
    frame: Option<ScheduledFrame>,
)
    requires
        call_ensures(skip_reason::<S, G>, (can_id, &triggering), reason),
        call_ensures(prepare_frame::<S, G>, (can_id, &triggering, &data), frame),
    ensures
        reason is Some <==> frame is None,
        reason matches Some(SkipReason::NoPdu) <==> triggering.pdu_mappings@.len() == 0,
        reason matches Some(SkipReason::IdOutOfRange) <==> triggering.pdu_mappings@.len() > 0 && !(0
            <= can_id <= 0xFFFF_FFFF),
{
}

} // verus!
