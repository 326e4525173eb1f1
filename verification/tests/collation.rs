//! The collation pipeline and the candidates that it publishes.

use simplex::assoc::AssocMap;
use simplex::block::{
    BlockSourceInfo, CandidateHashInput, CandidateParentInfo, RawCandidateId, SlotIndex,
    ValidatorIndex, WindowIndex,
};
use simplex::block_desc::{BlockDescError, GeneratedBlockDesc, PayloadHash, PayloadInfo};
use simplex::candidate::{CandidateData, WireCandidateId};
use simplex::candidate_book::{CandidateBook, ReceivedCandidate};
use simplex::chain::{BlockIdExt, ShardIdent, UInt256, MASTERCHAIN_ID, SHARD_FULL};
use simplex::collation::{
    collation_deadlines, CollatedBlock, CollationAction, CollationBreach, CollationDeadlineContext,
    CollationInputs, CollationOptions, CollationPreparation, CollationResult, ForgetReason,
    GenerateRequest, LocalChainHead, PrecollatedBlock, PrevBlocks, PublishRequest,
};
use simplex::collation_controller::CollationController;
use simplex::consensus_controller::{ConsensusController, KeySet};
use simplex::session_description::SessionDescription;
use simplex::time::{TimePoint, TimeSpan};

const SEC: u128 = 1_000_000_000;

fn hash(first: u64) -> UInt256 {
    UInt256 { w0: first, w1: 0, w2: 0, w3: 0 }
}

fn shard(workchain_id: i32) -> ShardIdent {
    ShardIdent { workchain_id, prefix: SHARD_FULL }
}

fn block(seq_no: u32) -> BlockIdExt {
    BlockIdExt {
        shard_id: shard(0),
        seq_no,
        root_hash: hash(100 + seq_no as u64),
        file_hash: hash(200 + seq_no as u64),
    }
}

fn at(secs: u128) -> TimePoint {
    TimePoint { nanos: (secs * SEC) as i128 }
}

fn secs(n: u128) -> TimeSpan {
    TimeSpan { nanos: n * SEC }
}

fn info(slot: u32) -> CandidateParentInfo {
    CandidateParentInfo::new(SlotIndex(slot), hash(slot as u64))
}

/// Surroundings of the pipeline: one leader, windows of four slots.
struct World {
    now: TimePoint,
    first_non_progressed: u32,
    window: u32,
    available: AssocMap<SlotIndex, Option<CandidateParentInfo>>,
    book: CandidateBook,
    consensus: ConsensusController,
    generated: KeySet<SlotIndex>,
    pending: KeySet<SlotIndex>,
    session_start: Vec<BlockIdExt>,
    desc: SessionDescription,
    opts: CollationOptions,
}

impl World {
    fn new(workchain_id: i32) -> World {
        World {
            now: at(100),
            first_non_progressed: 0,
            window: 0,
            available: AssocMap::new(),
            book: CandidateBook::new(),
            consensus: ConsensusController::new(None, None, None, 0),
            generated: AssocMap::new(),
            pending: AssocMap::new(),
            session_start: vec![block(4)],
            desc: SessionDescription::new(
                vec![1], 1, vec![ValidatorIndex(0)], ValidatorIndex(0), shard(workchain_id), 4, 5,
            ).unwrap(),
            opts: CollationOptions {
                target_rate: secs(1),
                no_empty_blocks_on_error_timeout: secs(10),
                empty_block_mc_lag_threshold: None,
                max_block_size: 1000,
                max_collated_data_size: 1000,
            },
        }
    }

    fn inputs(&self) -> CollationInputs<'_> {
        CollationInputs {
            now: self.now,
            first_non_progressed: SlotIndex(self.first_non_progressed),
            window: WindowIndex(self.window),
            available: &self.available,
            book: &self.book,
            consensus: &self.consensus,
            generated: &self.generated,
            pending: &self.pending,
            session_start: &self.session_start,
            desc: &self.desc,
            opts: &self.opts,
        }
    }

    /// Marks finalization as just seen.
    fn finalize(&mut self, seqno: u32) {
        self.consensus.set_last_consensus_finalized_seqno(Some(seqno));
    }
}

fn receive(book: &mut CandidateBook, slot: u32, seq_no: u32, gen_utime_ms: Option<u64>) {
    book.insert_received(info(slot).to_id(), ReceivedCandidate {
        slot: SlotIndex(slot),
        source_idx: ValidatorIndex(0),
        candidate_hash_data_bytes: vec![1],
        block_id: block(seq_no),
        root_hash: hash(1),
        file_hash: hash(2),
        data: vec![1],
        collated_data: vec![],
        gen_utime_ms,
        receive_time: at(1),
        is_empty: false,
        parent_id: None,
        before_split: None,
    });
}

fn collated(seq_no: u32) -> CollatedBlock {
    CollatedBlock { id: block(seq_no), data: vec![1, 2], collated_data: vec![3] }
}

fn generated(actions: &[CollationAction]) -> Option<GenerateRequest> {
    actions.iter().find_map(|a| match a {
        CollationAction::Generate(g) => Some(*g),
        _ => None,
    })
}

/// A finished candidate with the given hash.
fn built(slot: u32, first: u64, seq_no: u32, gen_utime_ms: Option<u64>) -> GeneratedBlockDesc {
    GeneratedBlockDesc {
        block_id_ext: block(seq_no),
        block_candidate: None,
        candidate_hash: hash(first),
        tl_candidate_data: CandidateData::Block {
            slot: slot as i32, candidate: vec![1], parent: None, signature: vec![],
        },
        signature: vec![],
        gen_utime_ms,
    }
}

#[test]
fn cutoffs_end_with_the_window() {
    assert_eq!(
        collation_deadlines(SlotIndex(1), at(100), secs(1), 4, true),
        (at(101), at(103))
    );
    assert_eq!(
        collation_deadlines(SlotIndex(1), at(100), secs(1), 4, false),
        (at(100), at(103))
    );
    assert_eq!(collation_deadlines(SlotIndex(2), at(101), secs(1), 4, true).1, at(103));
    assert_eq!(collation_deadlines(SlotIndex(7), at(100), secs(1), 0, true), (at(101), at(101)));
}

#[test]
fn first_block_of_a_session_is_asked_for() {
    let mut w = World::new(MASTERCHAIN_ID);
    w.available.insert(SlotIndex(0), None);
    let mut c = CollationController::new();
    assert!(matches!(c.check_collation(&w.inputs()), Ok(None)));
    let deadlines = CollationDeadlineContext {
        soft_deadline: at(101), hard_deadline: at(104), budget_anchor: at(100),
    };
    assert_eq!(
        c.take_actions(),
        vec![
            CollationAction::SetPending(SlotIndex(0), true),
            CollationAction::SlotWake(SlotIndex(0), 0, at(101)),
            CollationAction::Generate(GenerateRequest {
                slot: SlotIndex(0),
                request_id: 0,
                source: BlockSourceInfo {
                    source_idx: ValidatorIndex(0),
                    round: u32::MAX,
                    first_block_round: u32::MAX,
                    priority: 0,
                },
                parent: None,
                prev_blocks: PrevBlocks::SessionStart,
                new_seqno: 5,
                min_gen_time: at(100),
                deadlines,
            }),
        ]
    );
    assert!(c.precollated_contains(SlotIndex(0)));
    assert_eq!(c.earliest_collation_time(), Some(at(101)));
    assert!(c.take_actions().is_empty());
}

#[test]
fn collations_are_paced() {
    let mut w = World::new(MASTERCHAIN_ID);
    w.available.insert(SlotIndex(0), None);
    let mut c = CollationController::new();
    c.set_earliest_collation_time(Some(at(101)));
    assert!(matches!(c.check_collation(&w.inputs()), Ok(None)));
    assert_eq!(c.take_actions(), vec![CollationAction::WakeAt(at(101))]);
    c.update_collation_pacing(&w.inputs());
    assert_eq!(c.earliest_collation_time(), Some(at(101)));
    w.now = at(102);
    assert!(matches!(c.check_collation(&w.inputs()), Ok(None)));
    assert!(generated(&c.take_actions()).is_some());
}

#[test]
fn unknown_parents_are_asked_for() {
    let mut w = World::new(0);
    w.first_non_progressed = 1;
    w.available.insert(SlotIndex(1), Some(info(0)));
    let mut c = CollationController::new();
    assert!(matches!(c.check_collation(&w.inputs()), Ok(None)));
    assert_eq!(c.take_actions(), vec![CollationAction::RequestParent(info(0).to_id())]);
    receive(&mut w.book, 0, 7, Some(99_500));
    assert!(matches!(c.check_collation(&w.inputs()), Ok(None)));
    let g = generated(&c.take_actions()).unwrap();
    assert_eq!(g.prev_blocks, PrevBlocks::Parent(block(7)));
    assert_eq!(g.new_seqno, 8);
    assert_eq!(g.min_gen_time, TimePoint { nanos: 100_500_000_000 });
}

#[test]
fn timing_follows_the_parent() {
    let mut w = World::new(MASTERCHAIN_ID);
    receive(&mut w.book, 0, 7, Some(99_500));
    receive(&mut w.book, 1, 8, Some(50_000));
    receive(&mut w.book, 2, 9, Some(200_000));
    let c = CollationController::new();
    let inputs = w.inputs();
    let t = c.compute_collation_timing(&Some(info(0)), &inputs);
    assert_eq!(t.min_gen_time, TimePoint { nanos: 100_500_000_000 });
    assert_eq!(t.dispatch_time, TimePoint { nanos: 100_500_000_000 });
    assert_eq!(t.start_collate_before, TimeSpan::zero());
    assert_eq!(t.parent_gen_utime_ms, Some(99_500));
    assert_eq!(c.compute_collation_timing(&Some(info(1)), &inputs).min_gen_time, at(100));
    assert_eq!(c.compute_collation_timing(&Some(info(2)), &inputs).min_gen_time, at(101));
    assert_eq!(c.compute_collation_timing(&None, &inputs).min_gen_time, at(100));
    assert_eq!(
        c.prepare_collation(&Some(info(0)), &inputs),
        Ok(CollationPreparation::Deferred(TimePoint { nanos: 100_500_000_000 }))
    );
    assert_eq!(
        c.prepare_collation(&Some(info(3)), &inputs),
        Ok(CollationPreparation::WaitingForParent)
    );
    let mut in_shard = World::new(0);
    receive(&mut in_shard.book, 0, 7, Some(99_500));
    let t = c.compute_collation_timing(&Some(info(0)), &in_shard.inputs());
    assert_eq!(t.min_gen_time, TimePoint { nanos: 100_500_000_000 });
    assert_eq!(t.dispatch_time, TimePoint { nanos: 99_500_000_000 });
    assert_eq!(t.start_collate_before, secs(1));
    assert_eq!(c.compute_collation_timing(&None, &in_shard.inputs()).dispatch_time, at(99));
}

#[test]
fn seqnos_can_be_used_up() {
    let mut w = World::new(0);
    receive(&mut w.book, 0, u32::MAX, None);
    let c = CollationController::new();
    assert_eq!(
        c.prepare_collation(&Some(info(0)), &w.inputs()),
        Err(CollationBreach::SeqnoOverflow)
    );
}

#[test]
fn finished_blocks_are_published() {
    let mut w = World::new(MASTERCHAIN_ID);
    w.available.insert(SlotIndex(0), None);
    let mut c = CollationController::new();
    c.check_collation(&w.inputs()).unwrap();
    c.take_actions();
    let request = c
        .on_collation_complete(&w.inputs(), SlotIndex(0), 0, CollationResult::Block(collated(5)))
        .unwrap()
        .unwrap();
    assert_eq!(request.slot, SlotIndex(0));
    assert_eq!(request.parent, None);
    assert_eq!(request.funnel_slot, Some(SlotIndex(0)));
    assert_eq!(request.next, Some(SlotIndex(1)));
    assert!(matches!(&request.result, CollationResult::Block(b) if b.id == block(5)));
    assert!(!c.precollated_contains(SlotIndex(0)));

    w.now = at(101);
    let desc = GeneratedBlockDesc { ..built(0, 77, 5, Some(101_000)) };
    assert!(matches!(c.candidate_built(&w.inputs(), &request, Some(&desc)), Ok(None)));
    let id = RawCandidateId::from_parts(SlotIndex(0), hash(77));
    let actions = c.take_actions();
    assert_eq!(
        actions[..5],
        [
            CollationAction::Broadcast(id),
            CollationAction::SelfReceive(id),
            CollationAction::SetPending(SlotIndex(0), false),
            CollationAction::SetGenerated(SlotIndex(0)),
            CollationAction::SetSent(SlotIndex(0)),
        ]
    );
    assert_eq!(
        c.local_chain_head(),
        Some(LocalChainHead {
            window: WindowIndex(0),
            slot: SlotIndex(0),
            parent_info: id.as_parent_info(),
            gen_utime_ms: Some(101_000),
        })
    );
    assert_eq!(c.find_generated_parent_id_by_block_id(&block(5)), Some(id));
    assert!(actions.contains(&CollationAction::WakeAt(at(102))));
}

#[test]
fn next_slot_follows_the_new_candidate() {
    let mut w = World::new(0);
    w.available.insert(SlotIndex(0), None);
    let mut c = CollationController::new();
    c.check_collation(&w.inputs()).unwrap();
    let request = c
        .on_collation_complete(&w.inputs(), SlotIndex(0), 0, CollationResult::Block(collated(5)))
        .unwrap()
        .unwrap();
    c.take_actions();
    c.candidate_built(&w.inputs(), &request, Some(&built(0, 77, 5, Some(100_000)))).unwrap();
    let g = generated(&c.take_actions()).unwrap();
    assert_eq!(g.slot, SlotIndex(1));
    assert_eq!(g.parent, Some(CandidateParentInfo::new(SlotIndex(0), hash(77))));
    assert_eq!(g.prev_blocks, PrevBlocks::Parent(block(5)));
    assert_eq!(g.new_seqno, 6);
    assert_eq!(g.request_id, 1);
    assert_eq!(g.deadlines.hard_deadline, at(104));
}

#[test]
fn candidates_are_not_published_for_other_windows() {
    let mut w = World::new(0);
    w.available.insert(SlotIndex(0), None);
    let mut c = CollationController::new();
    c.check_collation(&w.inputs()).unwrap();
    c.take_actions();
    w.window = 1;
    let step =
        c.on_collation_complete(&w.inputs(), SlotIndex(0), 0, CollationResult::Block(collated(5)));
    assert!(matches!(step, Ok(None)));
    assert_eq!(
        c.take_actions(),
        vec![CollationAction::Forget(SlotIndex(0), ForgetReason::StaleWindowResult)]
    );
    c.set_local_chain_head(Some(LocalChainHead {
        window: WindowIndex(0), slot: SlotIndex(0), parent_info: info(0), gen_utime_ms: None,
    }));
    let none = c.publish_candidate(
        &w.inputs(), SlotIndex(0), Some(info(0)), CollationResult::Block(collated(5)), None, None,
    );
    assert!(none.is_none());
    assert_eq!(c.local_chain_head(), None);
}

#[test]
fn empty_candidates_without_parents_are_not_published() {
    let w = World::new(0);
    let mut c = CollationController::new();
    let result = CollationResult::Empty { parent_block_id: block(4) };
    assert!(c.publish_candidate(&w.inputs(), SlotIndex(0), None, result, None, None).is_none());
    let result = CollationResult::Empty { parent_block_id: block(4) };
    assert!(
        c.publish_candidate(&w.inputs(), SlotIndex(1), Some(info(0)), result, None, None).is_some()
    );
}

/// A pipeline that collates for slot 1 on top of slot 0.
fn running(w: &mut World) -> CollationController {
    w.first_non_progressed = 1;
    w.available.insert(SlotIndex(1), Some(info(0)));
    receive(&mut w.book, 0, 7, None);
    w.finalize(7);
    let mut c = CollationController::new();
    c.check_collation(&w.inputs()).unwrap();
    assert!(generated(&c.take_actions()).is_some());
    c
}

#[test]
fn slots_are_filled_while_a_collation_runs() {
    let mut w = World::new(0);
    let mut c = running(&mut w);
    w.now = at(101);
    let filler = c.on_slot_deadline(&w.inputs(), SlotIndex(1), 0, at(101)).unwrap().unwrap();
    assert_eq!(filler.slot, SlotIndex(1));
    assert_eq!(filler.parent, Some(info(0)));
    assert_eq!(filler.funnel_slot, None);
    assert_eq!(filler.next, None);
    assert!(matches!(&filler.result, CollationResult::Empty { parent_block_id } if *parent_block_id == block(7)));
    assert_eq!(c.take_actions(), vec![CollationAction::SlotWake(SlotIndex(2), 0, at(102))]);
    c.candidate_built(&w.inputs(), &filler, Some(&built(1, 81, 7, None))).unwrap();

    let late = c
        .on_collation_complete(&w.inputs(), SlotIndex(1), 0, CollationResult::Block(collated(8)))
        .unwrap()
        .unwrap();
    assert_eq!(late.slot, SlotIndex(2));
    assert_eq!(late.parent, Some(CandidateParentInfo::new(SlotIndex(1), hash(81))));
    assert_eq!(late.funnel_slot, Some(SlotIndex(1)));
}

#[test]
fn slots_are_not_filled_without_finalization() {
    let mut w = World::new(0);
    let mut c = running(&mut w);
    w.now = at(111);
    assert!(!c.empties_allowed_by_finalization(&w.inputs()));
    assert!(matches!(c.on_slot_deadline(&w.inputs(), SlotIndex(1), 0, at(101)), Ok(None)));
    assert_eq!(c.take_actions(), vec![CollationAction::SlotWake(SlotIndex(1), 0, at(112))]);
    assert!(matches!(c.on_slot_deadline(&w.inputs(), SlotIndex(1), 9, at(101)), Ok(None)));
    assert!(c.take_actions().is_empty());
    w.finalize(8);
    c.refresh_finalization_timestamp(&w.inputs());
    assert!(c.empties_allowed_by_finalization(&w.inputs()));
}

#[test]
fn failed_collations_give_empty_candidates() {
    let mut w = World::new(0);
    let mut c = running(&mut w);
    let r = c.on_collation_callback(&w.inputs(), SlotIndex(1), 0, false, None).unwrap().unwrap();
    assert_eq!(r.slot, SlotIndex(1));
    assert_eq!(r.parent, Some(info(0)));
    assert!(matches!(r.result, CollationResult::Empty { parent_block_id } if parent_block_id == block(7)));
    assert_eq!(r.next, Some(SlotIndex(2)));
    assert!(!c.precollated_contains(SlotIndex(1)));
}

#[test]
fn failed_collations_are_restarted_with_their_cutoffs() {
    let mut w = World::new(0);
    let mut c = running(&mut w);
    w.now = at(120);
    assert!(matches!(
        c.on_collation_failed_impl(&w.inputs(), SlotIndex(1), 0),
        Ok(None)
    ));
    let pinned = CollationDeadlineContext {
        soft_deadline: at(100), hard_deadline: at(103), budget_anchor: at(99),
    };
    let due = TimePoint { nanos: (120 * SEC + SEC / 10) as i128 };
    assert_eq!(
        c.take_actions(),
        vec![CollationAction::Restart(SlotIndex(1), Some(pinned), due)]
    );
    w.now = due;
    assert!(matches!(c.on_restart_due(&w.inputs(), SlotIndex(1), Some(pinned)), Ok(None)));
    let g = generated(&c.take_actions()).unwrap();
    assert_eq!(g.request_id, 1);
    assert_eq!(g.deadlines, pinned);
    assert!(matches!(c.on_restart_due(&w.inputs(), SlotIndex(1), Some(pinned)), Ok(None)));
    assert!(c.take_actions().is_empty());
}

#[test]
fn cancelled_collations_are_forgotten() {
    let mut w = World::new(0);
    let mut c = running(&mut w);
    let step =
        c.on_collation_callback(&w.inputs(), SlotIndex(1), 0, true, Some(collated(8)));
    assert!(matches!(step, Ok(None)));
    assert_eq!(
        c.take_actions(),
        vec![CollationAction::Forget(SlotIndex(1), ForgetReason::Cancelled)]
    );
}

#[test]
fn one_collation_runs_at_a_time() {
    let mut w = World::new(0);
    let mut c = running(&mut w);
    w.now = at(105);
    w.first_non_progressed = 2;
    w.available.insert(SlotIndex(2), Some(info(0)));
    assert!(matches!(c.check_collation(&w.inputs()), Ok(None)));
    let actions = c.take_actions();
    assert!(generated(&actions).is_none());
    assert_eq!(
        actions,
        vec![
            CollationAction::SetPending(SlotIndex(2), true),
            CollationAction::SetPending(SlotIndex(2), false),
        ]
    );
}

#[test]
fn collations_of_past_windows_are_dropped() {
    let mut w = World::new(0);
    let mut c = running(&mut w);
    w.window = 1;
    assert!(c.clear_stale_block_generation(&w.inputs()));
    assert_eq!(
        c.take_actions(),
        vec![
            CollationAction::Cancel(0),
            CollationAction::Forget(SlotIndex(1), ForgetReason::StaleWindowCleared),
        ]
    );
    assert!(!c.clear_stale_block_generation(&w.inputs()));
    assert_eq!(c.precollated_count(), 0);
}

#[test]
fn reset_leaves_nothing() {
    let mut c = CollationController::new();
    c.insert_precollated(SlotIndex(5), PrecollatedBlock { request_id: 8, result: None, parent: None });
    c.insert_precollated(SlotIndex(3), PrecollatedBlock { request_id: 9, result: None, parent: None });
    assert!(c.insert_generated_parent(info(1).to_id(), block(4)).is_none());
    assert_eq!(c.insert_generated_parent(info(1).to_id(), block(5)), Some(block(4)));
    assert_eq!(c.precollated_slots().len(), 2);
    c.reset();
    assert_eq!(
        c.take_actions(),
        vec![
            CollationAction::Cancel(9),
            CollationAction::Cancel(8),
            CollationAction::Forget(SlotIndex(3), ForgetReason::PipelineReset),
            CollationAction::Forget(SlotIndex(5), ForgetReason::PipelineReset),
        ]
    );
    assert_eq!(c.precollated_count(), 0);
    assert_eq!(c.local_chain_head(), None);
    assert_eq!(c.find_generated_parent_id_by_block_id(&block(5)), None);
}

#[test]
fn collations_are_removed_one_by_one() {
    let mut c = CollationController::new();
    c.insert_precollated(SlotIndex(5), PrecollatedBlock { request_id: 8, result: None, parent: Some(info(4)) });
    assert_eq!(c.precollated(SlotIndex(5)).map(|b| b.request_id), Some(8));
    assert!(c.remove_precollated_block(SlotIndex(5)));
    assert!(!c.remove_precollated_block(SlotIndex(5)));
    c.set_local_chain_head(Some(LocalChainHead {
        window: WindowIndex(0), slot: SlotIndex(0), parent_info: info(0), gen_utime_ms: Some(4),
    }));
    let w = World::new(0);
    assert_eq!(c.resolve_parent_gen_utime_ms_via_book(&info(0), &w.book), Some(4));
    c.insert_generated_parent(info(0).to_id(), block(4));
    c.invalidate_local_chain_head();
    assert_eq!(c.local_chain_head(), None);
    assert_eq!(c.resolve_parent_block_id(&info(0), &w.inputs()), None);
}

#[test]
fn finalization_that_is_behind_forces_empty_blocks() {
    let mut w = World::new(MASTERCHAIN_ID);
    w.finalize(5);
    assert!(!w.inputs().should_generate_empty_block(6, None));
    assert!(w.inputs().should_generate_empty_block(7, None));
    let mut w = World::new(0);
    w.opts.empty_block_mc_lag_threshold = Some(3);
    assert!(!w.inputs().should_generate_empty_block(100, None));
    w.consensus.set_last_mc_finalized_seqno(Some(5));
    assert!(!w.inputs().should_generate_empty_block(8, None));
    assert!(w.inputs().should_generate_empty_block(9, None));
    assert!(w.inputs().should_generate_empty_block(1, Some(true)));
}

#[test]
fn forced_empty_candidates_repeat_the_parent() {
    let mut w = World::new(0);
    w.first_non_progressed = 1;
    w.available.insert(SlotIndex(1), Some(info(0)));
    receive(&mut w.book, 0, 7, None);
    w.consensus.insert_before_split(block(7), true);
    let mut c = CollationController::new();
    let r = c.check_collation(&w.inputs()).unwrap().unwrap();
    assert_eq!(r.slot, SlotIndex(1));
    assert_eq!(r.parent, Some(info(0)));
    assert!(matches!(r.result, CollationResult::Empty { parent_block_id } if parent_block_id == block(7)));
    assert!(generated(&c.take_actions()).is_none());
    assert_eq!(c.earliest_collation_time(), Some(at(101)));
    assert_eq!(
        c.resolve_parent_before_split_flag(&w.inputs(), &PrevBlocks::Parent(block(7))),
        Some(true)
    );
}

#[test]
fn first_block_is_not_empty() {
    let mut w = World::new(0);
    w.available.insert(SlotIndex(0), None);
    w.consensus.insert_before_split(block(4), true);
    let mut c = CollationController::new();
    assert!(matches!(c.check_collation(&w.inputs()), Err(CollationBreach::EmptyFirstBlock)));
}

#[test]
fn first_block_follows_one_or_two_blocks() {
    let mut w = World::new(0);
    w.available.insert(SlotIndex(0), None);
    w.session_start = vec![];
    let mut c = CollationController::new();
    assert!(matches!(c.check_collation(&w.inputs()), Err(CollationBreach::PreviousBlocks)));
    w.session_start = vec![block(3), block(9)];
    let mut c = CollationController::new();
    c.check_collation(&w.inputs()).unwrap();
    let g = generated(&c.take_actions()).unwrap();
    assert_eq!(g.new_seqno, 10);
    assert_eq!(w.inputs().get_prev_block_ids(&g.prev_blocks), vec![block(3), block(9)]);
    assert_eq!(w.inputs().survey_prev_blocks(&g.prev_blocks), (2, 9));
}

#[test]
fn slots_are_begun_in_order() {
    let mut w = World::new(0);
    let mut c = running(&mut w);
    c.on_collation_complete(&w.inputs(), SlotIndex(1), 0, CollationResult::Block(collated(8)))
        .unwrap();
    w.now = at(105);
    w.first_non_progressed = 0;
    w.available.insert(SlotIndex(0), None);
    assert!(matches!(c.check_collation(&w.inputs()), Err(CollationBreach::SlotsOutOfOrder)));
}

#[test]
fn progressed_slots_are_not_collated_for() {
    let mut w = World::new(0);
    w.first_non_progressed = 2;
    w.available.insert(SlotIndex(1), None);
    let mut c = CollationController::new();
    assert!(matches!(
        c.precollate_block(&w.inputs(), SlotIndex(1)),
        Err(CollationBreach::ProgressedSlot)
    ));
}

#[test]
fn slots_can_be_used_up() {
    let mut w = World::new(0);
    w.window = u32::MAX / 4;
    w.first_non_progressed = u32::MAX;
    let mut c = CollationController::new();
    c.insert_precollated(SlotIndex(u32::MAX), PrecollatedBlock { request_id: 8, result: None, parent: None });
    assert!(matches!(
        c.on_collation_complete(
            &w.inputs(), SlotIndex(u32::MAX), 8, CollationResult::Block(collated(5)),
        ),
        Err(CollationBreach::SlotOverflow)
    ));
}

#[test]
fn leaders_begin_their_slots_once() {
    let mut w = World::new(0);
    let c = CollationController::new();
    assert_eq!(c.try_begin_collation_slot(&w.inputs(), SlotIndex(0)), Some(ValidatorIndex(0)));
    w.desc = SessionDescription::new(
        vec![1, 1], 2, vec![ValidatorIndex(1)], ValidatorIndex(0), shard(0), 4, 5,
    ).unwrap();
    assert_eq!(c.try_begin_collation_slot(&w.inputs(), SlotIndex(0)), None);
}

#[test]
fn inputs_answer_for_the_session() {
    let mut w = World::new(0);
    w.available.insert(SlotIndex(1), Some(info(0)));
    assert_eq!(w.inputs().get_next_block_time(), at(101));
    assert_eq!(w.inputs().get_available_parent(SlotIndex(1)), Some(info(0)));
    assert_eq!(w.inputs().get_available_parent(SlotIndex(2)), None);
    w.consensus.set_finalized_head(7, SlotIndex(0), block(7));
    assert_eq!(w.inputs().get_before_split_flag(&block(7)), Some(false));
    assert_eq!(w.inputs().get_before_split_flag(&block(8)), None);
    let c = CollationController::new();
    assert_eq!(
        c.resolve_collation_prev_block_ids(&None, &w.inputs()),
        Some(PrevBlocks::SessionStart)
    );
    assert_eq!(c.resolve_collation_prev_block_ids(&Some(info(0)), &w.inputs()), None);
}

fn payload() -> PayloadInfo {
    PayloadInfo {
        data: PayloadHash { canonical: Some(hash(31)), raw: hash(32), file_hash: hash(33) },
        collated_data: PayloadHash { canonical: None, raw: hash(35), file_hash: hash(36) },
        creator: hash(37),
        gen_utime_ms: Some(5),
    }
}

#[test]
fn ordinary_candidates_are_built() {
    let w = World::new(0);
    let c = CollationController::new();
    let desc = c.create_normal_block_desc(
        &w.inputs(), SlotIndex(0), &collated(5), &None, &payload(),
        |input| {
            match input {
                CandidateHashInput::Ordinary { block: Some(b), collated_file_hash, parent } => {
                    assert_eq!(b.file_hash, hash(31));
                    assert_eq!(b.seq_no, 5);
                    assert_eq!(*collated_file_hash, Some(hash(35)));
                    assert_eq!(*parent, None);
                },
                other => panic!("unexpected {:?}", other),
            }
            hash(40)
        },
        |slot, h| {
            assert_eq!((slot, *h), (SlotIndex(0), hash(40)));
            Some(vec![4])
        },
        |round, root| {
            assert_eq!((round, *root), (5, hash(105)));
            Some(vec![6])
        },
    ).unwrap();
    assert_eq!(desc.candidate_hash, hash(40));
    assert_eq!(desc.block_id_ext.file_hash, hash(33));
    assert_eq!(desc.signature, vec![4]);
    assert_eq!(desc.gen_utime_ms, Some(5));
    let own = desc.block_candidate.as_ref().unwrap();
    assert_eq!(own.collated_file_hash, hash(36));
    assert_eq!(own.creator, hash(37));
    match &desc.tl_candidate_data {
        CandidateData::Block { slot, candidate, parent, signature } => {
            assert_eq!((*slot, candidate, *parent, signature), (0, &vec![6], None, &vec![4]));
        },
        other => panic!("unexpected {:?}", other),
    }
    let info = desc.build_candidate_info_for_db(&None, false, &w.desc).unwrap();
    assert_eq!(info.candidate_hash, hash(40));
    assert_eq!(info.leader_idx, ValidatorIndex(0));
    assert!(desc.is_info_known(&None, false));
    assert!(!desc.is_info_known(&None, true));
    assert_eq!(payload().data.get_identifying(), hash(31));
}

#[test]
fn faulty_blocks_are_refused() {
    let mut w = World::new(0);
    let c = CollationController::new();
    let make = |w: &World, b: &CollatedBlock, parent: Option<CandidateParentInfo>, s: bool, p: bool| {
        c.create_normal_block_desc(
            &w.inputs(), SlotIndex(1), b, &parent, &payload(), |_| hash(40),
            |_, _| if s { Some(vec![4]) } else { None },
            |_, _| if p { Some(vec![6]) } else { None },
        ).map(|_| ()).unwrap_err()
    };
    assert_eq!(
        make(&w, &collated(6), None, true, true),
        BlockDescError::SeqnoMismatch { candidate: 6, expected: 5 }
    );
    assert_eq!(
        make(&w, &collated(6), Some(info(0)), true, true),
        BlockDescError::ParentUnresolved(info(0))
    );
    receive(&mut w.book, 0, 7, None);
    assert_eq!(
        make(&w, &collated(6), Some(info(0)), true, true),
        BlockDescError::SeqnoMismatch { candidate: 6, expected: 8 }
    );
    assert_eq!(make(&w, &collated(8), Some(info(0)), false, true), BlockDescError::SigningFailed);
    assert_eq!(make(&w, &collated(8), Some(info(0)), true, false), BlockDescError::PackingFailed);
    w.opts.max_block_size = 1;
    assert_eq!(
        make(&w, &collated(8), Some(info(0)), true, true),
        BlockDescError::TooLarge { data: 2, collated_data: 1 }
    );
}

#[test]
fn empty_candidates_are_built() {
    let desc = CollationController::create_empty_block_desc(
        SlotIndex(1), &block(7), &Some(info(0)),
        |input| {
            assert_eq!(
                *input,
                CandidateHashInput::Empty { block: block(7), parent: info(0).to_id() }
            );
            hash(41)
        },
        |_, _| Some(vec![4]),
    ).unwrap();
    assert_eq!(desc.block_id_ext, block(7));
    assert_eq!(desc.candidate_hash, hash(41));
    assert!(desc.block_candidate.is_none());
    assert_eq!(desc.gen_utime_ms, None);
    match &desc.tl_candidate_data {
        CandidateData::Empty { slot, parent, block: b, .. } => {
            assert_eq!(*slot, 1);
            assert_eq!(*parent, WireCandidateId { slot: 0, hash: hash(0) });
            assert_eq!(*b, block(7));
        },
        other => panic!("unexpected {:?}", other),
    }
    let w = World::new(0);
    let stored = desc.build_candidate_info_for_db(&Some(info(0)), true, &w.desc).unwrap();
    assert_eq!(
        stored.hash_data,
        CandidateHashInput::Empty { block: block(7), parent: info(0).to_id() }
    );
    assert!(desc.build_candidate_info_for_db(&None, true, &w.desc).is_none());
    assert!(desc.build_candidate_info_for_db(&None, false, &w.desc).is_none());
    assert_eq!(
        CollationController::create_empty_block_desc(
            SlotIndex(1), &block(7), &None, |_| hash(41), |_, _| Some(vec![]),
        ).map(|_| ()).unwrap_err(),
        BlockDescError::EmptyWithoutParent
    );
    assert_eq!(
        CollationController::create_empty_block_desc(
            SlotIndex(1), &block(7), &Some(info(0)), |_| hash(41), |_, _| None,
        ).map(|_| ()).unwrap_err(),
        BlockDescError::SigningFailed
    );
}

#[test]
fn stored_info_is_asked_for_when_it_is_known() {
    let w = World::new(0);
    let mut c = CollationController::new();
    let request = PublishRequest {
        slot: SlotIndex(1),
        parent: Some(info(0)),
        result: CollationResult::Empty { parent_block_id: block(7) },
        funnel_slot: None,
        next: None,
    };
    c.candidate_built(&w.inputs(), &request, Some(&built(1, 81, 7, None))).unwrap();
    let id = RawCandidateId::from_parts(SlotIndex(1), hash(81));
    assert_eq!(c.take_actions()[0], CollationAction::Persist(id));
    assert!(matches!(c.candidate_built(&w.inputs(), &request, None), Ok(None)));
    assert!(c.take_actions().is_empty());
}

#[test]
fn generation_times_are_measured() {
    assert_eq!(CollationController::generation_time(at(1), at(2)), (secs(1), false));
    assert_eq!(CollationController::generation_time(at(1), at(3)), (secs(2), true));
    assert_eq!(CollationController::generation_time(at(3), at(1)), (TimeSpan::zero(), false));
}

#[test]
fn published_slots_move_forward() {
    let mut w = World::new(0);
    let mut c = running(&mut w);
    let mut published = vec![];
    let mut deadline = at(101);
    for slot in 1..3u32 {
        w.now = deadline;
        let filler = c.on_slot_deadline(&w.inputs(), SlotIndex(slot), 0, deadline).unwrap().unwrap();
        published.push(filler.slot);
        c.candidate_built(&w.inputs(), &filler, Some(&built(slot, 80 + slot as u64, 7, None))).unwrap();
        deadline = at(101 + slot as u128);
    }
    let recovery = c.on_collation_failed_impl(&w.inputs(), SlotIndex(1), 0).unwrap().unwrap();
    published.push(recovery.slot);
    assert_eq!(published, vec![SlotIndex(1), SlotIndex(2), SlotIndex(3)]);
    assert_eq!(recovery.parent, Some(CandidateParentInfo::new(SlotIndex(2), hash(82))));
}

#[test]
fn finalization_is_observed_once() {
    let mut w = World::new(0);
    w.finalize(7);
    let mut c = CollationController::new();
    c.refresh_finalization_timestamp(&w.inputs());
    w.now = at(109);
    c.refresh_finalization_timestamp(&w.inputs());
    w.now = at(110);
    assert!(c.empties_allowed_by_finalization(&w.inputs()));
    w.now = at(111);
    assert!(!c.empties_allowed_by_finalization(&w.inputs()));
}
