//! Whole runs of the job handler, and what holds of every one of them.
//!
//! A run is the first action of a job followed by the answers to the events
//! the driver reports. The laws below are stated over [`history`], the
//! actions of a run in order, and over what those actions write.

use vstd::prelude::*;

use crate::handler::{
    begin, next, verdict, ActionView, EventView, HandlerView, Phase, CHUNK_SIZE,
    COMPRESSION_DELAY_MS,
};
use crate::job::{JobStatus, Message, VideoId};
use crate::layout::manifest_path_of;
use crate::settings::SettingsView;
use crate::video::{changed_by_all, CompressionStatus, VideoChangeView, VideoView};

verus! {

/// One report of the driver: what came of the last action, and when.
pub struct Input {
    pub event: EventView,
    pub now: i64,
}

/// The state reached from `s` after `inputs`.
pub open spec fn state_from(s: HandlerView, inputs: Seq<Input>) -> HandlerView
    decreases inputs.len(),
{
    if inputs.len() == 0 {
        s
    } else {
        state_from(next(s, inputs[0].event, inputs[0].now).0, inputs.drop_first())
    }
}

/// The actions given in answer to `inputs`, starting in state `s`.
pub open spec fn answers_from(s: HandlerView, inputs: Seq<Input>) -> Seq<ActionView>
    decreases inputs.len(),
{
    if inputs.len() == 0 {
        Seq::empty()
    } else {
        let (after, action) = next(s, inputs[0].event, inputs[0].now);
        seq![action] + answers_from(after, inputs.drop_first())
    }
}

/// Every action of the run of a job, in order: the first one, then the
/// answer to each input.
pub open spec fn history(settings: SettingsView, message: Message, inputs: Seq<Input>) -> Seq<
    ActionView,
> {
    seq![begin(settings, message).1] + answers_from(begin(settings, message).0, inputs)
}

/// The writes to the video record that `actions` ask for, in order.
pub open spec fn writes(actions: Seq<ActionView>) -> Seq<VideoChangeView>
    decreases actions.len(),
{
    if actions.len() == 0 {
        Seq::empty()
    } else {
        let rest = writes(actions.drop_first());
        match actions[0] {
            ActionView::UpdateVideo { change, .. } => seq![change] + rest,
            _ => rest,
        }
    }
}

/// How often `actions` ask for the raw upload to be deleted.
pub open spec fn removals(actions: Seq<ActionView>) -> nat
    decreases actions.len(),
{
    if actions.len() == 0 {
        0
    } else {
        let rest = removals(actions.drop_first());
        if actions[0] is RemoveSource {
            rest + 1
        } else {
            rest
        }
    }
}

/// The pushes among `actions`, in order.
pub open spec fn pushed(actions: Seq<ActionView>) -> Seq<ActionView>
    decreases actions.len(),
{
    if actions.len() == 0 {
        Seq::empty()
    } else {
        let rest = pushed(actions.drop_first());
        if actions[0] is Push {
            seq![actions[0]] + rest
        } else {
            rest
        }
    }
}

/// The push that chains compression to a finished conversion of `video_id`
/// at time `now`.
pub open spec fn compression_push(video_id: VideoId, now: i64) -> ActionView {
    ActionView::Push {
        message: Message::CompressRawVideo { video_id },
        status: JobStatus::Queued,
        scheduled_time: Some((now + COMPRESSION_DELAY_MS) as i64),
    }
}

/// The phases of compression in which the raw upload is being archived:
/// from the reading of the record to the closing of the upload.
pub open spec fn archiving(phase: Phase) -> bool {
    phase is FetchingRaw || phase is CreatingDirectory || phase is CreatingArchive
        || phase is StartingEntry || phase is OpeningSource || phase is ReadingChunk
        || phase is WritingChunk || phase is FinishingArchive || phase is ClosingSource
}

/// Whether `event` is the success that `phase` waits for.
pub open spec fn awaited(phase: Phase, event: EventView) -> bool {
    match phase {
        Phase::FetchingUpload | Phase::FetchingRaw => event is Video,
        Phase::ReadingChunk => event matches EventView::Chunk { len } && len <= CHUNK_SIZE,
        Phase::Finished => true,
        _ => event is Done,
    }
}

spec fn conversion_rank(phase: Phase) -> int {
    match phase {
        Phase::MarkingProcessing => 0,
        Phase::FetchingUpload => 1,
        Phase::Transcoding => 2,
        Phase::RecordingProcessed => 3,
        Phase::Scheduling => 4,
        _ => -1,
    }
}

spec fn past_archiving(phase: Phase) -> bool {
    phase is RemovingSource || phase is RecordingCompressed || phase is RecordingFailure
        || phase is Finished
}

proof fn lemma_answers_len(s: HandlerView, inputs: Seq<Input>)
    ensures
        answers_from(s, inputs).len() == inputs.len(),
    decreases inputs.len(),
{
    if inputs.len() > 0 {
        lemma_answers_len(next(s, inputs[0].event, inputs[0].now).0, inputs.drop_first());
    }
}

proof fn lemma_split(s: HandlerView, head: Seq<Input>, tail: Seq<Input>)
    ensures
        state_from(s, head + tail) == state_from(state_from(s, head), tail),
        answers_from(s, head + tail) == answers_from(s, head) + answers_from(
            state_from(s, head),
            tail,
        ),
    decreases head.len(),
{
    if head.len() == 0 {
        assert(head + tail =~= tail);
        assert(answers_from(s, head) + answers_from(s, tail) =~= answers_from(s, tail));
    } else {
        let all = head + tail;
        let after = next(s, head[0].event, head[0].now).0;
        assert(all[0] == head[0]);
        assert(all.drop_first() =~= head.drop_first() + tail);
        lemma_split(after, head.drop_first(), tail);
        assert(answers_from(s, all) =~= answers_from(s, head) + answers_from(
            state_from(s, head),
            tail,
        ));
    }
}

proof fn lemma_counts_concat(front: Seq<ActionView>, back: Seq<ActionView>)
    ensures
        writes(front + back) == writes(front) + writes(back),
        removals(front + back) == removals(front) + removals(back),
        pushed(front + back) == pushed(front) + pushed(back),
    decreases front.len(),
{
    if front.len() == 0 {
        assert(front + back =~= back);
        assert(writes(front) + writes(back) =~= writes(back));
        assert(pushed(front) + pushed(back) =~= pushed(back));
    } else {
        let all = front + back;
        assert(all[0] == front[0]);
        assert(all.drop_first() =~= front.drop_first() + back);
        lemma_counts_concat(front.drop_first(), back);
        assert(writes(all) =~= writes(front) + writes(back));
        assert(pushed(all) =~= pushed(front) + pushed(back));
    }
}

proof fn lemma_counts_one(action: ActionView)
    ensures
        writes(seq![action]) == (match action {
            ActionView::UpdateVideo { change, .. } => seq![change],
            _ => Seq::empty(),
        }),
        removals(seq![action]) == (if action is RemoveSource {
            1nat
        } else {
            0nat
        }),
        pushed(seq![action]) == (if action is Push {
            seq![action]
        } else {
            Seq::empty()
        }),
{
    let one = seq![action];
    assert(one.drop_first() =~= Seq::<ActionView>::empty());
    assert(writes(one.drop_first()) =~= Seq::<VideoChangeView>::empty());
    assert(pushed(one.drop_first()) =~= Seq::<ActionView>::empty());
    assert(removals(one.drop_first()) == 0);
    assert(one[0] == action);
    match action {
        ActionView::UpdateVideo { change, .. } => {
            assert(writes(one) =~= seq![change]);
        },
        _ => {
            assert(writes(one) =~= Seq::<VideoChangeView>::empty());
        },
    }
    if action is Push {
        assert(pushed(one) =~= seq![action]);
    } else {
        assert(pushed(one) =~= Seq::<ActionView>::empty());
    }
}

/// A finished handler stays as it is and keeps answering with its verdict.
pub proof fn lemma_finished_stays(s: HandlerView, inputs: Seq<Input>)
    requires
        s.phase is Finished,
    ensures
        state_from(s, inputs) == s,
        answers_from(s, inputs).len() == inputs.len(),
        forall|i: int|
            0 <= i < inputs.len() ==> #[trigger] answers_from(s, inputs)[i] == (
            ActionView::Finish { outcome: verdict(s.failure) }),
        writes(answers_from(s, inputs)).len() == 0,
        removals(answers_from(s, inputs)) == 0,
        pushed(answers_from(s, inputs)).len() == 0,
    decreases inputs.len(),
{
    if inputs.len() > 0 {
        let rest = inputs.drop_first();
        lemma_finished_stays(s, rest);
        let first = ActionView::Finish { outcome: verdict(s.failure) };
        lemma_counts_one(first);
        lemma_counts_concat(seq![first], answers_from(s, rest));
    }
}

proof fn lemma_conversion_run(s: HandlerView, inputs: Seq<Input>)
    requires
        0 <= conversion_rank(s.phase) <= 4,
        inputs.len() > 0,
        answers_from(s, inputs).last() == (ActionView::Finish { outcome: Ok(()) }),
    ensures
        inputs.len() >= 5 - conversion_rank(s.phase),
        pushed(answers_from(s, inputs)) == (if conversion_rank(s.phase) <= 3 {
            seq![compression_push(s.video_id, inputs[3 - conversion_rank(s.phase)].now)]
        } else {
            Seq::empty()
        }),
    decreases inputs.len(),
{
    let rank = conversion_rank(s.phase);
    let (after, action) = next(s, inputs[0].event, inputs[0].now);
    let rest = inputs.drop_first();
    let tail = answers_from(after, rest);
    let all = answers_from(s, inputs);
    lemma_answers_len(after, rest);
    lemma_counts_one(action);
    lemma_counts_concat(seq![action], tail);
    assert(all == seq![action] + tail);
    if after.phase is Finished {
        lemma_finished_stays(after, rest);
        if rest.len() > 0 {
            assert(all.last() == tail[rest.len() - 1]);
        } else {
            assert(all.last() == action);
        }
        assert(after.failure is None);
        assert(rank == 4);
        assert(pushed(all) =~= Seq::<ActionView>::empty());
    } else {
        assert(conversion_rank(after.phase) == rank + 1);
        assert(after.video_id == s.video_id);
        if rest.len() == 0 {
            assert(all.last() == action);
            assert(false);
        }
        assert(all.last() == tail.last());
        lemma_conversion_run(after, rest);
        if rank <= 2 {
            assert(rest[2 - rank] == inputs[3 - rank]);
        }
        if rank == 3 {
            assert(action == compression_push(s.video_id, inputs[0].now));
            assert(pushed(all) =~= seq![action]);
        } else {
            assert(pushed(all) =~= pushed(tail));
        }
    }
}

/// Chaining. A conversion that ends in success took at least five reports,
/// and pushed exactly one job on the way: the compression of the same video,
/// queued, and visible one day after the report that the stream was
/// recorded (the fourth).
pub proof fn law_chaining(settings: SettingsView, video_id: VideoId, inputs: Seq<Input>)
    requires
        history(settings, Message::ProcessRawVideoIntoStream { video_id }, inputs).last() == (
        ActionView::Finish { outcome: Ok(()) }),
    ensures
        inputs.len() >= 5,
        pushed(history(settings, Message::ProcessRawVideoIntoStream { video_id }, inputs))
            == seq![compression_push(video_id, inputs[3].now)],
{
    let message = Message::ProcessRawVideoIntoStream { video_id };
    let (s0, first) = begin(settings, message);
    let answers = answers_from(s0, inputs);
    lemma_answers_len(s0, inputs);
    if inputs.len() == 0 {
        assert(history(settings, message, inputs).last() == first);
        assert(false);
    }
    assert(history(settings, message, inputs).last() == answers.last());
    lemma_conversion_run(s0, inputs);
    lemma_counts_one(first);
    lemma_counts_concat(seq![first], answers);
    assert(pushed(seq![first]) + pushed(answers) =~= pushed(answers));
}

/// A message that is not recognized is acknowledged: its run begins with
/// success, asks for nothing else, and writes nothing.
pub proof fn law_unrecognized_succeeds(settings: SettingsView, inputs: Seq<Input>)
    ensures
        history(settings, Message::Unrecognized, inputs).len() == inputs.len() + 1,
        forall|i: int|
            0 <= i <= inputs.len() ==> #[trigger] history(settings, Message::Unrecognized, inputs)[i]
                == (ActionView::Finish { outcome: Ok(()) }),
{
    let (s0, first) = begin(settings, Message::Unrecognized);
    lemma_finished_stays(s0, inputs);
    let all = history(settings, Message::Unrecognized, inputs);
    assert forall|i: int| 0 <= i <= inputs.len() implies #[trigger] all[i] == (ActionView::Finish {
        outcome: Ok(()),
    }) by {
        if i > 0 {
            assert(all[i] == answers_from(s0, inputs)[i - 1]);
        }
    }
}

proof fn lemma_conversion_writes(s: HandlerView, inputs: Seq<Input>)
    requires
        0 <= conversion_rank(s.phase) <= 4 || s.phase is Finished,
    ensures
        writes(answers_from(s, inputs)).len() == 0 || (0 <= conversion_rank(s.phase) <= 2
            && writes(answers_from(s, inputs)) == seq![
            VideoChangeView::Processed {
                path: manifest_path_of(s.settings.videos_dir, s.video_id),
            },
        ]),
    decreases inputs.len(),
{
    if s.phase is Finished {
        lemma_finished_stays(s, inputs);
    } else if inputs.len() > 0 {
        let (after, action) = next(s, inputs[0].event, inputs[0].now);
        let rest = inputs.drop_first();
        let tail = answers_from(after, rest);
        lemma_conversion_writes(after, rest);
        lemma_counts_one(action);
        lemma_counts_concat(seq![action], tail);
        assert(answers_from(s, inputs) == seq![action] + tail);
        assert(after.settings == s.settings && after.video_id == s.video_id);
        if writes(seq![action]).len() == 0 {
            assert(writes(seq![action]) + writes(tail) =~= writes(tail));
        } else {
            assert(conversion_rank(s.phase) == 2);
            assert(writes(seq![action]) + writes(tail) =~= writes(seq![action]));
        }
    }
}

/// Conversion never rolls back. Whatever is reported, a conversion job
/// first writes that processing began, and after that writes at most once
/// more: that the stream is ready, with the path of its manifest. A failed
/// conversion leaves the record at processing.
pub proof fn law_conversion_writes(
    settings: SettingsView,
    video_id: VideoId,
    inputs: Seq<Input>,
)
    ensures
        writes(history(settings, Message::ProcessRawVideoIntoStream { video_id }, inputs))
            == seq![VideoChangeView::Processing] || writes(
            history(settings, Message::ProcessRawVideoIntoStream { video_id }, inputs),
        ) == seq![
            VideoChangeView::Processing,
            VideoChangeView::Processed { path: manifest_path_of(settings.videos_dir, video_id) },
        ],
        pushed(
            history(settings, Message::ProcessRawVideoIntoStream { video_id }, inputs),
        ).len() > 0 ==> writes(
            history(settings, Message::ProcessRawVideoIntoStream { video_id }, inputs),
        ).len() == 2,
{
    let message = Message::ProcessRawVideoIntoStream { video_id };
    let (s0, first) = begin(settings, message);
    let answers = answers_from(s0, inputs);
    lemma_conversion_writes(s0, inputs);
    lemma_counts_one(first);
    lemma_counts_concat(seq![first], answers);
    let all = writes(history(settings, message, inputs));
    if writes(answers).len() == 0 {
        assert(all =~= seq![VideoChangeView::Processing]);
        lemma_no_push_without_write(s0, inputs);
        assert(pushed(seq![first]) + pushed(answers) =~= pushed(answers));
    } else {
        assert(all =~= seq![
            VideoChangeView::Processing,
            VideoChangeView::Processed { path: manifest_path_of(settings.videos_dir, video_id) },
        ]);
    }
}

proof fn lemma_no_push_without_write(s: HandlerView, inputs: Seq<Input>)
    requires
        0 <= conversion_rank(s.phase) <= 2 || s.phase is Finished,
        writes(answers_from(s, inputs)).len() == 0,
    ensures
        pushed(answers_from(s, inputs)).len() == 0,
    decreases inputs.len(),
{
    if s.phase is Finished {
        lemma_finished_stays(s, inputs);
    } else if inputs.len() > 0 {
        let (after, action) = next(s, inputs[0].event, inputs[0].now);
        let rest = inputs.drop_first();
        let tail = answers_from(after, rest);
        lemma_counts_one(action);
        lemma_counts_concat(seq![action], tail);
        assert(writes(seq![action]).len() + writes(tail).len() == 0);
        assert(conversion_rank(after.phase) <= 2 || after.phase is Finished);
        lemma_no_push_without_write(after, rest);
    }
}

proof fn lemma_past_archiving(s: HandlerView, inputs: Seq<Input>)
    requires
        past_archiving(s.phase),
    ensures
        past_archiving(state_from(s, inputs).phase),
    decreases inputs.len(),
{
    if inputs.len() > 0 {
        lemma_past_archiving(next(s, inputs[0].event, inputs[0].now).0, inputs.drop_first());
    }
}

proof fn lemma_while_archiving(s: HandlerView, inputs: Seq<Input>)
    requires
        archiving(s.phase) || s.phase is MarkingCompressing,
        archiving(state_from(s, inputs).phase),
    ensures
        writes(answers_from(s, inputs)).len() == 0,
        removals(answers_from(s, inputs)) == 0,
    decreases inputs.len(),
{
    if inputs.len() > 0 {
        let (after, action) = next(s, inputs[0].event, inputs[0].now);
        let rest = inputs.drop_first();
        if past_archiving(after.phase) {
            lemma_past_archiving(after, rest);
            assert(false);
        }
        lemma_while_archiving(after, rest);
        lemma_counts_one(action);
        lemma_counts_concat(seq![action], answers_from(after, rest));
    }
}

proof fn lemma_after_abandon(s: HandlerView, inputs: Seq<Input>)
    requires
        s.phase is RecordingFailure,
    ensures
        writes(answers_from(s, inputs)).len() == 0,
        removals(answers_from(s, inputs)) == 0,
    decreases inputs.len(),
{
    if inputs.len() > 0 {
        let (after, action) = next(s, inputs[0].event, inputs[0].now);
        let rest = inputs.drop_first();
        lemma_finished_stays(after, rest);
        lemma_counts_one(action);
        lemma_counts_concat(seq![action], answers_from(after, rest));
    }
}

/// Failure preserves the source. Take any run of a compression job in which
/// report `k` arrives while the raw upload is being archived and is not the
/// success that was awaited. Whatever follows, the run never asks for the
/// raw upload to be deleted, and it writes to the record exactly twice: that
/// compression began, and that it failed. Applied to any record, those
/// writes leave the path of the raw upload as it was and the compression
/// status at failed.
pub proof fn law_failure_preserves_source(
    settings: SettingsView,
    video_id: VideoId,
    inputs: Seq<Input>,
    k: int,
    video: VideoView,
)
    requires
        0 <= k < inputs.len(),
        archiving(
            state_from(
                begin(settings, Message::CompressRawVideo { video_id }).0,
                inputs.take(k),
            ).phase,
        ),
        !awaited(
            state_from(
                begin(settings, Message::CompressRawVideo { video_id }).0,
                inputs.take(k),
            ).phase,
            inputs[k].event,
        ),
    ensures
        removals(history(settings, Message::CompressRawVideo { video_id }, inputs)) == 0,
        writes(history(settings, Message::CompressRawVideo { video_id }, inputs)) == seq![
            VideoChangeView::Compressing,
            VideoChangeView::CompressionFailed,
        ],
        changed_by_all(
            video,
            writes(history(settings, Message::CompressRawVideo { video_id }, inputs)),
        ).raw_video_path == video.raw_video_path,
        changed_by_all(
            video,
            writes(history(settings, Message::CompressRawVideo { video_id }, inputs)),
        ).compression_status == CompressionStatus::Failed,
{
    let message = Message::CompressRawVideo { video_id };
    let (s0, first) = begin(settings, message);
    let head = inputs.take(k);
    let middle = seq![inputs[k]];
    let tail = inputs.skip(k + 1);
    assert(inputs =~= head + (middle + tail));
    let before = state_from(s0, head);
    let (after, action) = next(before, inputs[k].event, inputs[k].now);
    assert(after.phase is RecordingFailure);
    assert(action == (ActionView::UpdateVideo {
        video_id: before.video_id,
        change: VideoChangeView::CompressionFailed,
    }));

    lemma_while_archiving(s0, head);
    lemma_split(s0, head, middle + tail);
    assert((middle + tail)[0] == inputs[k]);
    assert((middle + tail).drop_first() =~= tail);
    let end = answers_from(after, tail);
    assert(answers_from(before, middle + tail) == seq![action] + end);
    lemma_after_abandon(after, tail);

    let a_head = answers_from(s0, head);
    let all = history(settings, message, inputs);
    assert(all == seq![first] + (a_head + (seq![action] + end)));
    lemma_counts_one(first);
    lemma_counts_one(action);
    lemma_counts_concat(seq![action], end);
    lemma_counts_concat(a_head, seq![action] + end);
    lemma_counts_concat(seq![first], a_head + (seq![action] + end));
    let w = writes(all);
    assert(w =~= seq![VideoChangeView::Compressing, VideoChangeView::CompressionFailed]);
    assert(w.drop_last() =~= seq![VideoChangeView::Compressing]);
    assert(w.drop_last().drop_last() =~= Seq::<VideoChangeView>::empty());
    reveal_with_fuel(changed_by_all, 3);
}

/// The raw upload is deleted last. The handler asks for the deletion only
/// in answer to the report that the upload was closed, and it asks for the
/// upload to be closed only in answer to the report that the archive was
/// finished.
pub proof fn law_removal_follows_close(s: HandlerView, event: EventView, now: i64)
    ensures
        next(s, event, now).1 is RemoveSource ==> s.phase is ClosingSource && event is Done,
        next(s, event, now).1 is CloseSource ==> s.phase is FinishingArchive && event is Done,
{
}

/// Chunks pass through. The handler asks for a write only in answer to a
/// read, and for exactly the bytes that the read reported: more than none
/// and at most [`CHUNK_SIZE`]. A read that reports no bytes ends the
/// copying.
pub proof fn law_chunks_pass_through(s: HandlerView, event: EventView, now: i64)
    ensures
        next(s, event, now).1 matches ActionView::WriteChunk { len } ==> s.phase is ReadingChunk
            && event == (EventView::Chunk { len }) && 0 < len <= CHUNK_SIZE,
        s.phase is ReadingChunk && event == (EventView::Chunk { len: 0 }) ==> next(
            s,
            event,
            now,
        ).1 is FinishArchive,
{
}

} // verus!
