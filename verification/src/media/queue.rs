//! The queue between the network receiver and the decoder, and what the
//! receiver does about losses, overruns and requests for a sync frame.

use crate::clock::Duration;
use crate::media::access_unit::AvcFrameBatch;
use crate::text;
use std::collections::VecDeque;
use vstd::prelude::*;

verus! {

/// How many events the queue holds. At 60 Hz this is at most 267 ms of video;
/// any further growth resets the prediction chain.
pub const AVC_RECEIVE_QUEUE_CAPACITY: usize = 16;

/// Why the prediction chain starts anew.
#[derive(Debug, Clone, Copy, PartialEq, Eq, Structural)]
pub enum AvcReceiveResetReason {
    PacketLoss,
    ConsumerOverrun,
    DecoderRequested,
    ReceiverError,
}

/// What the receiver hands to the decoder.
#[derive(Debug)]
pub enum AvcReceiveEvent {
    Frame(AvcFrameBatch),
    Reset(AvcReceiveResetReason),
    Error(String),
}

/// What an `AvcReceiveEvent` holds.
pub enum EventModel {
    Frame(AvcFrameBatch),
    Reset(AvcReceiveResetReason),
    Error(Seq<char>),
}

impl View for AvcReceiveEvent {
    type V = EventModel;

    open spec fn view(&self) -> EventModel {
        match *self {
            AvcReceiveEvent::Frame(batch) => EventModel::Frame(batch),
            AvcReceiveEvent::Reset(reason) => EventModel::Reset(reason),
            AvcReceiveEvent::Error(error) => EventModel::Error(error@),
        }
    }
}

/// The outcome of looking for the next event.
#[derive(Debug)]
pub enum QueuePoll {
    /// The oldest event.
    Ready(AvcReceiveEvent),
    /// Nothing came, and there is nothing to wait for.
    Finished,
    /// Nothing came yet.
    Wait,
}

/// The events that the decoder has not seen yet, oldest first. Its view is the
/// sequence of these events.
#[derive(Debug)]
pub struct AvcReceiveQueue {
    events: VecDeque<AvcReceiveEvent>,
    closed: bool,
}

impl View for AvcReceiveQueue {
    type V = Seq<EventModel>;

    closed spec fn view(&self) -> Seq<EventModel> {
        self.events@.map_values(|event: AvcReceiveEvent| event@)
    }
}

/// The events after a frame was offered to `events`.
pub open spec fn frame_pushed(events: Seq<EventModel>, batch: AvcFrameBatch) -> Seq<EventModel> {
    if events.len() >= AVC_RECEIVE_QUEUE_CAPACITY {
        seq![EventModel::Reset(AvcReceiveResetReason::ConsumerOverrun)]
    } else {
        events.push(EventModel::Frame(batch))
    }
}

/// The events after an error was added to `events`: a full queue gives up its
/// oldest event for it.
pub open spec fn error_pushed(events: Seq<EventModel>, error: Seq<char>) -> Seq<EventModel> {
    if events.len() >= AVC_RECEIVE_QUEUE_CAPACITY {
        events.drop_first().push(EventModel::Error(error))
    } else {
        events.push(EventModel::Error(error))
    }
}

impl Default for AvcReceiveQueue {
    fn default() -> (queue: Self)
        ensures
            queue.wf(),
            queue@ == Seq::<EventModel>::empty(),
            !queue.is_closed(),
    {
        let queue = AvcReceiveQueue { events: VecDeque::new(), closed: false };
        assert(queue@ =~= Seq::<EventModel>::empty());
        queue
    }
}

impl AvcReceiveQueue {
    /// Whether the queue keeps to its capacity.
    pub open spec fn wf(&self) -> bool {
        self@.len() <= AVC_RECEIVE_QUEUE_CAPACITY
    }

    /// Whether the receiver has stopped.
    pub closed spec fn is_closed(&self) -> bool {
        self.closed
    }

    /// Adds a frame. A full queue is cleared instead, because the frames behind
    /// the lost one depend on it; the answer says whether the frame was added.
    pub fn push_frame(&mut self, batch: AvcFrameBatch) -> (added: bool)
        requires
            old(self).wf(),
        ensures
            final(self).wf(),
            final(self)@ == frame_pushed(old(self)@, batch),
            final(self).is_closed() == old(self).is_closed(),
            added == (old(self)@.len() < AVC_RECEIVE_QUEUE_CAPACITY),
    {
        if self.events.len() >= AVC_RECEIVE_QUEUE_CAPACITY {
            self.reset(AvcReceiveResetReason::ConsumerOverrun);
            return false;
        }
        self.events.push_back(AvcReceiveEvent::Frame(batch));
        assert(self@ =~= frame_pushed(old(self)@, batch));
        true
    }

    /// Forgets every waiting event and announces a reset.
    pub fn reset(&mut self, reason: AvcReceiveResetReason)
        ensures
            final(self).wf(),
            final(self)@ == seq![EventModel::Reset(reason)],
            final(self).is_closed() == old(self).is_closed(),
    {
        self.events.clear();
        self.events.push_back(AvcReceiveEvent::Reset(reason));
        assert(self@ =~= seq![EventModel::Reset(reason)]);
    }

    /// Adds an error.
    pub fn push_error(&mut self, error: String)
        requires
            old(self).wf(),
        ensures
            final(self).wf(),
            final(self)@ == error_pushed(old(self)@, error@),
            final(self).is_closed() == old(self).is_closed(),
    {
        if self.events.len() >= AVC_RECEIVE_QUEUE_CAPACITY {
            let _ = self.events.pop_front();
        }
        self.events.push_back(AvcReceiveEvent::Error(error));
        assert(self@ =~= error_pushed(old(self)@, error@));
    }

    /// Takes the oldest event, if there is one.
    pub fn pop(&mut self) -> (event: Option<AvcReceiveEvent>)
        requires
            old(self).wf(),
        ensures
            final(self).wf(),
            final(self).is_closed() == old(self).is_closed(),
            event is None <==> old(self)@.len() == 0,
            event is None ==> final(self)@ == old(self)@,
            event matches Some(e) ==> e@ == old(self)@[0] && final(self)@ == old(
                self,
            )@.drop_first(),
    {
        let event = self.events.pop_front();
        proof {
            if event is Some {
                assert(self@ =~= old(self)@.drop_first());
            } else {
                assert(self@ =~= old(self)@);
            }
        }
        event
    }

    /// Looks for the next event, with `remaining` left of the time that the
    /// caller is ready to wait; `timed_out` says that the last wait ran out.
    pub fn poll(&mut self, remaining: Duration, timed_out: bool) -> (poll: QueuePoll)
        requires
            old(self).wf(),
        ensures
            final(self).wf(),
            final(self).is_closed() == old(self).is_closed(),
            poll is Ready <==> old(self)@.len() > 0,
            poll matches QueuePoll::Ready(e) ==> e@ == old(self)@[0] && final(self)@ == old(
                self,
            )@.drop_first(),
            !(poll is Ready) ==> final(self)@ == old(self)@,
            poll is Finished <==> old(self)@.len() == 0 && (old(self).is_closed() || remaining@ == 0
                || timed_out),
    {
        match self.pop() {
            Some(event) => QueuePoll::Ready(event),
            None => if self.closed || remaining.is_zero() || timed_out {
                QueuePoll::Finished
            } else {
                QueuePoll::Wait
            },
        }
    }

    /// Marks that the receiver has stopped.
    pub fn close(&mut self)
        ensures
            final(self).is_closed(),
            final(self)@ == old(self)@,
    {
        self.closed = true;
        assert(self@ =~= old(self)@);
    }
}

/// Behind a reset no older frame is left, whatever was waiting.
pub proof fn law_overrun_leaves_only_the_reset(events: Seq<EventModel>, batch: AvcFrameBatch)
    requires
        events.len() >= AVC_RECEIVE_QUEUE_CAPACITY,
    ensures
        frame_pushed(events, batch) == seq![
            EventModel::Reset(AvcReceiveResetReason::ConsumerOverrun),
        ],
        forall|i: int|
            0 <= i < frame_pushed(events, batch).len() ==> !(#[trigger] frame_pushed(
                events,
                batch,
            )[i] is Frame),
{
}

/// Counters of the network receiver.
#[derive(Debug, Clone, Copy, PartialEq, Eq, Structural)]
pub struct AvcReceiveStats {
    pub packets_received: usize,
    pub decrypted_packets: usize,
    pub heartbeats_sent: usize,
    pub packet_losses: usize,
}

impl Default for AvcReceiveStats {
    fn default() -> (stats: Self)
        ensures
            stats == (AvcReceiveStats {
                packets_received: 0,
                decrypted_packets: 0,
                heartbeats_sent: 0,
                packet_losses: 0,
            }),
    {
        AvcReceiveStats {
            packets_received: 0,
            decrypted_packets: 0,
            heartbeats_sent: 0,
            packet_losses: 0,
        }
    }
}

/// The result of one read from the network.
#[derive(Debug)]
pub enum Received {
    Batch(AvcFrameBatch),
    Nothing,
    Failed(String),
}

/// Why the sender is asked for a sync frame.
#[derive(Debug)]
pub enum KeyframeCause {
    DecoderRequested,
    Overrun,
    ReceiverError(String),
}

/// What an error report about a failed read says.
pub open spec fn receive_failure(error: Seq<char>) -> Seq<char> {
    "AVC RTP/SRTP 接收失败："@ + error
}

/// The events after the answer to a request for a sync frame came in.
pub open spec fn keyframe_answered(
    events: Seq<EventModel>,
    cause: KeyframeCause,
    failure: Option<Seq<char>>,
) -> Seq<EventModel> {
    match (cause, failure) {
        (KeyframeCause::DecoderRequested, Some(error)) => error_pushed(
            events,
            "关键帧请求失败："@ + error,
        ),
        (KeyframeCause::Overrun, Some(error)) => error_pushed(
            events,
            "视频接收队列过载且关键帧请求失败："@ + error,
        ),
        (KeyframeCause::ReceiverError(cause), Some(error)) => error_pushed(
            events,
            receive_failure(cause@) + "；关键帧请求失败："@ + error,
        ),
        (KeyframeCause::ReceiverError(cause), None) => error_pushed(
            events,
            receive_failure(cause@),
        ),
        (_, None) => events,
    }
}

/// The view of an optional text.
pub open spec fn text_of(text: Option<String>) -> Option<Seq<char>> {
    match text {
        Some(t) => Some(t@),
        None => None,
    }
}

/// The network side of the queue: it turns each read into events and decides
/// when the sender is asked for a sync frame.
#[derive(Debug)]
pub struct AvcReceivePump {
    pub queue: AvcReceiveQueue,
    pub observed_packet_losses: usize,
    pub stats: AvcReceiveStats,
}

impl AvcReceivePump {
    /// A pump for a receiver that has counted `packet_losses` so far.
    pub fn new(packet_losses: usize) -> (pump: Self)
        ensures
            pump.queue.wf(),
            pump.queue@ == Seq::<EventModel>::empty(),
            !pump.queue.is_closed(),
            pump.observed_packet_losses == packet_losses,
            pump.stats == (AvcReceiveStats {
                packets_received: 0,
                decrypted_packets: 0,
                heartbeats_sent: 0,
                packet_losses: 0,
            }),
    {
        AvcReceivePump {
            queue: AvcReceiveQueue::default(),
            observed_packet_losses: packet_losses,
            stats: AvcReceiveStats::default(),
        }
    }

    /// The counters as of the last read.
    pub fn snapshot(&self) -> (stats: AvcReceiveStats)
        ensures
            stats == self.stats,
    {
        self.stats
    }

    /// Before a read: a request of the decoder resets the queue, and the sender
    /// is to be asked for a sync frame.
    pub fn before_receive(&mut self, decoder_requested: bool) -> (ask: Option<KeyframeCause>)
        requires
            old(self).queue.wf(),
        ensures
            final(self).queue.wf(),
            final(self).queue.is_closed() == old(self).queue.is_closed(),
            final(self).stats == old(self).stats,
            final(self).observed_packet_losses == old(self).observed_packet_losses,
            ask == if decoder_requested {
                Some(KeyframeCause::DecoderRequested)
            } else {
                None
            },
            final(self).queue@ == if decoder_requested {
                seq![EventModel::Reset(AvcReceiveResetReason::DecoderRequested)]
            } else {
                old(self).queue@
            },
    {
        if decoder_requested {
            self.queue.reset(AvcReceiveResetReason::DecoderRequested);
            Some(KeyframeCause::DecoderRequested)
        } else {
            None
        }
    }

    /// After a read: a loss resets the queue. A request of the decoder that came
    /// in meanwhile resets it too, and what was read is dropped, so that no older
    /// dependent frame crosses the reset. Otherwise what was read is published.
    pub fn after_receive(
        &mut self,
        counters: AvcReceiveStats,
        decoder_requested: bool,
        received: Received,
    ) -> (ask: Option<KeyframeCause>)
        requires
            old(self).queue.wf(),
        ensures
            final(self).queue.wf(),
            final(self).queue.is_closed() == old(self).queue.is_closed(),
            final(self).stats == counters,
            final(self).observed_packet_losses == counters.packet_losses,
            ({
                let events = if counters.packet_losses != old(self).observed_packet_losses {
                    seq![EventModel::Reset(AvcReceiveResetReason::PacketLoss)]
                } else {
                    old(self).queue@
                };
                if decoder_requested {
                    &&& final(self).queue@ == seq![
                        EventModel::Reset(AvcReceiveResetReason::DecoderRequested),
                    ]
                    &&& ask == Some(KeyframeCause::DecoderRequested)
                } else {
                    match received {
                        Received::Batch(batch) => {
                            &&& final(self).queue@ == frame_pushed(events, batch)
                            &&& ask == if events.len() < AVC_RECEIVE_QUEUE_CAPACITY {
                                None
                            } else {
                                Some(KeyframeCause::Overrun)
                            }
                        },
                        Received::Nothing => {
                            &&& final(self).queue@ == events
                            &&& ask is None
                        },
                        Received::Failed(error) => {
                            &&& final(self).queue@ == seq![
                                EventModel::Reset(AvcReceiveResetReason::ReceiverError),
                            ]
                            &&& ask == Some(KeyframeCause::ReceiverError(error))
                        },
                    }
                }
            }),
    {
        self.stats = counters;
        if counters.packet_losses != self.observed_packet_losses {
            self.observed_packet_losses = counters.packet_losses;
            self.queue.reset(AvcReceiveResetReason::PacketLoss);
        }
        if decoder_requested {
            self.queue.reset(AvcReceiveResetReason::DecoderRequested);
            return Some(KeyframeCause::DecoderRequested);
        }
        match received {
            Received::Batch(batch) => if self.queue.push_frame(batch) {
                None
            } else {
                Some(KeyframeCause::Overrun)
            },
            Received::Nothing => None,
            Received::Failed(error) => {
                self.queue.reset(AvcReceiveResetReason::ReceiverError);
                Some(KeyframeCause::ReceiverError(error))
            },
        }
    }

    /// The answer to a request for a sync frame: a failed request is reported,
    /// and a failed read in any case.
    pub fn keyframe_answer(&mut self, cause: KeyframeCause, failure: Option<String>)
        requires
            old(self).queue.wf(),
        ensures
            final(self).queue.wf(),
            final(self).queue.is_closed() == old(self).queue.is_closed(),
            final(self).stats == old(self).stats,
            final(self).observed_packet_losses == old(self).observed_packet_losses,
            final(self).queue@ == keyframe_answered(old(self).queue@, cause, text_of(failure)),
    {
        match (cause, failure) {
            (KeyframeCause::DecoderRequested, Some(error)) => {
                self.queue.push_error(text::joined("关键帧请求失败：", error.as_str()));
            },
            (KeyframeCause::Overrun, Some(error)) => {
                self.queue.push_error(
                    text::joined("视频接收队列过载且关键帧请求失败：", error.as_str()),
                );
            },
            (KeyframeCause::ReceiverError(cause), Some(error)) => {
                let mut report = text::joined("AVC RTP/SRTP 接收失败：", cause.as_str());
                report.append("；关键帧请求失败：");
                report.append(error.as_str());
                self.queue.push_error(report);
            },
            (KeyframeCause::ReceiverError(cause), None) => {
                self.queue.push_error(text::joined("AVC RTP/SRTP 接收失败：", cause.as_str()));
            },
            (KeyframeCause::DecoderRequested, None) => {},
            (KeyframeCause::Overrun, None) => {},
        }
    }

    /// The last counters of a receiver that stops.
    pub fn stopped(&mut self, counters: AvcReceiveStats)
        ensures
            final(self).stats == counters,
            final(self).queue.is_closed(),
            final(self).queue@ == old(self).queue@,
            final(self).observed_packet_losses == old(self).observed_packet_losses,
    {
        self.stats = counters;
        self.queue.close();
    }
}

/// The queue keeps up to sixteen events in their order: a frame comes behind those that
/// wait, and an error does too, for which a full queue gives up its oldest event.
pub proof fn law_events_wait_in_order(
    events: Seq<EventModel>,
    batch: AvcFrameBatch,
    error: Seq<char>,
    i: int,
)
    requires
        events.len() <= 16,
    ensures
        events.len() < 16 ==> frame_pushed(events, batch).len() == events.len() + 1 && frame_pushed(
            events,
            batch,
        ).last() == EventModel::Frame(batch),
        events.len() < 16 && 0 <= i < events.len() ==> frame_pushed(events, batch)[i] == events[i],
        events.len() == 16 ==> frame_pushed(events, batch) == seq![
            EventModel::Reset(AvcReceiveResetReason::ConsumerOverrun),
        ],
        error_pushed(events, error).last() == EventModel::Error(error),
        error_pushed(events, error).len() == if events.len() < 16 {
            events.len() + 1
        } else {
            16
        },
        events.len() < 16 && 0 <= i < events.len() ==> error_pushed(events, error)[i] == events[i],
        events.len() == 16 && 0 <= i < 15 ==> error_pushed(events, error)[i] == events[i + 1],
{
}

/// The answer to a request for a sync frame: one that was sent is nothing to tell,
/// unless a failed read was behind it; a request that failed is told with its cause and
/// its reason, as the last event.
pub proof fn law_failed_requests_are_told(
    events: Seq<EventModel>,
    cause: KeyframeCause,
    failure: Option<Seq<char>>,
)
    requires
        events.len() <= 16,
    ensures
        ({
            let after = keyframe_answered(events, cause, failure);
            match (cause, failure) {
                (KeyframeCause::ReceiverError(read), None) => after.len() > 0 && after.last()
                    == EventModel::Error("AVC RTP/SRTP 接收失败："@ + read@),
                (_, None) => after == events,
                (KeyframeCause::DecoderRequested, Some(error)) => after.len() > 0 && after.last()
                    == EventModel::Error("关键帧请求失败："@ + error),
                (KeyframeCause::Overrun, Some(error)) => after.len() > 0 && after.last()
                    == EventModel::Error(
                    "视频接收队列过载且关键帧请求失败："@ + error,
                ),
                (KeyframeCause::ReceiverError(read), Some(error)) => after.len() > 0
                    && after.last() == EventModel::Error(
                    "AVC RTP/SRTP 接收失败："@ + read@ + "；关键帧请求失败："@
                        + error,
                ),
            }
        }),
{
}

} // verus!
