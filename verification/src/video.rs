//! The video pipeline: what to do next, given how the last step went.
use vstd::prelude::*;

verus! {

/// How many decoded frames may wait before the decoder is held up.
pub const FRAME_BUF: usize = 15;

/// Where the pipeline stands: what it waits for.
pub enum Stage {
    Downloading,
    Storing,
    Probing { path: String },
    Decoding { path: String },
    Ended,
}

/// Where the pipeline stands, as contracts speak of it.
pub enum StageView {
    Downloading,
    Storing,
    Probing { path: Seq<char> },
    Decoding { path: Seq<char> },
    Ended,
}

impl View for Stage {
    type V = StageView;

    open spec fn view(&self) -> StageView {
        match self {
            Stage::Downloading => StageView::Downloading,
            Stage::Storing => StageView::Storing,
            Stage::Probing { path } => StageView::Probing { path: path@ },
            Stage::Decoding { path } => StageView::Decoding { path: path@ },
            Stage::Ended => StageView::Ended,
        }
    }
}

/// How a step went.
pub enum Outcome {
    Failed,
    Downloaded,
    /// The download was kept in this file.
    Stored { path: String },
    Probed { has_audio: bool },
    /// Every frame was handed over, or nobody wants them any more.
    Decoded,
}

/// What to do next.
pub enum Order {
    Download { url: String },
    Store,
    Probe { path: String },
    /// Hand the frame channel over, with the file to play for the sound.
    AnnounceReady { audio_path: Option<String> },
    Decode { path: String },
    /// Tell that no more frames come.
    AnnounceEnded,
    RemoveFile { path: String },
}

/// What to do next, as contracts speak of it.
pub enum OrderView {
    Download { url: Seq<char> },
    Store,
    Probe { path: Seq<char> },
    AnnounceReady { audio_path: Option<Seq<char>> },
    Decode { path: Seq<char> },
    AnnounceEnded,
    RemoveFile { path: Seq<char> },
}

impl View for Order {
    type V = OrderView;

    open spec fn view(&self) -> OrderView {
        match self {
            Order::Download { url } => OrderView::Download { url: url@ },
            Order::Store => OrderView::Store,
            Order::Probe { path } => OrderView::Probe { path: path@ },
            Order::AnnounceReady { audio_path } => OrderView::AnnounceReady {
                audio_path: match audio_path {
                    Some(path) => Some(path@),
                    None => None,
                },
            },
            Order::Decode { path } => OrderView::Decode { path: path@ },
            Order::AnnounceEnded => OrderView::AnnounceEnded,
            Order::RemoveFile { path } => OrderView::RemoveFile { path: path@ },
        }
    }
}

/// What a list of orders says.
pub open spec fn ordered(orders: Seq<Order>) -> Seq<OrderView> {
    Seq::new(orders.len(), |i: int| orders[i]@)
}

impl StageView {
    /// Whether an outcome can come at this stage: a failure at any, success of
    /// the step that is waited for.
    pub open spec fn awaits(self, outcome: Outcome) -> bool {
        match outcome {
            Outcome::Failed => !(self is Ended),
            Outcome::Downloaded => self is Downloading,
            Outcome::Stored { .. } => self is Storing,
            Outcome::Probed { .. } => self is Probing,
            Outcome::Decoded => self is Decoding,
        }
    }

    /// The stage after an outcome.
    pub open spec fn after(self, outcome: Outcome) -> StageView {
        match (self, outcome) {
            (StageView::Downloading, Outcome::Downloaded) => StageView::Storing,
            (StageView::Storing, Outcome::Stored { path }) => StageView::Probing { path: path@ },
            (StageView::Probing { path }, Outcome::Probed { .. }) => StageView::Decoding { path },
            _ => StageView::Ended,
        }
    }

    /// What an outcome leads to. The kept file goes when the run ends, however
    /// it ends.
    pub open spec fn orders(self, outcome: Outcome) -> Seq<OrderView> {
        match (self, outcome) {
            (StageView::Probing { path }, Outcome::Failed) => seq![
                OrderView::AnnounceEnded,
                OrderView::RemoveFile { path },
            ],
            (StageView::Decoding { path }, Outcome::Failed) => seq![
                OrderView::AnnounceEnded,
                OrderView::RemoveFile { path },
            ],
            (_, Outcome::Failed) => seq![OrderView::AnnounceEnded],
            (StageView::Downloading, Outcome::Downloaded) => seq![OrderView::Store],
            (StageView::Storing, Outcome::Stored { path }) => seq![OrderView::Probe { path: path@ }],
            (StageView::Probing { path }, Outcome::Probed { has_audio }) => seq![
                OrderView::AnnounceReady {
                    audio_path: if has_audio {
                        Some(path)
                    } else {
                        None
                    },
                },
                OrderView::Decode { path },
            ],
            (StageView::Decoding { path }, Outcome::Decoded) => seq![
                OrderView::AnnounceEnded,
                OrderView::RemoveFile { path },
            ],
            _ => Seq::empty(),
        }
    }
}

/// What a pipeline orders first.
pub open spec fn first_order(url: Seq<char>) -> OrderView {
    OrderView::Download { url }
}

/// A pipeline starts by downloading its own video, and waits for that.
pub proof fn law_pipelines_start_with_the_download(url: Seq<char>)
    ensures
        first_order(url) == (OrderView::Download { url }),
        StageView::Downloading.awaits(Outcome::Downloaded),
{
}

/// The pipeline of one video.
pub struct Pipeline {
    stage: Stage,
}

impl Pipeline {
    /// Where the pipeline stands.
    pub closed spec fn view(&self) -> StageView {
        self.stage@
    }

    /// Starts the pipeline of a video.
    pub fn start(url: String) -> (r: (Pipeline, Order))
        ensures
            r.0@ == StageView::Downloading,
            r.1@ == (OrderView::Download { url: url@ }),
            r.1@ == first_order(url@),
    {
        (Pipeline { stage: Stage::Downloading }, Order::Download { url })
    }

    /// Goes on after a step.
    pub fn step(&mut self, outcome: Outcome) -> (orders: Vec<Order>)
        requires
            old(self)@.awaits(outcome),
        ensures
            final(self)@ == old(self)@.after(outcome),
            ordered(orders@) == old(self)@.orders(outcome),
    {
        let mut stage = Stage::Ended;
        std::mem::swap(&mut stage, &mut self.stage);
        let mut orders: Vec<Order> = Vec::new();
        match outcome {
            Outcome::Failed => {
                orders.push(Order::AnnounceEnded);
                match stage {
                    Stage::Probing { path } | Stage::Decoding { path } => {
                        orders.push(Order::RemoveFile { path });
                    },
                    _ => {},
                }
            },
            Outcome::Downloaded => {
                self.stage = Stage::Storing;
                orders.push(Order::Store);
            },
            Outcome::Stored { path } => {
                self.stage = Stage::Probing { path: path.clone() };
                orders.push(Order::Probe { path });
            },
            Outcome::Probed { has_audio } => match stage {
                Stage::Probing { path } => {
                    let audio_path = if has_audio {
                        Some(path.clone())
                    } else {
                        None
                    };
                    orders.push(Order::AnnounceReady { audio_path });
                    orders.push(Order::Decode { path: path.clone() });
                    self.stage = Stage::Decoding { path };
                },
                _ => {},
            },
            Outcome::Decoded => match stage {
                Stage::Decoding { path } => {
                    orders.push(Order::AnnounceEnded);
                    orders.push(Order::RemoveFile { path });
                },
                _ => {},
            },
        }
        assert(ordered(orders@) =~= old(self)@.orders(outcome));
        orders
    }
}

/// Which outcome is waited for at each stage; a failure can come at any but the
/// last.
pub proof fn law_each_stage_waits_for_its_step(stage: StageView, outcome: Outcome)
    ensures
        stage.awaits(outcome) <==> match stage {
            StageView::Downloading => outcome is Downloaded || outcome is Failed,
            StageView::Storing => outcome is Stored || outcome is Failed,
            StageView::Probing { .. } => outcome is Probed || outcome is Failed,
            StageView::Decoding { .. } => outcome is Decoded || outcome is Failed,
            StageView::Ended => false,
        },
{
}

/// A download is kept; the kept file is probed; a probed file is announced, with
/// itself for the sound exactly where it has any, and decoded; a decoded file is
/// done with. Throughout it is the same file.
pub proof fn law_steps_follow_each_other(stage: StageView, outcome: Outcome)
    requires
        stage.awaits(outcome),
        !(outcome is Failed),
    ensures
        outcome is Downloaded ==> stage.after(outcome) == StageView::Storing && stage.orders(
            outcome,
        ) == seq![OrderView::Store],
        outcome matches Outcome::Stored { path } ==> stage.after(outcome) == (StageView::Probing {
            path: path@,
        }) && stage.orders(outcome) == seq![OrderView::Probe { path: path@ }],
        outcome matches Outcome::Probed { has_audio } ==> (stage matches StageView::Probing { path }
            ==> {
            let orders = stage.orders(outcome);
            &&& stage.after(outcome) == (StageView::Decoding { path })
            &&& orders.len() == 2
            &&& orders[0] matches OrderView::AnnounceReady { audio_path } && (if has_audio {
                audio_path == Some(path)
            } else {
                audio_path is None
            })
            &&& orders[1] == (OrderView::Decode { path })
        }),
        outcome is Decoded ==> (stage matches StageView::Decoding { path } ==> stage.after(outcome)
            == StageView::Ended && stage.orders(outcome) == seq![
            OrderView::AnnounceEnded,
            OrderView::RemoveFile { path },
        ]),
{
}

/// A failure ends the run at any stage: the end is told first, and then the file
/// is removed exactly where one has been kept.
pub proof fn law_failures_end_the_run(stage: StageView)
    requires
        !(stage is Ended),
    ensures
        stage.after(Outcome::Failed) == StageView::Ended,
        stage.orders(Outcome::Failed)[0] == OrderView::AnnounceEnded,
        stage is Downloading || stage is Storing ==> stage.orders(Outcome::Failed).len() == 1,
        stage matches StageView::Probing { path } ==> stage.orders(Outcome::Failed) == seq![
            OrderView::AnnounceEnded,
            OrderView::RemoveFile { path },
        ],
        stage matches StageView::Decoding { path } ==> stage.orders(Outcome::Failed) == seq![
            OrderView::AnnounceEnded,
            OrderView::RemoveFile { path },
        ],
{
}

/// A list of orders says what each of them says, one by one.
pub proof fn law_orders_say_what_they_order(orders: Seq<Order>, i: int)
    requires
        0 <= i < orders.len(),
    ensures
        ordered(orders).len() == orders.len(),
        match orders[i] {
            Order::Download { url } => ordered(orders)[i] == (OrderView::Download { url: url@ }),
            Order::Store => ordered(orders)[i] == OrderView::Store,
            Order::Probe { path } => ordered(orders)[i] == (OrderView::Probe { path: path@ }),
            Order::AnnounceReady { audio_path } => ordered(
                orders,
            )[i] matches OrderView::AnnounceReady { audio_path: said } && (said is Some) == (
            audio_path is Some) && (audio_path is Some ==> said->0 == audio_path->0@),
            Order::Decode { path } => ordered(orders)[i] == (OrderView::Decode { path: path@ }),
            Order::AnnounceEnded => ordered(orders)[i] == OrderView::AnnounceEnded,
            Order::RemoveFile { path } => ordered(orders)[i] == (OrderView::RemoveFile {
                path: path@,
            }),
        },
{
}

/// Whether each outcome is one that is waited for when it comes.
pub open spec fn is_run(stage: StageView, outcomes: Seq<Outcome>) -> bool
    decreases outcomes.len(),
{
    outcomes.len() == 0 || (stage.awaits(outcomes[0]) && is_run(
        stage.after(outcomes[0]),
        outcomes.drop_first(),
    ))
}

/// The stage after a number of outcomes.
pub open spec fn stage_after(stage: StageView, outcomes: Seq<Outcome>) -> StageView
    decreases outcomes.len(),
{
    if outcomes.len() == 0 {
        stage
    } else {
        stage_after(stage.after(outcomes[0]), outcomes.drop_first())
    }
}

/// All that a number of outcomes leads to.
pub open spec fn orders_of(stage: StageView, outcomes: Seq<Outcome>) -> Seq<OrderView>
    decreases outcomes.len(),
{
    if outcomes.len() == 0 {
        Seq::empty()
    } else {
        stage.orders(outcomes[0]) + orders_of(stage.after(outcomes[0]), outcomes.drop_first())
    }
}

/// How often an order tells that no more frames come.
pub open spec fn ends(orders: Seq<OrderView>) -> nat
    decreases orders.len(),
{
    if orders.len() == 0 {
        0
    } else {
        (if orders[0] is AnnounceEnded {
            1nat
        } else {
            0
        }) + ends(orders.drop_first())
    }
}

/// How often an order hands the frame channel over.
pub open spec fn handovers(orders: Seq<OrderView>) -> nat
    decreases orders.len(),
{
    if orders.len() == 0 {
        0
    } else {
        (if orders[0] is AnnounceReady {
            1nat
        } else {
            0
        }) + handovers(orders.drop_first())
    }
}

/// How often an order removes a file.
pub open spec fn removals(orders: Seq<OrderView>) -> nat
    decreases orders.len(),
{
    if orders.len() == 0 {
        0
    } else {
        (if orders[0] is RemoveFile {
            1nat
        } else {
            0
        }) + removals(orders.drop_first())
    }
}

/// Counting adds up over two lists.
proof fn lemma_counts_add_up(a: Seq<OrderView>, b: Seq<OrderView>)
    ensures
        ends(a + b) == ends(a) + ends(b),
        handovers(a + b) == handovers(a) + handovers(b),
        removals(a + b) == removals(a) + removals(b),
    decreases a.len(),
{
    if a.len() == 0 {
        assert(a + b =~= b);
    } else {
        lemma_counts_add_up(a.drop_first(), b);
        assert((a + b).drop_first() =~= a.drop_first() + b);
    }
}

/// What one step adds to the counts.
proof fn lemma_counts_of_a_step(stage: StageView, outcome: Outcome)
    requires
        stage.awaits(outcome),
    ensures
        ends(stage.orders(outcome)) == if stage.after(outcome) is Ended {
            1nat
        } else {
            0
        },
        handovers(stage.orders(outcome)) == if stage is Probing && stage.after(outcome) is Decoding {
            1nat
        } else {
            0
        },
        removals(stage.orders(outcome)) == if (stage is Probing || stage is Decoding)
            && stage.after(outcome) is Ended {
            1nat
        } else {
            0
        },
{
    reveal_with_fuel(ends, 3);
    reveal_with_fuel(handovers, 3);
    reveal_with_fuel(removals, 3);
}

/// However a run goes, it tells exactly once that no more frames come when it
/// ends, and never before.
pub proof fn law_end_is_announced_once(stage: StageView, outcomes: Seq<Outcome>)
    requires
        is_run(stage, outcomes),
        !(stage is Ended),
    ensures
        ends(orders_of(stage, outcomes)) == if stage_after(stage, outcomes) is Ended {
            1nat
        } else {
            0
        },
    decreases outcomes.len(),
{
    if outcomes.len() > 0 {
        let next = stage.after(outcomes[0]);
        let rest = outcomes.drop_first();
        lemma_counts_of_a_step(stage, outcomes[0]);
        lemma_counts_add_up(stage.orders(outcomes[0]), orders_of(next, rest));
        if next is Ended {
            assert(rest.len() == 0) by {
                assert(is_run(next, rest));
                if rest.len() > 0 {
                    assert(next.awaits(rest[0]));
                }
            }
            assert(stage_after(next, rest) == next);
            assert(ends(orders_of(next, rest)) == 0);
        } else {
            law_end_is_announced_once(next, rest);
        }
    }
}

/// The frame channel is handed over at most once, and never after the end.
pub proof fn law_channel_is_handed_over_at_most_once(stage: StageView, outcomes: Seq<Outcome>)
    requires
        is_run(stage, outcomes),
    ensures
        handovers(orders_of(stage, outcomes)) <= if stage is Ended || stage is Decoding {
            0nat
        } else {
            1
        },
    decreases outcomes.len(),
{
    if outcomes.len() > 0 {
        let next = stage.after(outcomes[0]);
        let rest = outcomes.drop_first();
        lemma_counts_of_a_step(stage, outcomes[0]);
        lemma_counts_add_up(stage.orders(outcomes[0]), orders_of(next, rest));
        law_channel_is_handed_over_at_most_once(next, rest);
    }
}

/// The file that a stage has kept.
pub open spec fn kept_file(stage: StageView) -> Option<Seq<char>> {
    match stage {
        StageView::Probing { path } => Some(path),
        StageView::Decoding { path } => Some(path),
        _ => None,
    }
}

/// From a stage that has kept a file, a run that ends removes that file exactly
/// once, and as the last thing that it orders.
proof fn lemma_kept_file_goes(stage: StageView, outcomes: Seq<Outcome>)
    requires
        is_run(stage, outcomes),
        kept_file(stage) is Some,
        stage_after(stage, outcomes) is Ended,
    ensures
        removals(orders_of(stage, outcomes)) == 1,
        orders_of(stage, outcomes).len() > 0,
        orders_of(stage, outcomes).last() == (OrderView::RemoveFile { path: kept_file(stage)->0 }),
    decreases outcomes.len(),
{
    let next = stage.after(outcomes[0]);
    let rest = outcomes.drop_first();
    lemma_counts_of_a_step(stage, outcomes[0]);
    lemma_counts_add_up(stage.orders(outcomes[0]), orders_of(next, rest));
    if next is Ended {
        assert(rest.len() == 0) by {
            assert(is_run(next, rest));
            if rest.len() > 0 {
                assert(next.awaits(rest[0]));
            }
        }
        assert(orders_of(next, rest) =~= Seq::empty());
        assert(orders_of(stage, outcomes) =~= stage.orders(outcomes[0]));
    } else {
        lemma_kept_file_goes(next, rest);
        assert(orders_of(stage, outcomes).last() == orders_of(next, rest).last());
    }
}

/// Every run that kept its download in a file and has ended removed that file
/// exactly once, as the last thing that it ordered; whether it succeeded or
/// failed makes no difference.
pub proof fn law_kept_file_goes_with_the_run(outcomes: Seq<Outcome>, path: String)
    requires
        is_run(StageView::Downloading, outcomes),
        stage_after(StageView::Downloading, outcomes) is Ended,
        outcomes.contains(Outcome::Stored { path }),
    ensures
        removals(orders_of(StageView::Downloading, outcomes)) == 1,
        orders_of(StageView::Downloading, outcomes).len() > 0,
        orders_of(StageView::Downloading, outcomes).last() == (OrderView::RemoveFile { path: path@ }),
{
    let first = StageView::Downloading;
    let rest = outcomes.drop_first();
    let stored = Outcome::Stored { path };
    let k = choose|k: int| 0 <= k < outcomes.len() && outcomes[k] == stored;
    assert(is_run(first.after(outcomes[0]), rest));
    assert(first.awaits(outcomes[0]));
    assert(k > 0);
    assert(rest[k - 1] == stored);
    let second = first.after(outcomes[0]);
    assert(second.awaits(rest[0]));
    assert(second is Storing);
    let third = second.after(rest[0]);
    let tail = rest.drop_first();
    assert(is_run(third, tail));
    if k != 1 {
        assert(tail[k - 2] == stored);
        lemma_stores_once(third, tail, k - 2);
    }
    assert(rest[0] == stored);
    assert(stage_after(first, outcomes) == stage_after(second, rest));
    assert(stage_after(second, rest) == stage_after(third, tail));
    lemma_kept_file_goes(third, tail);
    lemma_counts_of_a_step(first, outcomes[0]);
    lemma_counts_of_a_step(second, rest[0]);
    lemma_counts_add_up(second.orders(rest[0]), orders_of(third, tail));
    lemma_counts_add_up(first.orders(outcomes[0]), orders_of(second, rest));
    assert(orders_of(second, rest).last() == orders_of(third, tail).last());
    assert(orders_of(first, outcomes).last() == orders_of(second, rest).last());
}

/// After the download has been kept, or the run has ended, nothing is kept again.
proof fn lemma_stores_once(stage: StageView, outcomes: Seq<Outcome>, k: int)
    requires
        is_run(stage, outcomes),
        0 <= k < outcomes.len(),
        !(stage is Downloading) && !(stage is Storing),
    ensures
        !(outcomes[k] is Stored),
    decreases outcomes.len(),
{
    if k > 0 {
        lemma_stores_once(stage.after(outcomes[0]), outcomes.drop_first(), k - 1);
    }
}

/// A video that is downloaded, kept and decoded without a failure: it is
/// announced with the kept file for its sound where it has any, ends, and
/// leaves no file behind.
pub proof fn law_success_leaves_no_file(path: String, has_audio: bool)
    ensures
        orders_of(
            StageView::Downloading,
            seq![
                Outcome::Downloaded,
                Outcome::Stored { path },
                Outcome::Probed { has_audio },
                Outcome::Decoded,
            ],
        ) == seq![
            OrderView::Store,
            OrderView::Probe { path: path@ },
            OrderView::AnnounceReady {
                audio_path: if has_audio {
                    Some(path@)
                } else {
                    None
                },
            },
            OrderView::Decode { path: path@ },
            OrderView::AnnounceEnded,
            OrderView::RemoveFile { path: path@ },
        ],
{
    let o3 = seq![Outcome::Decoded];
    let o2 = seq![Outcome::Probed { has_audio }, Outcome::Decoded];
    let o1 = seq![Outcome::Stored { path }, Outcome::Probed { has_audio }, Outcome::Decoded];
    let o0 = seq![
        Outcome::Downloaded,
        Outcome::Stored { path },
        Outcome::Probed { has_audio },
        Outcome::Decoded,
    ];
    assert(o0.drop_first() =~= o1);
    assert(o1.drop_first() =~= o2);
    assert(o2.drop_first() =~= o3);
    assert(o3.drop_first() =~= Seq::empty());
    reveal_with_fuel(orders_of, 5);
}

/// A step of decoding. Once all packets have been read the decoder is flushed.
#[derive(Clone, Copy, Debug, PartialEq, Eq, Structural)]
pub enum DecodeStep {
    ReadPacket,
    SendPacket,
    SendEof,
    ReceiveFrame { flushing: bool },
    ScaleFrame { flushing: bool },
    DeliverFrame { flushing: bool },
    Finished,
    Failed,
}

/// How a step of decoding went.
#[derive(Clone, Copy, Debug, PartialEq, Eq, Structural)]
pub enum Reply {
    /// A packet of this stream was read.
    Packet(usize),
    /// There are no more packets.
    NoPacket,
    Done,
    Refused,
}

impl DecodeStep {
    /// Whether the reply is one to this step.
    pub open spec fn asks(self, reply: Reply) -> bool {
        match self {
            DecodeStep::ReadPacket => reply is Packet || reply is NoPacket,
            DecodeStep::Finished | DecodeStep::Failed => false,
            _ => reply is Done || reply is Refused,
        }
    }

    /// The step after a reply.
    pub open spec fn after(self, video_idx: usize, reply: Reply) -> DecodeStep {
        match self {
            DecodeStep::ReadPacket => if reply is NoPacket {
                DecodeStep::SendEof
            } else if reply == Reply::Packet(video_idx) {
                DecodeStep::SendPacket
            } else {
                DecodeStep::ReadPacket
            },
            DecodeStep::SendPacket => if reply is Done {
                DecodeStep::ReceiveFrame { flushing: false }
            } else {
                DecodeStep::Failed
            },
            DecodeStep::SendEof => if reply is Done {
                DecodeStep::ReceiveFrame { flushing: true }
            } else {
                DecodeStep::Failed
            },
            DecodeStep::ReceiveFrame { flushing } => if reply is Done {
                DecodeStep::ScaleFrame { flushing }
            } else if flushing {
                DecodeStep::Finished
            } else {
                DecodeStep::ReadPacket
            },
            DecodeStep::ScaleFrame { flushing } => if reply is Done {
                DecodeStep::DeliverFrame { flushing }
            } else {
                DecodeStep::Failed
            },
            DecodeStep::DeliverFrame { flushing } => if reply is Done {
                DecodeStep::ReceiveFrame { flushing }
            } else {
                DecodeStep::Finished
            },
            _ => self,
        }
    }

    /// Whether all packets have been read.
    pub open spec fn is_past_packets(self) -> bool {
        match self {
            DecodeStep::ReadPacket | DecodeStep::SendPacket => false,
            DecodeStep::ReceiveFrame { flushing } => flushing,
            DecodeStep::ScaleFrame { flushing } => flushing,
            DecodeStep::DeliverFrame { flushing } => flushing,
            _ => true,
        }
    }

    /// Goes on after a reply. Packets of other streams are passed over, a frame
    /// that nobody takes ends the decoding without a failure.
    pub fn next(self, video_idx: usize, reply: Reply) -> (r: DecodeStep)
        requires
            self.asks(reply),
        ensures
            r == self.after(video_idx, reply),
    {
        match self {
            DecodeStep::ReadPacket => match reply {
                Reply::NoPacket => DecodeStep::SendEof,
                Reply::Packet(stream) => if stream == video_idx {
                    DecodeStep::SendPacket
                } else {
                    DecodeStep::ReadPacket
                },
                _ => DecodeStep::ReadPacket,
            },
            DecodeStep::SendPacket => match reply {
                Reply::Done => DecodeStep::ReceiveFrame { flushing: false },
                _ => DecodeStep::Failed,
            },
            DecodeStep::SendEof => match reply {
                Reply::Done => DecodeStep::ReceiveFrame { flushing: true },
                _ => DecodeStep::Failed,
            },
            DecodeStep::ReceiveFrame { flushing } => match reply {
                Reply::Done => DecodeStep::ScaleFrame { flushing },
                _ => if flushing {
                    DecodeStep::Finished
                } else {
                    DecodeStep::ReadPacket
                },
            },
            DecodeStep::ScaleFrame { flushing } => match reply {
                Reply::Done => DecodeStep::DeliverFrame { flushing },
                _ => DecodeStep::Failed,
            },
            DecodeStep::DeliverFrame { flushing } => match reply {
                Reply::Done => DecodeStep::ReceiveFrame { flushing },
                _ => DecodeStep::Finished,
            },
            DecodeStep::Finished => DecodeStep::Finished,
            DecodeStep::Failed => DecodeStep::Failed,
        }
    }
}

/// Only packets of the video stream are sent to the decoder, only frames that
/// were scaled are handed over, and only scaling or the decoder's refusal of
/// input is a failure.
pub proof fn law_what_leads_to_a_step(step: DecodeStep, video_idx: usize, reply: Reply)
    requires
        step.asks(reply),
    ensures
        step.after(video_idx, reply) is SendPacket <==> step is ReadPacket && reply
            == Reply::Packet(video_idx),
        step.after(video_idx, reply) is DeliverFrame <==> step is ScaleFrame && reply is Done,
        step.after(video_idx, reply) is SendEof <==> step is ReadPacket && reply is NoPacket,
        step.after(video_idx, reply) is Failed <==> reply is Refused && (step is SendPacket
            || step is SendEof || step is ScaleFrame),
{
}

/// Packets of the video are sent, and every frame that the decoder then has is
/// received, scaled and handed over before the next packet is read. Once the
/// packets have run out the same goes on until the decoder has no frame left,
/// which ends it. A frame that nobody takes ends it at once.
pub proof fn law_decoding_drains_the_decoder(
    step: DecodeStep,
    video_idx: usize,
    reply: Reply,
)
    requires
        step.asks(reply),
    ensures
        step is ReadPacket && reply != Reply::Packet(video_idx) && !(reply is NoPacket)
            ==> step.after(video_idx, reply) is ReadPacket,
        step is SendPacket && reply is Done ==> step.after(video_idx, reply)
            == (DecodeStep::ReceiveFrame { flushing: false }),
        step is SendEof && reply is Done ==> step.after(video_idx, reply)
            == (DecodeStep::ReceiveFrame { flushing: true }),
        step matches DecodeStep::ReceiveFrame { flushing } ==> step.after(video_idx, reply)
            == if reply is Done {
            DecodeStep::ScaleFrame { flushing }
        } else if flushing {
            DecodeStep::Finished
        } else {
            DecodeStep::ReadPacket
        },
        step matches DecodeStep::ScaleFrame { flushing } ==> (reply is Done ==> step.after(
            video_idx,
            reply,
        ) == (DecodeStep::DeliverFrame { flushing })),
        step matches DecodeStep::DeliverFrame { flushing } ==> step.after(video_idx, reply)
            == if reply is Done {
            DecodeStep::ReceiveFrame { flushing }
        } else {
            DecodeStep::Finished
        },
        step.after(video_idx, reply) is Finished <==> reply is Refused && (step is DeliverFrame || (
        step matches DecodeStep::ReceiveFrame { flushing } && flushing)),
{
}

/// Reading asks for a packet or the end, any other step for whether it was done;
/// what has ended asks for nothing.
pub proof fn law_what_a_step_asks_for(step: DecodeStep, reply: Reply)
    ensures
        step is ReadPacket ==> (step.asks(reply) <==> reply is Packet || reply is NoPacket),
        step is Finished || step is Failed ==> !step.asks(reply),
        !(step is ReadPacket) && !(step is Finished) && !(step is Failed) ==> (step.asks(reply)
            <==> reply is Done || reply is Refused),
{
}

/// The step after a number of replies.
pub open spec fn step_after(step: DecodeStep, video_idx: usize, replies: Seq<Reply>) -> DecodeStep
    decreases replies.len(),
{
    if replies.len() == 0 {
        step
    } else {
        step_after(step, video_idx, replies.drop_last()).after(video_idx, replies.last())
    }
}

/// How many frames came out of the decoder.
pub open spec fn frames_received(step: DecodeStep, video_idx: usize, replies: Seq<Reply>) -> nat
    decreases replies.len(),
{
    if replies.len() == 0 {
        0
    } else {
        frames_received(step, video_idx, replies.drop_last()) + if step_after(
            step,
            video_idx,
            replies.drop_last(),
        ) is ReceiveFrame && replies.last() is Done {
            1nat
        } else {
            0
        }
    }
}

/// How many frames went into the scaler.
pub open spec fn frames_sent_to_scaler(
    step: DecodeStep,
    video_idx: usize,
    replies: Seq<Reply>,
) -> nat
    decreases replies.len(),
{
    if replies.len() == 0 {
        0
    } else {
        frames_sent_to_scaler(step, video_idx, replies.drop_last()) + if step_after(
            step,
            video_idx,
            replies.drop_last(),
        ) is ScaleFrame {
            1nat
        } else {
            0
        }
    }
}

/// How many frames came out of the scaler.
pub open spec fn frames_scaled(step: DecodeStep, video_idx: usize, replies: Seq<Reply>) -> nat
    decreases replies.len(),
{
    if replies.len() == 0 {
        0
    } else {
        frames_scaled(step, video_idx, replies.drop_last()) + if step_after(
            step,
            video_idx,
            replies.drop_last(),
        ) is ScaleFrame && replies.last() is Done {
            1nat
        } else {
            0
        }
    }
}

/// How many frames were handed over, whether or not anybody took them.
pub open spec fn frames_delivered(step: DecodeStep, video_idx: usize, replies: Seq<Reply>) -> nat
    decreases replies.len(),
{
    if replies.len() == 0 {
        0
    } else {
        frames_delivered(step, video_idx, replies.drop_last()) + if step_after(
            step,
            video_idx,
            replies.drop_last(),
        ) is DeliverFrame {
            1nat
        } else {
            0
        }
    }
}

/// Over a whole run every frame that was received is scaled exactly once, and
/// every frame that was scaled is handed over exactly once. While the run goes
/// on, the one frame under way is still missing.
pub proof fn law_each_frame_is_delivered_once(video_idx: usize, replies: Seq<Reply>)
    ensures
        ({
            let first = DecodeStep::ReadPacket;
            let now = step_after(first, video_idx, replies);
            &&& frames_received(first, video_idx, replies) == frames_sent_to_scaler(
                first,
                video_idx,
                replies,
            ) + if now is ScaleFrame {
                1nat
            } else {
                0
            }
            &&& frames_scaled(first, video_idx, replies) == frames_delivered(
                first,
                video_idx,
                replies,
            ) + if now is DeliverFrame {
                1nat
            } else {
                0
            }
            &&& now is Finished ==> frames_received(first, video_idx, replies) == frames_delivered(
                first,
                video_idx,
                replies,
            )
        }),
    decreases replies.len(),
{
    if replies.len() > 0 {
        law_each_frame_is_delivered_once(video_idx, replies.drop_last());
    }
    lemma_only_a_failure_loses_a_frame(video_idx, replies);
}

/// As long as decoding has not failed, every frame that went into the scaler
/// came out of it.
proof fn lemma_only_a_failure_loses_a_frame(video_idx: usize, replies: Seq<Reply>)
    ensures
        !(step_after(DecodeStep::ReadPacket, video_idx, replies) is Failed) ==> frames_scaled(
            DecodeStep::ReadPacket,
            video_idx,
            replies,
        ) == frames_sent_to_scaler(DecodeStep::ReadPacket, video_idx, replies),
    decreases replies.len(),
{
    if replies.len() > 0 {
        lemma_only_a_failure_loses_a_frame(video_idx, replies.drop_last());
    }
}

/// Once the packets have run out none is read or sent again, so that the end
/// of the input is told to the decoder once.
pub proof fn law_no_packet_after_the_last(step: DecodeStep, video_idx: usize, replies: Seq<Reply>)
    requires
        step.is_past_packets(),
    ensures
        step_after(step, video_idx, replies).is_past_packets(),
        replies.len() > 0 ==> !(step_after(step, video_idx, replies) is SendEof),
    decreases replies.len(),
{
    if replies.len() > 0 {
        law_no_packet_after_the_last(step, video_idx, replies.drop_last());
    }
}

} // verus!
