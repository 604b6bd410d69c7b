//! The presentation side: merging what the channels deliver into what is
//! shown.
//!
//! Once per display refresh the [`Presenter`] takes from both channels
//! without waiting. Whatever arrived replaces what was shown; whatever did
//! not arrive stays as it was.

use crate::statistic::{Mean, Sample, Statistic};
use crate::transport::{
    latest, lemma_position_is_of_a_published_value, lemma_position_never_regresses,
    lemma_published_grows, lemma_take_delivers_newest_published, position, published, unread,
    Event, Transport,
};
use vstd::prelude::*;

verus! {

/// Whether anything has been received yet.
#[derive(Debug, Clone, Copy, PartialEq, Eq)]
pub enum Phase {
    /// Nothing has been taken from either channel: the display shows its
    /// defaults.
    NoDataYet,
    /// A statistic or a block has been taken at least once.
    Live,
}

/// What the presenter shows.
#[verifier::ext_equal]
pub struct DisplayState {
    /// The statistic received last, or zero before the first arrives.
    pub statistic: Mean,
    /// The block received last, oldest sample first, or a block of zeros
    /// before the first arrives.
    pub block: Seq<Sample>,
    pub phase: Phase,
}

impl DisplayState {
    /// The display before anything is received, for blocks of `block_size`
    /// samples.
    pub open spec fn initial(block_size: nat) -> DisplayState {
        DisplayState {
            statistic: Mean { total: 0, count: 1 },
            block: Seq::new(block_size, |i: int| 0i64),
            phase: Phase::NoDataYet,
        }
    }

    /// The display after a refresh on which `statistic` and `block` were
    /// taken from their channels. Each replaces what was shown if it is
    /// there, independently of the other.
    pub open spec fn merged(
        self,
        statistic: Option<Statistic>,
        block: Option<Vec<Sample>>,
    ) -> DisplayState {
        DisplayState {
            statistic: match statistic {
                Some(fresh) => fresh@,
                None => self.statistic,
            },
            block: match block {
                Some(fresh) => fresh@,
                None => self.block,
            },
            phase: if statistic is Some || block is Some {
                Phase::Live
            } else {
                self.phase
            },
        }
    }

    /// The display after a refresh that found the backlogs `statistics` and
    /// `blocks` on the two channels.
    pub open spec fn ticked(
        self,
        statistics: Seq<Statistic>,
        blocks: Seq<Vec<Sample>>,
    ) -> DisplayState {
        self.merged(latest(statistics), latest(blocks))
    }
}

/// A block that arrives, if one does, has as many samples as the block on
/// display.
pub open spec fn fits(display: DisplayState, block: Option<Vec<Sample>>) -> bool {
    match block {
        Some(fresh) => fresh@.len() == display.block.len(),
        None => true,
    }
}

/// The consumer of the two channels and owner of what is displayed.
pub struct Presenter {
    statistic: Statistic,
    block: Vec<Sample>,
    phase: Phase,
}

impl View for Presenter {
    type V = DisplayState;

    closed spec fn view(&self) -> DisplayState {
        DisplayState { statistic: self.statistic@, block: self.block@, phase: self.phase }
    }
}

impl Presenter {
    /// Creates a presenter that shows a zero statistic and a block of
    /// `block_size` zeros.
    pub fn new(block_size: usize) -> (presenter: Self)
        ensures
            presenter@ == DisplayState::initial(block_size as nat),
    {
        let mut block: Vec<Sample> = Vec::new();
        let mut filled: usize = 0;
        while filled < block_size
            invariant
                filled <= block_size,
                block@.len() == filled,
                forall|i: int| 0 <= i < filled ==> block@[i] == 0,
            decreases block_size - filled,
        {
            block.push(0);
            filled = filled + 1;
        }
        assert(block@ =~= DisplayState::initial(block_size as nat).block);
        Presenter { statistic: Statistic::zero(), block, phase: Phase::NoDataYet }
    }

    /// The statistic on display.
    pub fn statistic(&self) -> (statistic: Statistic)
        ensures
            statistic@ == self@.statistic,
    {
        self.statistic
    }

    /// The block on display, oldest sample first.
    pub fn block(&self) -> (block: &[Sample])
        ensures
            block@ == self@.block,
    {
        self.block.as_slice()
    }

    /// Whether anything has been received yet.
    pub fn phase(&self) -> (phase: Phase)
        ensures
            phase == self@.phase,
    {
        self.phase
    }

    /// Merges what was taken from the channels into the display. A block
    /// that arrives has the length of the one it replaces: the block size is
    /// the same for a whole run.
    pub fn merge(&mut self, statistic: Option<Statistic>, block: Option<Vec<Sample>>)
        requires
            fits(old(self)@, block),
        ensures
            final(self)@ == old(self)@.merged(statistic, block),
            final(self)@.block.len() == old(self)@.block.len(),
    {
        if let Some(fresh) = statistic {
            self.statistic = fresh;
            self.phase = Phase::Live;
        }
        if let Some(fresh) = block {
            self.block = fresh;
            self.phase = Phase::Live;
        }
    }

    /// Performs the work of one display refresh: takes the newest statistic
    /// and the newest block, if any arrived since the last refresh, and
    /// merges them into the display. Never waits.
    pub fn tick(
        &mut self,
        statistics: &mut Transport<Statistic>,
        blocks: &mut Transport<Vec<Sample>>,
    )
        requires
            fits(old(self)@, latest(old(blocks)@)),
        ensures
            final(self)@ == old(self)@.ticked(old(statistics)@, old(blocks)@),
            final(self)@.block.len() == old(self)@.block.len(),
            final(statistics)@ == Seq::<Statistic>::empty(),
            final(blocks)@ == Seq::<Vec<Sample>>::empty(),
    {
        let statistic = statistics.try_take();
        let block = blocks.try_take();
        self.merge(statistic, block);
    }
}

/// A refresh that finds nothing published leaves the display as it was.
pub proof fn lemma_tick_without_data_changes_nothing(display: DisplayState)
    ensures
        display.ticked(Seq::empty(), Seq::empty()) == display,
{
}

/// Of two refreshes with no publish between them, the second leaves the
/// display as the first made it: the first emptied both channels.
pub proof fn lemma_second_tick_changes_nothing(
    display: DisplayState,
    statistics: Seq<Statistic>,
    blocks: Seq<Vec<Sample>>,
)
    ensures
        display.ticked(statistics, blocks).ticked(Seq::empty(), Seq::empty()) == display.ticked(
            statistics,
            blocks,
        ),
{
}

/// A refresh after a block and its statistic were published shows them,
/// whatever was displayed before and whatever older values were still unread.
pub proof fn lemma_tick_shows_what_was_published_last(
    display: DisplayState,
    statistics: Seq<Statistic>,
    blocks: Seq<Vec<Sample>>,
    statistic: Statistic,
    block: Vec<Sample>,
)
    ensures
        display.ticked(statistics.push(statistic), blocks.push(block)) == (DisplayState {
            statistic: statistic@,
            block: block@,
            phase: Phase::Live,
        }),
{
}

/// Once live, the display stays live, whatever a refresh finds.
pub proof fn lemma_live_display_stays_live(
    display: DisplayState,
    statistics: Seq<Statistic>,
    blocks: Seq<Vec<Sample>>,
)
    requires
        display.phase == Phase::Live,
    ensures
        display.ticked(statistics, blocks).phase == Phase::Live,
{
}

/// One step in the life of a presenter and its two channels.
pub enum Step {
    PublishStatistic(Statistic),
    PublishBlock(Vec<Sample>),
    Tick,
}

/// A presenter's display together with the backlogs of its two channels.
pub struct Pipeline {
    pub display: DisplayState,
    pub statistics: Seq<Statistic>,
    pub blocks: Seq<Vec<Sample>>,
}

impl Pipeline {
    /// The pipeline after one step: a publish extends its channel's backlog,
    /// a refresh merges the newest of each backlog into the display and
    /// empties both.
    pub open spec fn after(self, step: Step) -> Pipeline {
        match step {
            Step::PublishStatistic(statistic) => Pipeline {
                statistics: self.statistics.push(statistic),
                ..self
            },
            Step::PublishBlock(block) => Pipeline { blocks: self.blocks.push(block), ..self },
            Step::Tick => Pipeline {
                display: self.display.ticked(self.statistics, self.blocks),
                statistics: Seq::empty(),
                blocks: Seq::empty(),
            },
        }
    }

    /// The pipeline after a run of steps, in order.
    pub open spec fn after_all(self, steps: Seq<Step>) -> Pipeline
        decreases steps.len(),
    {
        if steps.len() == 0 {
            self
        } else {
            self.after_all(steps.drop_last()).after(steps.last())
        }
    }
}

/// A run as the statistics channel sees it: its publishes, and a take for
/// every refresh.
pub open spec fn statistic_events(steps: Seq<Step>) -> Seq<Event<Statistic>>
    decreases steps.len(),
{
    if steps.len() == 0 {
        Seq::empty()
    } else {
        match steps.last() {
            Step::PublishStatistic(statistic) => statistic_events(steps.drop_last()).push(
                Event::Publish(statistic),
            ),
            Step::PublishBlock(_) => statistic_events(steps.drop_last()),
            Step::Tick => statistic_events(steps.drop_last()).push(Event::Take),
        }
    }
}

/// A run as the blocks channel sees it: its publishes, and a take for every
/// refresh.
pub open spec fn block_events(steps: Seq<Step>) -> Seq<Event<Vec<Sample>>>
    decreases steps.len(),
{
    if steps.len() == 0 {
        Seq::empty()
    } else {
        match steps.last() {
            Step::PublishStatistic(_) => block_events(steps.drop_last()),
            Step::PublishBlock(block) => block_events(steps.drop_last()).push(
                Event::Publish(block),
            ),
            Step::Tick => block_events(steps.drop_last()).push(Event::Take),
        }
    }
}

/// The statistic on display when the consumer is at position `at` of the
/// statistics published so far: the one shown at the start for position
/// zero, else the one published as number `at`.
pub open spec fn statistic_at(shown_at_start: Mean, so_far: Seq<Statistic>, at: nat) -> Mean {
    if at == 0 {
        shown_at_start
    } else {
        so_far[at - 1]@
    }
}

/// The block on display when the consumer is at position `at` of the blocks
/// published so far.
pub open spec fn block_at(
    shown_at_start: Seq<Sample>,
    so_far: Seq<Vec<Sample>>,
    at: nat,
) -> Seq<Sample> {
    if at == 0 {
        shown_at_start
    } else {
        so_far[at - 1]@
    }
}

/// However publishes and refreshes interleave, starting from empty channels,
/// the display shows of each kind the value at its channel's position: what
/// it showed at the start until a refresh finds a value, and from then on a
/// value that was published, the newest there was at the last refresh that
/// found one.
pub proof fn lemma_display_follows_position(start: Pipeline, steps: Seq<Step>)
    requires
        start.statistics.len() == 0,
        start.blocks.len() == 0,
    ensures
        start.after_all(steps).statistics == unread(statistic_events(steps)),
        start.after_all(steps).blocks == unread(block_events(steps)),
        start.after_all(steps).display.statistic == statistic_at(
            start.display.statistic,
            published(statistic_events(steps)),
            position(statistic_events(steps)),
        ),
        start.after_all(steps).display.block == block_at(
            start.display.block,
            published(block_events(steps)),
            position(block_events(steps)),
        ),
    decreases steps.len(),
{
    if steps.len() == 0 {
        assert(start.statistics =~= unread(statistic_events(steps)));
        assert(start.blocks =~= unread(block_events(steps)));
    } else {
        let before = steps.drop_last();
        lemma_display_follows_position(start, before);
        let statistics = statistic_events(before);
        let blocks = block_events(before);
        lemma_position_is_of_a_published_value(statistics);
        lemma_position_is_of_a_published_value(blocks);
        lemma_take_delivers_newest_published(statistics);
        lemma_take_delivers_newest_published(blocks);
        match steps.last() {
            Step::PublishStatistic(statistic) => {
                let events = statistics.push(Event::Publish(statistic));
                assert(events.drop_last() =~= statistics);
            },
            Step::PublishBlock(block) => {
                let events = blocks.push(Event::Publish(block));
                assert(events.drop_last() =~= blocks);
            },
            Step::Tick => {
                let statistics_then = statistics.push(Event::Take);
                let blocks_then = blocks.push(Event::Take);
                assert(statistics_then.drop_last() =~= statistics);
                assert(blocks_then.drop_last() =~= blocks);
            },
        }
    }
}

/// A run as either channel sees it goes on as the run goes on.
pub proof fn lemma_events_grow(earlier: Seq<Step>, later: Seq<Step>)
    ensures
        statistic_events(earlier + later) == statistic_events(earlier) + statistic_events(later),
        block_events(earlier + later) == block_events(earlier) + block_events(later),
    decreases later.len(),
{
    if later.len() == 0 {
        assert(earlier + later =~= earlier);
        assert(statistic_events(earlier) + statistic_events(later) =~= statistic_events(earlier));
        assert(block_events(earlier) + block_events(later) =~= block_events(earlier));
    } else {
        lemma_events_grow(earlier, later.drop_last());
        assert((earlier + later).drop_last() =~= earlier + later.drop_last());
        assert((earlier + later).last() == later.last());
        let statistics = statistic_events(earlier) + statistic_events(later.drop_last());
        let blocks = block_events(earlier) + block_events(later.drop_last());
        match later.last() {
            Step::PublishStatistic(statistic) => {
                assert(statistic_events(earlier) + statistic_events(later) =~= statistics.push(
                    Event::Publish(statistic),
                ));
            },
            Step::PublishBlock(block) => {
                assert(block_events(earlier) + block_events(later) =~= blocks.push(
                    Event::Publish(block),
                ));
            },
            Step::Tick => {
                assert(statistic_events(earlier) + statistic_events(later) =~= statistics.push(
                    Event::Take,
                ));
                assert(block_events(earlier) + block_events(later) =~= blocks.push(Event::Take));
            },
        }
    }
}

/// However publishes and refreshes interleave, the display never goes back:
/// as a run goes on, what is shown of each kind is replaced only by a value
/// published later on that kind's channel, and what was published keeps its
/// place in the order.
pub proof fn lemma_display_never_regresses(earlier: Seq<Step>, later: Seq<Step>)
    ensures
        position(statistic_events(earlier)) <= position(statistic_events(earlier + later)),
        position(block_events(earlier)) <= position(block_events(earlier + later)),
        published(statistic_events(earlier + later)) == published(statistic_events(earlier))
            + published(statistic_events(later)),
        published(block_events(earlier + later)) == published(block_events(earlier)) + published(
            block_events(later),
        ),
{
    lemma_events_grow(earlier, later);
    lemma_position_never_regresses(statistic_events(earlier), statistic_events(later));
    lemma_position_never_regresses(block_events(earlier), block_events(later));
    lemma_published_grows(statistic_events(earlier), statistic_events(later));
    lemma_published_grows(block_events(earlier), block_events(later));
}

/// Every block in `blocks` has `size` samples.
pub open spec fn all_of_size(blocks: Seq<Vec<Sample>>, size: nat) -> bool {
    forall|i: int| 0 <= i < blocks.len() ==> (#[trigger] blocks[i])@.len() == size
}

/// When every block that is published has as many samples as the block on
/// display, every refresh finds a block that fits, if it finds one, and the
/// block on display keeps its length for the whole run.
pub proof fn lemma_block_size_is_kept(start: Pipeline, steps: Seq<Step>, size: nat)
    requires
        start.display.block.len() == size,
        all_of_size(start.blocks, size),
        all_of_size(published(block_events(steps)), size),
    ensures
        start.after_all(steps).display.block.len() == size,
        all_of_size(start.after_all(steps).blocks, size),
        fits(start.after_all(steps).display, latest(start.after_all(steps).blocks)),
    decreases steps.len(),
{
    if steps.len() > 0 {
        let before = steps.drop_last();
        let so_far = published(block_events(before));
        let all = published(block_events(steps));
        assert(all_of_size(so_far, size)) by {
            assert forall|i: int| 0 <= i < so_far.len() implies (#[trigger] so_far[i])@.len()
                == size by {
                match steps.last() {
                    Step::PublishBlock(block) => {
                        let events = block_events(before).push(Event::Publish(block));
                        assert(events.drop_last() =~= block_events(before));
                        assert(all[i] == so_far[i]);
                    },
                    Step::PublishStatistic(_) => {},
                    Step::Tick => {
                        let events = block_events(before).push(Event::Take);
                        assert(events.drop_last() =~= block_events(before));
                    },
                }
            }
        }
        lemma_block_size_is_kept(start, before, size);
        match steps.last() {
            Step::PublishBlock(block) => {
                let events = block_events(before).push(Event::Publish(block));
                assert(events.drop_last() =~= block_events(before));
                assert(all.last() == block);
            },
            Step::PublishStatistic(_) => {},
            Step::Tick => {},
        }
    }
}

} // verus!
