use daq_monitor::acquirer::{Acquirer, Reading};
use daq_monitor::presenter::{Phase, Presenter};
use daq_monitor::statistic::{mean, Sample, Statistic, UNITS_PER_VOLT};
use daq_monitor::transport::Transport;

fn channels() -> (Transport<Statistic>, Transport<Vec<Sample>>) {
    (Transport::new(), Transport::new())
}

fn level(value: Sample) -> Statistic {
    mean(&[value])
}

fn shown(presenter: &Presenter) -> (Statistic, Vec<Sample>, Phase) {
    (presenter.statistic(), presenter.block().to_vec(), presenter.phase())
}

#[test]
fn new_presenter_shows_zeros() {
    let presenter = Presenter::new(100);
    assert_eq!(presenter.statistic(), Statistic::zero());
    assert_eq!(presenter.statistic().sum(), 0);
    assert_eq!(presenter.block(), vec![0; 100]);
    assert_eq!(presenter.phase(), Phase::NoDataYet);
}

#[test]
fn new_presenter_for_empty_blocks_shows_an_empty_block() {
    let presenter = Presenter::new(0);
    assert_eq!(presenter.statistic(), Statistic::zero());
    assert!(presenter.block().is_empty());
    assert_eq!(presenter.phase(), Phase::NoDataYet);
}

#[test]
fn tick_with_nothing_published_changes_nothing() {
    let (mut statistics, mut blocks) = channels();
    let mut presenter = Presenter::new(4);
    let before = shown(&presenter);
    presenter.tick(&mut statistics, &mut blocks);
    assert_eq!(shown(&presenter), before);
    assert_eq!(presenter.phase(), Phase::NoDataYet);
}

#[test]
fn two_ticks_without_a_publish_between_them_show_the_same() {
    let (mut statistics, mut blocks) = channels();
    let mut presenter = Presenter::new(3);
    statistics.publish(level(12));
    blocks.publish(vec![11, 12, 13]);
    presenter.tick(&mut statistics, &mut blocks);
    let after_first = shown(&presenter);
    presenter.tick(&mut statistics, &mut blocks);
    assert_eq!(shown(&presenter), after_first);
    assert_eq!(after_first, (level(12), vec![11, 12, 13], Phase::Live));
}

#[test]
fn tick_shows_the_newest_of_each_channel() {
    let (mut statistics, mut blocks) = channels();
    let mut presenter = Presenter::new(2);
    statistics.publish(level(1));
    blocks.publish(vec![1, 1]);
    statistics.publish(level(2));
    blocks.publish(vec![2, 2]);
    presenter.tick(&mut statistics, &mut blocks);
    assert_eq!(shown(&presenter), (level(2), vec![2, 2], Phase::Live));
}

#[test]
fn statistic_alone_replaces_only_the_statistic() {
    let (mut statistics, mut blocks) = channels();
    let mut presenter = Presenter::new(3);
    statistics.publish(level(-8));
    presenter.tick(&mut statistics, &mut blocks);
    assert_eq!(shown(&presenter), (level(-8), vec![0, 0, 0], Phase::Live));
}

#[test]
fn block_alone_replaces_only_the_block() {
    let (mut statistics, mut blocks) = channels();
    let mut presenter = Presenter::new(3);
    blocks.publish(vec![4, 5, 6]);
    presenter.tick(&mut statistics, &mut blocks);
    assert_eq!(shown(&presenter), (Statistic::zero(), vec![4, 5, 6], Phase::Live));
}

#[test]
fn statistic_and_block_may_arrive_on_different_ticks() {
    let (mut statistics, mut blocks) = channels();
    let mut presenter = Presenter::new(2);
    blocks.publish(vec![10, 20]);
    presenter.tick(&mut statistics, &mut blocks);
    assert_eq!(shown(&presenter), (Statistic::zero(), vec![10, 20], Phase::Live));
    statistics.publish(mean(&[10, 20]));
    presenter.tick(&mut statistics, &mut blocks);
    assert_eq!(shown(&presenter), (mean(&[10, 20]), vec![10, 20], Phase::Live));
}

#[test]
fn display_stays_live_when_data_stops_arriving() {
    let (mut statistics, mut blocks) = channels();
    let mut presenter = Presenter::new(1);
    statistics.publish(level(3));
    presenter.tick(&mut statistics, &mut blocks);
    for _ in 0..10 {
        presenter.tick(&mut statistics, &mut blocks);
        assert_eq!(shown(&presenter), (level(3), vec![0], Phase::Live));
    }
}

#[test]
fn tick_empties_both_channels() {
    let (mut statistics, mut blocks) = channels();
    let mut presenter = Presenter::new(1);
    statistics.publish(level(3));
    blocks.publish(vec![3]);
    presenter.tick(&mut statistics, &mut blocks);
    assert_eq!(statistics.try_take(), None);
    assert_eq!(blocks.try_take(), None);
}

#[test]
fn merge_keeps_what_did_not_arrive() {
    let mut presenter = Presenter::new(2);
    presenter.merge(None, None);
    assert_eq!(shown(&presenter), (Statistic::zero(), vec![0, 0], Phase::NoDataYet));
    presenter.merge(Some(level(5)), None);
    assert_eq!(shown(&presenter), (level(5), vec![0, 0], Phase::Live));
    presenter.merge(None, Some(vec![1, 9]));
    assert_eq!(shown(&presenter), (level(5), vec![1, 9], Phase::Live));
    presenter.merge(None, None);
    assert_eq!(shown(&presenter), (level(5), vec![1, 9], Phase::Live));
    presenter.merge(Some(level(6)), Some(vec![2, 10]));
    assert_eq!(shown(&presenter), (level(6), vec![2, 10], Phase::Live));
}

#[test]
fn shown_block_keeps_its_length_over_a_run() {
    let (mut statistics, mut blocks) = channels();
    let mut acquirer = Acquirer::start(4, true).unwrap();
    let mut presenter = Presenter::new(4);
    for cycle in 0..6i64 {
        assert_eq!(presenter.block().len(), 4);
        let frame = acquirer.on_read(Reading::Samples(vec![cycle; 4])).unwrap();
        frame.publish(&mut statistics, &mut blocks);
        if cycle % 2 == 1 {
            presenter.tick(&mut statistics, &mut blocks);
        }
    }
    assert_eq!(presenter.block(), vec![5; 4]);
}

#[test]
fn display_never_goes_back_while_publishes_and_ticks_interleave() {
    let (mut statistics, mut blocks) = channels();
    let mut presenter = Presenter::new(1);
    let mut published: i64 = 0;
    let mut newest_shown: i64 = 0;
    for round in 0..60i64 {
        for _ in 0..(round % 3) {
            published += 1;
            statistics.publish(level(published));
            if published % 2 == 0 {
                blocks.publish(vec![published]);
            }
        }
        if round % 2 == 0 {
            let unread = statistics.peek().is_some();
            presenter.tick(&mut statistics, &mut blocks);
            let now_shown = presenter.statistic().sum() as i64;
            assert!(now_shown >= newest_shown);
            if unread {
                assert_eq!(now_shown, published);
            } else {
                assert_eq!(now_shown, newest_shown);
            }
            assert!(presenter.block()[0] <= published);
            newest_shown = now_shown;
        }
    }
    assert!(newest_shown > 0);
}

#[test]
fn displayed_block_keeps_the_order_of_the_read() {
    let (mut statistics, mut blocks) = channels();
    let mut acquirer = Acquirer::start(5, true).unwrap();
    let mut presenter = Presenter::new(5);
    let read: Vec<Sample> = vec![5, 4, 3, 2, 1];
    let frame = acquirer.on_read(Reading::Samples(read.clone())).unwrap();
    frame.publish(&mut statistics, &mut blocks);
    presenter.tick(&mut statistics, &mut blocks);
    assert_eq!(presenter.block(), read);
    assert_eq!(presenter.block()[0], 5);
    assert_eq!((presenter.statistic().sum(), presenter.statistic().count()), (15, 5));
}

#[test]
fn slow_presenter_sees_the_latest_acquisition() {
    let (mut statistics, mut blocks) = channels();
    let mut acquirer = Acquirer::start(100, true).unwrap();
    let mut presenter = Presenter::new(100);
    for cycle in 0..25i64 {
        let level = cycle * (UNITS_PER_VOLT / 10);
        let frame = acquirer.on_read(Reading::Samples(vec![level; 100])).unwrap();
        frame.publish(&mut statistics, &mut blocks);
    }
    presenter.tick(&mut statistics, &mut blocks);
    let statistic = presenter.statistic();
    assert_eq!(statistic.sum(), 240_000_000_000);
    assert_eq!(statistic.count(), 100);
    assert_eq!(statistic.sum() as f64 / statistic.count() as f64 / UNITS_PER_VOLT as f64, 2.4);
    assert_eq!(presenter.block(), vec![2_400_000_000; 100]);
    assert_eq!(presenter.phase(), Phase::Live);
}
