use daq_monitor::statistic::Sample;
use daq_monitor::transport::Transport;

#[test]
fn take_before_any_publish_returns_nothing() {
    let mut channel: Transport<i64> = Transport::new();
    assert_eq!(channel.try_take(), None);
    assert_eq!(channel.try_take(), None);
}

#[test]
fn take_returns_the_published_value() {
    let mut channel: Transport<i64> = Transport::new();
    channel.publish(17);
    assert_eq!(channel.try_take(), Some(17));
}

#[test]
fn second_of_two_publishes_wins() {
    let block_a: Vec<Sample> = vec![1, 1, 1];
    let block_b: Vec<Sample> = vec![2, 2, 2];
    let mut channel: Transport<Vec<Sample>> = Transport::new();
    channel.publish(block_a.clone());
    channel.publish(block_b.clone());
    let taken = channel.try_take();
    assert_eq!(taken, Some(block_b));
    assert_ne!(taken, Some(block_a));
}

#[test]
fn a_value_is_delivered_only_once() {
    let mut channel: Transport<i64> = Transport::new();
    channel.publish(5);
    assert_eq!(channel.try_take(), Some(5));
    assert_eq!(channel.try_take(), None);
    assert_eq!(channel.try_take(), None);
}

#[test]
fn burst_of_publishes_leaves_only_the_newest() {
    let mut channel: Transport<u32> = Transport::new();
    for value in 0..1000u32 {
        channel.publish(value);
    }
    assert_eq!(channel.try_take(), Some(999));
    assert_eq!(channel.try_take(), None);
}

#[test]
fn takes_never_go_back_to_an_older_value() {
    let mut channel: Transport<u32> = Transport::new();
    let mut newest_seen: Option<u32> = None;
    let mut published: u32 = 0;
    for round in 0..50u32 {
        for _ in 0..(round % 4) {
            published += 1;
            channel.publish(published);
        }
        for _ in 0..(round % 3) {
            if let Some(value) = channel.try_take() {
                assert_eq!(value, published);
                if let Some(before) = newest_seen {
                    assert!(value > before);
                }
                newest_seen = Some(value);
            }
        }
    }
    assert!(newest_seen.is_some());
}

#[test]
fn publish_after_a_take_is_delivered_by_the_next_take() {
    let mut channel: Transport<i64> = Transport::new();
    channel.publish(1);
    assert_eq!(channel.try_take(), Some(1));
    channel.publish(2);
    channel.publish(3);
    assert_eq!(channel.try_take(), Some(3));
}

#[test]
fn block_comes_out_in_the_order_it_went_in() {
    let block: Vec<Sample> = vec![-3, 0, 7, 7, 2];
    let mut channel: Transport<Vec<Sample>> = Transport::new();
    channel.publish(block.clone());
    assert_eq!(channel.try_take(), Some(block));
}

#[test]
fn two_channels_are_independent() {
    let mut statistics: Transport<i64> = Transport::new();
    let mut blocks: Transport<Vec<Sample>> = Transport::new();
    statistics.publish(9);
    assert_eq!(blocks.try_take(), None);
    assert_eq!(statistics.try_take(), Some(9));
    blocks.publish(vec![4]);
    assert_eq!(statistics.try_take(), None);
    assert_eq!(blocks.try_take(), Some(vec![4]));
}

#[test]
fn peek_shows_what_the_next_take_delivers() {
    let mut channel: Transport<i64> = Transport::new();
    assert_eq!(channel.peek(), None);
    channel.publish(1);
    channel.publish(2);
    assert_eq!(channel.peek(), Some(&2));
    assert_eq!(channel.peek(), Some(&2));
    assert_eq!(channel.try_take(), Some(2));
    assert_eq!(channel.peek(), None);
}
