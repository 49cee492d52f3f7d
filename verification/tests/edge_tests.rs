use endless_server::acceptor::{AcceptAction, Acceptor, AcceptorPhase, Incoming, StartAction};
use endless_server::config::{sleep_millis, Config, MAX_CAPACITY};
use endless_server::egress::{goes_on_after_write, on_delivery, Delivery, EgressAction};
use endless_server::grid::{
    grid_range_end, grid_range_start, indices_for_index, keep_uneven,
    next_highest_uneven_number, number_of_squares, SQUARE_SIZE,
};

#[test]
fn standard_settings() {
    let config = Config::default();
    assert_eq!(
        config,
        Config {
            port: 3001,
            ticks_per_second: 30,
            displacement: 100,
            ingress_capacity: 512,
            broadcast_capacity: 1024,
        }
    );
    assert!(config.is_valid());
    assert_eq!(config.tick_period_millis(), 33);
}

#[test]
fn tick_period_is_a_whole_number_of_milliseconds() {
    let mut config = Config::default();
    for (rate, millis) in [(1u8, 1000u64), (2, 500), (3, 333), (60, 16), (64, 15), (255, 3)] {
        config.ticks_per_second = rate;
        assert_eq!(config.tick_period_millis(), millis);
    }
}

#[test]
fn settings_are_checked() {
    assert_eq!(
        Config::new(80, 1, 0, 1, 1),
        Some(Config {
            port: 80,
            ticks_per_second: 1,
            displacement: 0,
            ingress_capacity: 1,
            broadcast_capacity: 1,
        })
    );
    assert!(Config::new(80, 255, u32::MAX, MAX_CAPACITY, MAX_CAPACITY).is_some());
    assert_eq!(Config::new(80, 0, 1, 1, 1), None);
    assert_eq!(Config::new(80, 1, 1, 0, 1), None);
    assert_eq!(Config::new(80, 1, 1, 1, 0), None);
    assert_eq!(Config::new(80, 1, 1, MAX_CAPACITY + 1, 1), None);
    assert_eq!(Config::new(80, 1, 1, 1, MAX_CAPACITY + 1), None);
    assert_eq!(Config::new(80, 1, 1, usize::MAX, 1), None);
}

#[test]
fn sleep_is_the_rest_of_the_period() {
    assert_eq!(sleep_millis(33, 0), 33);
    assert_eq!(sleep_millis(33, 10), 23);
    assert_eq!(sleep_millis(33, 32), 1);
}

#[test]
fn an_overrun_tick_is_followed_at_once() {
    assert_eq!(sleep_millis(33, 33), 0);
    assert_eq!(sleep_millis(33, 34), 0);
    assert_eq!(sleep_millis(33, 5000), 0);
    assert_eq!(sleep_millis(0, 0), 0);
    assert_eq!(sleep_millis(u64::MAX, u64::MAX), 0);
    assert_eq!(sleep_millis(u64::MAX, 0), u64::MAX);
}

#[test]
fn a_snapshot_is_written_as_it_is() {
    assert_eq!(
        on_delivery(Delivery::Snapshot(b"3=1:0,0;".to_vec())),
        EgressAction::Write(b"3=1:0,0;".to_vec())
    );
    assert_eq!(on_delivery(Delivery::Snapshot(vec![])), EgressAction::Write(vec![]));
}

#[test]
fn a_lag_is_reported_and_the_subscriber_stays() {
    assert_eq!(on_delivery(Delivery::Lagged(8)), EgressAction::ReportLag(8));
    assert_eq!(on_delivery(Delivery::Lagged(u64::MAX)), EgressAction::ReportLag(u64::MAX));
}

#[test]
fn a_closed_stream_ends_the_egress_task() {
    assert_eq!(on_delivery(Delivery::StreamClosed), EgressAction::Stop);
}

#[test]
fn a_failed_write_ends_the_egress_task() {
    assert!(goes_on_after_write(true));
    assert!(!goes_on_after_write(false));
}

#[test]
fn egress_writes_snapshots_in_the_order_of_delivery() {
    let deliveries = vec![
        Delivery::Snapshot(b"0=".to_vec()),
        Delivery::Lagged(3),
        Delivery::Snapshot(b"4=".to_vec()),
        Delivery::Snapshot(b"5=".to_vec()),
        Delivery::StreamClosed,
        Delivery::Snapshot(b"6=".to_vec()),
    ];
    let mut written: Vec<Vec<u8>> = vec![];
    let mut skipped: u64 = 0;
    for delivery in deliveries {
        match on_delivery(delivery) {
            EgressAction::Write(bytes) => written.push(bytes),
            EgressAction::ReportLag(missed) => skipped += missed,
            EgressAction::Stop => break,
        }
    }
    assert_eq!(written, vec![b"0=".to_vec(), b"4=".to_vec(), b"5=".to_vec()]);
    assert_eq!(skipped, 3);
}

#[test]
fn acceptor_serves_once_the_endpoint_is_bound() {
    let mut acceptor = Acceptor::new();
    assert_eq!(acceptor.phase(), AcceptorPhase::Starting);
    assert_eq!(acceptor.on_bind(true), StartAction::Serve);
    assert_eq!(acceptor.phase(), AcceptorPhase::Accepting);
    assert_eq!(acceptor.on_incoming(Incoming::Established), AcceptAction::SpawnPair);
}

#[test]
fn a_failed_bind_is_fatal() {
    let mut acceptor = Acceptor::new();
    assert_eq!(acceptor.on_bind(false), StartAction::Abort);
    assert_eq!(acceptor.phase(), AcceptorPhase::Failed);
    assert_eq!(acceptor.on_incoming(Incoming::Established), AcceptAction::Refuse);
    assert_eq!(acceptor.on_bind(true), StartAction::Abort);
    assert_eq!(acceptor.phase(), AcceptorPhase::Failed);
}

#[test]
fn an_acceptor_that_has_not_bound_refuses_connections() {
    let acceptor = Acceptor::new();
    assert_eq!(acceptor.on_incoming(Incoming::Established), AcceptAction::Refuse);
    assert_eq!(acceptor.on_incoming(Incoming::AcceptFailed), AcceptAction::Refuse);
}

#[test]
fn a_failed_connection_does_not_stop_the_acceptor() {
    let mut acceptor = Acceptor::new();
    acceptor.on_bind(true);
    assert_eq!(acceptor.on_incoming(Incoming::AcceptFailed), AcceptAction::Skip);
    assert_eq!(acceptor.on_incoming(Incoming::HandshakeFailed), AcceptAction::Skip);
    assert_eq!(acceptor.phase(), AcceptorPhase::Accepting);
    assert_eq!(acceptor.on_incoming(Incoming::Established), AcceptAction::SpawnPair);
    assert_eq!(acceptor.on_bind(false), StartAction::Serve);
    assert_eq!(acceptor.phase(), AcceptorPhase::Accepting);
}

#[test]
fn keep_uneven_returns_the_next_odd_number() {
    assert_eq!(keep_uneven(0), 1);
    assert_eq!(keep_uneven(1), 1);
    assert_eq!(keep_uneven(2), 3);
    assert_eq!(keep_uneven(7), 7);
    assert_eq!(keep_uneven(u32::MAX - 1), u32::MAX);
    assert_eq!(keep_uneven(u32::MAX), u32::MAX);
}

#[test]
fn number_of_squares_covers_the_edge_with_an_odd_count() {
    assert_eq!(SQUARE_SIZE, 96);
    assert_eq!(number_of_squares(0), 1);
    assert_eq!(number_of_squares(1), 1);
    assert_eq!(number_of_squares(96), 1);
    assert_eq!(number_of_squares(97), 3);
    assert_eq!(number_of_squares(192), 3);
    assert_eq!(number_of_squares(288), 3);
    assert_eq!(number_of_squares(289), 5);
    assert_eq!(number_of_squares(960), 11);
    assert_eq!(number_of_squares(1024), 11);
    assert_eq!(number_of_squares(1920), 21);
}

#[test]
fn number_of_squares_agrees_with_rounding_up_in_floating_point() {
    for parameter in (0u32..20000).chain([65535, 65536, 1 << 20, (1 << 24) - 1]) {
        let ceiled = ((parameter as f32) / 96.0).ceil() as u32;
        let expected = if ceiled % 2 == 0 { ceiled + 1 } else { ceiled };
        assert_eq!(number_of_squares(parameter), expected, "{}", parameter);
    }
}

#[test]
fn number_of_squares_at_the_largest_edge() {
    assert_eq!(number_of_squares(u32::MAX), 44739243);
    assert_eq!(number_of_squares(u32::MAX - 95), 44739243);
}

#[test]
fn indices_name_the_two_triangles_of_a_square() {
    assert_eq!(indices_for_index(0, 4), vec![0, 1, 3, 1, 2, 3]);
    assert_eq!(indices_for_index(1, 4), vec![4, 5, 7, 5, 6, 7]);
    assert_eq!(indices_for_index(2, 4), vec![8, 9, 11, 9, 10, 11]);
    assert_eq!(indices_for_index(5, 0), vec![0, 1, 3, 1, 2, 3]);
    assert_eq!(indices_for_index(16383, 4), vec![65532, 65533, 65535, 65533, 65534, 65535]);
}

#[test]
fn next_highest_uneven_number_skips_to_the_odd_number_after_next() {
    assert_eq!(next_highest_uneven_number(0), 3);
    assert_eq!(next_highest_uneven_number(1), 3);
    assert_eq!(next_highest_uneven_number(2), 5);
    assert_eq!(next_highest_uneven_number(11), 13);
    assert_eq!(next_highest_uneven_number(u32::MAX - 3), u32::MAX);
}

#[test]
fn grid_range_is_centred_on_square_zero() {
    assert_eq!(grid_range_start(0), 0);
    assert_eq!(grid_range_end(0), 1);
    assert_eq!(grid_range_start(1), 0);
    assert_eq!(grid_range_end(1), 1);
    assert_eq!(grid_range_start(5), -2);
    assert_eq!(grid_range_end(5), 3);
    assert_eq!(grid_range_start(6), -3);
    assert_eq!(grid_range_end(6), 4);
    assert_eq!(grid_range_start(u32::MAX), -2147483647);
    assert_eq!(grid_range_end(u32::MAX - 2), 2147483647);
}

#[test]
fn grid_range_of_an_odd_count_holds_that_many_squares() {
    for count in [1u32, 3, 5, 11, 21, 1001] {
        let squares = (grid_range_start(count)..grid_range_end(count)).count();
        assert_eq!(squares, count as usize);
    }
}

#[test]
fn grid_range_agrees_with_rounding_in_floating_point() {
    for count in 0u32..5000 {
        let start = ((-1.0 * count as f32) / 2.0).ceil() as i32;
        let end = (count as f32 / 2.0).floor() as i32 + 1;
        assert_eq!(grid_range_start(count), start);
        assert_eq!(grid_range_end(count), end);
    }
}
