use tarangam::channel::MessageQueue;
use tarangam::config::{Config, LinkState};
use tarangam::messages::{Message, MsgKind};
use tarangam::parse::Sample;
use tarangam::send::plan_send;
use tarangam::series::SeriesAggregator;
use tarangam::worker::{idle_delay_nanos, open_finished, worker_step, WorkerCmd};

fn sample(name: &[u8], value: &[u8]) -> Sample {
    Sample { name: name.to_vec(), value: value.to_vec() }
}

fn value_of(agg: &SeriesAggregator, series: usize, point: usize) -> (u64, f64) {
    let p = &agg.series_points(series)[point];
    (p.tick, std::str::from_utf8(&p.value).unwrap().parse::<f64>().unwrap())
}

#[test]
fn config_defaults() {
    let c = Config::new();
    assert!(matches!(c.state, LinkState::Stopped));
    assert_eq!(c.baud_rate, 9600);
    assert!(c.port_name.is_empty());
}

#[test]
fn activate_then_tick_with_good_open_reaches_active() {
    let mut c = Config::new();
    c.set_port(b"/dev/ttyUSB0".to_vec());
    c.set_baud(115200);
    c.activate();
    assert!(matches!(c.state, LinkState::Reconfiguring));
    match worker_step(&mut c) {
        WorkerCmd::Open { port, baud } => {
            assert_eq!(port, b"/dev/ttyUSB0".to_vec());
            assert_eq!(baud, 115200);
        },
        _ => panic!("a reconfiguring tick must try to open"),
    }
    open_finished(&mut c, true);
    assert!(matches!(c.state, LinkState::Active));
    assert!(matches!(worker_step(&mut c), WorkerCmd::ReadLine));
}

#[test]
fn failed_open_stays_reconfiguring_and_retries() {
    let mut c = Config::new();
    c.activate();
    assert!(matches!(worker_step(&mut c), WorkerCmd::Open { .. }));
    open_finished(&mut c, false);
    assert!(matches!(c.state, LinkState::Reconfiguring));
    assert!(matches!(worker_step(&mut c), WorkerCmd::Open { .. }));
}

#[test]
fn stop_from_any_state_reaches_stopped_then_sleeping() {
    let mut c = Config::new();
    c.activate();
    worker_step(&mut c);
    open_finished(&mut c, true);
    c.stop();
    assert!(matches!(c.state, LinkState::Stopped));
    let cmd = worker_step(&mut c);
    assert!(matches!(cmd, WorkerCmd::DropHandle));
    assert!(matches!(c.state, LinkState::Sleeping));
    let cmd = worker_step(&mut c);
    assert!(matches!(cmd, WorkerCmd::Idle));
    assert_eq!(idle_delay_nanos(&cmd), 100_000_000);
    assert_eq!(idle_delay_nanos(&WorkerCmd::ReadLine), 1);
}

#[test]
fn send_is_a_no_op_unless_active() {
    let mut c = Config::new();
    c.set_port(b"/dev/ttyUSB0".to_vec());
    assert!(plan_send(&c, &b"hi".to_vec()).is_none());
    c.activate();
    assert!(plan_send(&c, &b"hi".to_vec()).is_none());
    worker_step(&mut c);
    open_finished(&mut c, true);
    let w = plan_send(&c, &b"hi".to_vec()).expect("active link must send");
    assert_eq!(w.port, b"/dev/ttyUSB0".to_vec());
    assert_eq!(w.baud, 9600);
    assert_eq!(w.data, b"hi".to_vec());
}

#[test]
fn queue_delivers_in_emission_order_and_empties() {
    let mut q = MessageQueue::new();
    assert_eq!(q.len(), 0);
    q.send(Message::Notice { text: b"one".to_vec() });
    q.send(Message::LogOrEcho { text: b"two".to_vec(), kind: MsgKind::Log });
    q.send_all(vec![Message::Notice { text: b"three".to_vec() }]);
    assert_eq!(q.len(), 3);
    let out = q.drain();
    assert_eq!(q.len(), 0);
    assert_eq!(out.len(), 3);
    assert!(matches!(&out[0], Message::Notice { text } if text == &b"one".to_vec()));
    assert!(matches!(&out[1], Message::LogOrEcho { kind: MsgKind::Log, .. }));
    assert!(matches!(&out[2], Message::Notice { text } if text == &b"three".to_vec()));
}

#[test]
fn tick_advances_once_per_batch_not_per_sample() {
    let mut agg = SeriesAggregator::new();
    agg.ingest(&vec![sample(b"a", b"1.0")]);
    agg.ingest(&vec![sample(b"b", b"2.0")]);
    assert_eq!(agg.series_count(), 2);
    assert_eq!(agg.series_name(0), &b"a".to_vec());
    assert_eq!(agg.series_name(1), &b"b".to_vec());
    assert_eq!(agg.series_points(0).len(), 1);
    assert_eq!(agg.series_points(1).len(), 1);
    assert_eq!(value_of(&agg, 0, 0), (0, 1.0));
    assert_eq!(value_of(&agg, 1, 0), (1, 2.0));
    assert_eq!(agg.tick(), 2);
}

#[test]
fn clear_resets_series_and_tick() {
    let mut agg = SeriesAggregator::new();
    agg.ingest(&vec![sample(b"a", b"1.0"), sample(b"b", b"2.0")]);
    agg.ingest(&vec![sample(b"a", b"3.0")]);
    agg.clear();
    assert_eq!(agg.series_count(), 0);
    assert_eq!(agg.tick(), 0);
    agg.ingest(&vec![sample(b"a", b"5.0")]);
    assert_eq!(agg.series_count(), 1);
    assert_eq!(agg.series_name(0), &b"a".to_vec());
    assert_eq!(agg.series_points(0).len(), 1);
    assert_eq!(value_of(&agg, 0, 0), (0, 5.0));
}

#[test]
fn series_color_is_stable_after_first_appearance() {
    let mut agg = SeriesAggregator::new();
    agg.ingest(&vec![sample(b"a", b"1.0")]);
    let first = agg.series_color(0);
    agg.ingest(&vec![sample(b"a", b"2.0"), sample(b"c", b"0.5")]);
    agg.ingest(&vec![sample(b"a", b"3.0")]);
    assert_eq!(agg.series_color(0), first);
    assert_eq!(agg.series_count(), 2);
    assert_eq!(agg.series_points(0).len(), 3);
}

#[test]
fn batch_samples_land_in_first_seen_order() {
    let mut agg = SeriesAggregator::new();
    agg.ingest(&vec![sample(b"b", b"1"), sample(b"a", b"2"), sample(b"b", b"3")]);
    assert_eq!(agg.series_count(), 2);
    assert_eq!(agg.series_name(0), &b"b".to_vec());
    assert_eq!(agg.series_name(1), &b"a".to_vec());
    assert_eq!(agg.series_points(0).len(), 2);
    assert_eq!(value_of(&agg, 0, 0), (0, 1.0));
    assert_eq!(value_of(&agg, 0, 1), (0, 3.0));
    assert_eq!(value_of(&agg, 1, 0), (0, 2.0));
    assert_eq!(agg.tick(), 1);
}
