use dnf_assist::adb::Op;
use dnf_assist::automation::{
    backpack_rows, close_window_on_probe, close_window_on_recheck, goods_size, BackpackOpen,
    CloseWait, DiscardWait, GoodsDiscard, MapPosition, MapWait, OpenWait,
};

#[test]
fn map_position_needs_numbers() {
    assert!(MapPosition::new("12", "x").is_none());
    let m = MapPosition::new("640", "+360").unwrap();
    assert_eq!((m.target_x, m.target_y), (640, 360));
    assert_eq!((m.map_x.as_str(), m.map_y.as_str()), ("640", "+360"));
}

#[test]
fn map_tap_keeps_configured_text() {
    let m = MapPosition::new("0640", "+360").unwrap();
    let p = m.on_map_probe(true);
    assert_eq!(
        p.ops,
        vec![Op::TapText { x: "0640".to_string(), y: "+360".to_string() }, Op::Sleep { ms: 2500 }]
    );
}

#[test]
fn map_position_flow() {
    let m = MapPosition::new("640", "360").unwrap();
    let p = m.start();
    assert_eq!(p.ops, vec![Op::Tap { x: 1267, y: 61 }, Op::Sleep { ms: 3500 }]);
    assert_eq!(p.next, MapWait::MapProbe);
    let p = m.on_map_probe(false);
    assert_eq!(p.next, MapWait::MapProbe);
    let p = m.on_map_probe(true);
    assert_eq!(
        p.ops,
        vec![Op::TapText { x: "640".to_string(), y: "360".to_string() }, Op::Sleep { ms: 2500 }]
    );
    assert_eq!(p.next, MapWait::MarkerProbe);
    assert_eq!(m.on_marker(250, 250, 5).next, MapWait::Arrived);
    assert_eq!(m.on_marker(240, 250, 5).next, MapWait::MapProbe);
    assert_eq!(m.on_marker(250, 250, 10).next, MapWait::MapProbe);
}

#[test]
fn backpack_open_gives_up_after_thirty_probes() {
    let (mut b, p) = BackpackOpen::new();
    assert_eq!(p.ops, vec![Op::Tap { x: 1245, y: 255 }, Op::Sleep { ms: 2500 }]);
    let mut taps = 1;
    let mut probes = 0;
    loop {
        let p = b.on_probe(false);
        probes += 1;
        taps += p.ops.iter().filter(|o| matches!(o, Op::Tap { .. })).count();
        if p.next == OpenWait::GaveUp {
            break;
        }
    }
    assert_eq!(probes, 30);
    assert_eq!(taps, 10);
}

#[test]
fn backpack_open_stops_on_match() {
    let (mut b, _) = BackpackOpen::new();
    b.on_probe(false);
    let p = b.on_probe(true);
    assert_eq!(p.next, OpenWait::Opened);
    assert_eq!(p.ops, vec![Op::Sleep { ms: 600 }]);
}

#[test]
fn close_window() {
    let p = close_window_on_probe(true, 30, 40);
    assert_eq!(p.ops, vec![Op::Tap { x: 30, y: 40 }]);
    assert_eq!(p.next, CloseWait::Recheck { fresh: false });
    assert_eq!(close_window_on_probe(false, 30, 40).next, CloseWait::NotFound);
    assert_eq!(close_window_on_recheck(true).next, CloseWait::Recheck { fresh: true });
    assert_eq!(close_window_on_recheck(false).next, CloseWait::Matched);
}

#[test]
fn backpack_layout() {
    let rows = backpack_rows();
    assert_eq!(rows.len(), 40);
    assert_eq!(rows[0], (792 - 279, 563 - 192));
    assert_eq!(rows[6], (792 - 279 - 73 * 6, 563 - 192));
    assert_eq!(rows[7], (792 - 756, 563 - 192));
    assert_eq!(rows[8], (792 - 279, 563 - 272));
    assert_eq!(rows[39], (792 - 756, 563 - 485));
    assert_eq!(goods_size(), (157, 81));
}

fn lines(v: &[&str]) -> Option<Vec<String>> {
    Some(v.iter().map(|s| s.to_string()).collect())
}

#[test]
fn discard_run_drops_named_goods() {
    let (mut d, p) = GoodsDiscard::new(800, 600, backpack_rows(), 157, 81, "药水".to_string());
    assert_eq!(p.ops, vec![Op::Sleep { ms: 300 }, Op::Tap { x: 740, y: 609 }, Op::Sleep { ms: 500 }]);
    assert_eq!(d.discard_x, 920);
    let p = d.enter_cell();
    assert_eq!(p.ops, vec![Op::Tap { x: 287, y: 229 }, Op::Sleep { ms: 1000 }]);
    assert_eq!(p.next, DiscardWait::Scan { x: 287, y: 229, w: 157, h: 81 });
    // a tag of another item moves on
    let p = d.on_scan(lines(&["其他", "x"]));
    assert_eq!(p.next, DiscardWait::NextCell);
    assert_eq!(d.cell, 1);
    d.enter_cell();
    // one line is not readable: read again
    let p = d.on_scan(lines(&["药水"]));
    assert_eq!(p.ops, vec![Op::Sleep { ms: 1000 }]);
    let p = d.on_scan(lines(&["药水", "1"]));
    assert_eq!(p.next, DiscardWait::ConfirmFirst);
    assert_eq!(p.ops.len(), 5);
    match p.ops[0] {
        Op::Swipe { x, y, to_x, to_y, duration_ms } => {
            assert_eq!((x, y, to_x, to_y), (800 - 440, 600 - 371, 920, 600));
            assert!((300..=2000).contains(&duration_ms));
        }
        _ => panic!("expected a swipe"),
    }
    assert_eq!(&p.ops[1..], &[Op::Sleep { ms: 3500 }, Op::InputText, Op::Sleep { ms: 500 }, Op::Sleep { ms: 1800 }]);
    let mut rounds = 0;
    loop {
        let p1 = d.on_confirm_first(true, 800, 100);
        assert_eq!(p1.ops, vec![Op::Tap { x: 800, y: 105 }, Op::Sleep { ms: 1800 }]);
        let p2 = d.on_confirm_second(rounds == 3, 700, 200);
        rounds += 1;
        if p2.next == DiscardWait::NextCell {
            break;
        }
        assert_eq!(p2.next, DiscardWait::ConfirmFirst);
    }
    assert_eq!(rounds, 12);
    assert!(d.confirmed);
    assert_eq!(d.cell, 2);
}

#[test]
fn discard_run_gives_up_after_unreadable_cells() {
    let rows = backpack_rows();
    let (mut d, _) = GoodsDiscard::new(800, 600, rows, 157, 81, "x".to_string());
    // the first cell cannot be read six times
    d.enter_cell();
    for _ in 0..6 {
        d.on_scan(None);
    }
    assert!(d.unreadable);
    assert_eq!(d.cell, 1);
    // each following cell is given up after four failures
    for k in 1..5 {
        let p = d.enter_cell();
        assert!(matches!(p.next, DiscardWait::Scan { .. }));
        for _ in 0..4 {
            d.on_scan(None);
        }
        assert_eq!(d.misses, k);
    }
    let p = d.enter_cell();
    assert_eq!(p.next, DiscardWait::Done);
    assert_eq!(p.ops.len(), 1);
}

#[test]
fn discard_run_ends_after_last_cell() {
    let (mut d, _) = GoodsDiscard::new(800, 600, vec![(10, 10)], 157, 81, "x".to_string());
    d.enter_cell();
    d.on_scan(lines(&["y", "z"]));
    let p = d.enter_cell();
    assert_eq!(p.next, DiscardWait::Done);
    assert!(p.ops.is_empty());
}
