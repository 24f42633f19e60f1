use zen_monitor::text::contains_subslice;
use zen_monitor::text::split_on_commas;
use zen_monitor::text::to_ascii_lower;
use zen_monitor::text::trim;
use zen_monitor::timer::PollTimer;
use zen_monitor::window::RollingWindow;

#[test]
fn trim_strips_ascii_whitespace_both_ends() {
    assert_eq!(trim(&b"  45 \r\n".to_vec()), b"45".to_vec());
    assert_eq!(trim(&b"45".to_vec()), b"45".to_vec());
    assert_eq!(trim(&b" \t ".to_vec()), b"".to_vec());
    assert_eq!(trim(&b"a b".to_vec()), b"a b".to_vec());
}

#[test]
fn split_keeps_every_field_in_order() {
    let fields = split_on_commas(&b"45, 62,8192,".to_vec());
    assert_eq!(fields.len(), 4);
    assert_eq!(fields[0], b"45".to_vec());
    assert_eq!(fields[1], b" 62".to_vec());
    assert_eq!(fields[2], b"8192".to_vec());
    assert_eq!(fields[3], b"".to_vec());
    let single = split_on_commas(&b"plain".to_vec());
    assert_eq!(single.len(), 1);
    assert_eq!(single[0], b"plain".to_vec());
}

#[test]
fn lowercasing_touches_only_ascii_capitals() {
    assert_eq!(to_ascii_lower(&b"Tctl 9X?".to_vec()), b"tctl 9x?".to_vec());
}

#[test]
fn substring_search_finds_inner_matches() {
    assert!(contains_subslice(&b"k10temp tctl".to_vec(), &b"tctl".to_vec()));
    assert!(!contains_subslice(&b"core 0".to_vec(), &b"tctl".to_vec()));
    assert!(contains_subslice(&b"abc".to_vec(), &b"".to_vec()));
    assert!(!contains_subslice(&b"ab".to_vec(), &b"abc".to_vec()));
}

#[test]
fn started_timer_fires_strictly_after_interval() {
    let t = PollTimer::started(1000, 500);
    assert!(!t.fires(1000));
    assert!(!t.fires(1500));
    assert!(t.fires(1501));
    assert!(!t.fires(900));
}

#[test]
fn backdated_timer_fires_immediately_then_respects_interval() {
    let mut t = PollTimer::backdated(2000);
    assert!(t.fires(0));
    assert!(t.fires(1));
    t.reset(10);
    assert!(!t.fires(2010));
    assert!(t.fires(2011));
}

#[test]
fn window_starts_full_and_rolls() {
    let mut w = RollingWindow::new_filled(3);
    assert_eq!(w.len(), 3);
    assert_eq!(w.capacity(), 3);
    assert_eq!(w.values(), &vec![0u64, 0, 0]);
    w.push(7);
    assert_eq!(w.values(), &vec![0u64, 0, 7]);
    w.push(8);
    w.push(9);
    w.push(10);
    assert_eq!(w.values(), &vec![8u64, 9, 10]);
    assert_eq!(w.latest(), 10);
    assert_eq!(w.len(), 3);
}
