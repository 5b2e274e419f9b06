use dnf_assist::dnf::{DNFVirtual, Instruction, UpOrDown};

fn key(k: &str, mode: UpOrDown) -> Instruction {
    Instruction::Key { key: k.to_string(), mode }
}

fn sleep_in(ins: &Instruction, lo: u64, hi: u64) -> bool {
    matches!(ins, Instruction::Sleep { ms } if lo <= *ms && *ms < hi)
}

fn click_near(ins: &Instruction, x: u32, y: u32) -> bool {
    matches!(ins, Instruction::Click { x: cx, y: cy } if x <= *cx && *cx < x + 6 && y <= *cy && *cy < y + 6)
}

#[test]
fn on_presses_one_key() {
    let d = DNFVirtual::new();
    let s = d.on("f2");
    assert!(s.stop_on_error);
    assert_eq!(s.steps, vec![key("f2", UpOrDown::DownAndUp)]);
}

#[test]
fn mouse_click_lands_near_the_point() {
    let d = DNFVirtual::new();
    for _ in 0..50 {
        let s = d.mouse_mov_click(356, 226);
        assert!(!s.stop_on_error);
        assert_eq!(s.steps.len(), 1);
        assert!(click_near(&s.steps[0], 356, 226));
    }
}

#[test]
fn move_right_and_down_longer_along_x() {
    let d = DNFVirtual::new();
    let s = d.on_mov(false, false, 100, 40);
    assert!(s.stop_on_error);
    let st = &s.steps;
    assert_eq!(st.len(), 9);
    assert_eq!(st[0], key("right", UpOrDown::DownAndUp));
    assert_eq!(st[1], key("right", UpOrDown::Up));
    assert!(sleep_in(&st[2], 50, 130));
    assert_eq!(st[3], key("down", UpOrDown::Down));
    assert!(sleep_in(&st[4], 50, 130));
    assert_eq!(st[5], Instruction::Sleep { ms: 120 });
    assert_eq!(st[6], key("down", UpOrDown::Up));
    assert_eq!(st[7], Instruction::Sleep { ms: 120 });
    assert_eq!(st[8], key("right", UpOrDown::Up));
}

#[test]
fn move_left_and_up_longer_along_y() {
    let d = DNFVirtual::new();
    let s = d.on_mov(true, true, 10, 30);
    let st = &s.steps;
    assert_eq!(st.len(), 9);
    assert_eq!(st[0], key("left", UpOrDown::DownAndUp));
    assert_eq!(st[3], key("up", UpOrDown::Down));
    assert_eq!(st[5], Instruction::Sleep { ms: 20 });
    assert_eq!(st[6], key("left", UpOrDown::Up));
    assert_eq!(st[7], Instruction::Sleep { ms: 60 });
    assert_eq!(st[8], key("up", UpOrDown::Up));
}

#[test]
fn move_without_distance_skips_pauses() {
    let d = DNFVirtual::new();
    let s = d.on_mov(false, false, 0, 0);
    let st = &s.steps;
    assert_eq!(st.len(), 7);
    assert_eq!(st[5], key("right", UpOrDown::Up));
    assert_eq!(st[6], key("down", UpOrDown::Up));
}

#[test]
fn task_collection_script() {
    let s = DNFVirtual::new().task_collection();
    assert!(!s.stop_on_error);
    let st = &s.steps;
    assert_eq!(st.len(), 16);
    assert_eq!(st[0], key("f2", UpOrDown::DownAndUp));
    assert!(sleep_in(&st[1], 1500, 2500));
    assert!(click_near(&st[2], 356, 226));
    assert!(click_near(&st[4], 360, 290));
    assert!(click_near(&st[6], 361, 359));
    assert!(click_near(&st[8], 358, 439));
    assert!(click_near(&st[10], 359, 163));
    assert!(sleep_in(&st[11], 500, 1100));
    assert!(click_near(&st[12], 359, 160));
    assert_eq!(st[14], key("f2", UpOrDown::DownAndUp));
    assert!(sleep_in(&st[15], 1500, 2500));
}

#[test]
fn character_scripts() {
    let d = DNFVirtual::new();
    let c = d.change_character();
    assert_eq!(c.steps.len(), 4);
    assert_eq!(c.steps[0], key("esc", UpOrDown::DownAndUp));
    assert!(click_near(&c.steps[2], 374, 489));
    let s = d.select_character();
    assert_eq!(s.steps.len(), 9);
    assert!(sleep_in(&s.steps[0], 1000, 2500));
    assert_eq!(s.steps[5], key("space", UpOrDown::Down));
    assert!(sleep_in(&s.steps[8], 1000, 3500));
}

#[test]
fn skip_scripts_leave_key_down() {
    let d = DNFVirtual::new();
    for (s, k) in [(d.skip_left(), "left"), (d.skip_right(), "right")] {
        assert_eq!(s.steps.len(), 5);
        assert_eq!(s.steps[0], key(k, UpOrDown::Down));
        assert!(sleep_in(&s.steps[1], 70, 80));
        assert_eq!(s.steps[2], key(k, UpOrDown::Up));
        assert_eq!(s.steps[4], key(k, UpOrDown::Down));
    }
}

#[test]
fn on_mov_repeats_keys_and_fixed_pauses() {
    let d = DNFVirtual::new();
    for (left, up, x_mov, y_mov) in [(true, false, 120u64, 30u64), (false, true, 5, 90), (true, true, 0, 0)] {
        let a = d.on_mov(left, up, x_mov, y_mov);
        let b = d.on_mov(left, up, x_mov, y_mov);
        assert_eq!(a.steps.len(), b.steps.len());
        for (i, (x, y)) in a.steps.iter().zip(b.steps.iter()).enumerate() {
            if i == 2 || i == 4 {
                assert!(sleep_in(x, 50, 130) && sleep_in(y, 50, 130));
            } else {
                assert_eq!(x, y);
            }
        }
    }
}
