use dnf_assist::ocr::{ctc_greedy_decode, detection_side, keys_from_content, stride_align, unpad_points};

fn strs(v: &[&str]) -> Vec<String> {
    v.iter().map(|s| s.to_string()).collect()
}

#[test]
fn key_table_from_file_text() {
    assert_eq!(keys_from_content("a\nb\r\nc\n"), strs(&["#", "a", "b", "c", " "]));
    assert_eq!(keys_from_content(""), strs(&["#", " "]));
}

#[test]
fn ctc_collapses_repeats_and_blanks() {
    let keys = strs(&["#", "a", "b", "c", " "]);
    let d = ctc_greedy_decode(&vec![1, 1, 0, 1, 2, 2, 9, 3, 4], &keys);
    assert_eq!(d.text, "aabc ");
    assert_eq!(d.positions, vec![0, 3, 4, 7, 8]);
    let empty = ctc_greedy_decode(&vec![0, 0, 0], &keys);
    assert_eq!(empty.text, "");
    assert!(empty.positions.is_empty());
}

#[test]
fn ctc_skips_out_of_range_but_remembers_it() {
    let keys = strs(&["#", "x"]);
    // class 5 has no key; the following 1 differs from 5 and is emitted
    let d = ctc_greedy_decode(&vec![1, 5, 1], &keys);
    assert_eq!(d.text, "xx");
    assert_eq!(d.positions, vec![0, 2]);
}

#[test]
fn detector_sizes() {
    assert_eq!(detection_side(960, 1280, 720, 50), 1060);
    assert_eq!(detection_side(960, 300, 400, 50), 500);
    assert_eq!(stride_align(1060), 1056);
    assert_eq!(stride_align(31), 32);
    assert_eq!(stride_align(0), 32);
    assert_eq!(stride_align(64), 64);
}

#[test]
fn unpadding_points() {
    assert_eq!(unpad_points(&vec![(60, 40), (50, 51), (0, 100)], 50), vec![(10, 0), (0, 1), (0, 50)]);
}

#[test]
fn ctc_text_is_spelled_by_its_positions() {
    let keys = strs(&["#", "都", "市", "x", " "]);
    let best = vec![2, 2, 0, 1, 1, 3, 0, 3, 4];
    let d = ctc_greedy_decode(&best, &keys);
    let spelled: String = d.positions.iter().map(|&p| keys[best[p]].clone()).collect();
    assert_eq!(d.text, spelled);
    assert_eq!(d.text, "市都xx ");
}
