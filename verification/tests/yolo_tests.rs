use dnf_assist::yolo::{class_label, class_names, non_max_suppression};

fn strs(v: &[&str]) -> Vec<String> {
    v.iter().map(|s| s.to_string()).collect()
}

#[test]
fn names_from_metadata() {
    let meta = "{0: 'person', 1: 'bicycle', 2: 'traffic light'}".to_string();
    assert_eq!(class_names(Some(meta)), Some(strs(&["person", "bicycle", "traffic light"])));
    assert_eq!(class_names(Some("{0: \"cat\"}".to_string())), Some(strs(&["cat"])));
    assert_eq!(class_names(Some("{}".to_string())), Some(Vec::new()));
    assert_eq!(class_names(None), None);
}

#[test]
fn labels() {
    let classes = strs(&["cat", "dog"]);
    assert_eq!(class_label(&classes, 1), "dog");
    assert_eq!(class_label(&classes, 2), "unknown");
}

fn overlap_matrix(n: usize, pairs: &[(usize, usize)]) -> Vec<Vec<bool>> {
    let mut m = vec![vec![false; n]; n];
    for &(i, j) in pairs {
        m[i][j] = true;
        m[j][i] = true;
    }
    m
}

#[test]
fn nms_keeps_greedy_selection() {
    assert_eq!(non_max_suppression(&Vec::new()), Vec::<usize>::new());
    assert_eq!(non_max_suppression(&overlap_matrix(1, &[])), vec![0]);
    // 0 suppresses 1; 1 would suppress 2 but is not kept; 2 is kept
    assert_eq!(non_max_suppression(&overlap_matrix(3, &[(0, 1), (1, 2)])), vec![0, 2]);
    assert_eq!(non_max_suppression(&overlap_matrix(4, &[(0, 3), (1, 2)])), vec![0, 1]);
    // an entry of a box with itself does not matter
    let mut m = overlap_matrix(2, &[]);
    m[0][0] = true;
    m[1][1] = true;
    assert_eq!(non_max_suppression(&m), vec![0, 1]);
}
