use rrush::{shot_path, ShotPlan};

#[test]
fn index_goes_before_the_extension() {
    assert_eq!(shot_path("shot.png", 0), "shot_0.png");
    assert_eq!(shot_path("frames/frame.gif", 12), "frames/frame_12.gif");
    assert_eq!(shot_path("a.tar.gz", 3), "a.tar_3.gz");
}

#[test]
fn base_without_dot_gets_png() {
    assert_eq!(shot_path("out", 5), "out_5.png");
    assert_eq!(shot_path("", 0), "_0.png");
}

#[test]
fn dots_in_directories_are_not_extensions() {
    assert_eq!(shot_path("out.d/frame", 0), "out.d/frame_0.png");
    assert_eq!(shot_path("dir.v2/frame", 1), "dir.v2/frame_1.png");
    assert_eq!(shot_path("dir.v2/frame.gif", 4), "dir.v2/frame_4.gif");
    assert_eq!(shot_path("a.b/c.d/e", 2), "a.b/c.d/e_2.png");
    assert_eq!(shot_path("shots/", 3), "shots/_3.png");
}

#[test]
fn trailing_dot_gives_empty_extension() {
    assert_eq!(shot_path("x.", 7), "x_7.");
}

#[test]
fn captures_stay_in_the_base_directory() {
    for i in [0usize, 9, 10, 12345] {
        let p = shot_path("run.1/out.d/frame", i);
        assert!(p.starts_with("run.1/out.d/"));
        assert!(!p["run.1/out.d/".len()..].contains('/'));
    }
}

#[test]
fn large_indices_are_written_in_full() {
    assert_eq!(shot_path("s.png", 1234567890), "s_1234567890.png");
    assert_eq!(
        shot_path("s.png", usize::MAX),
        format!("s_{}.png", usize::MAX)
    );
}

#[test]
fn distinct_indices_give_distinct_files() {
    let paths: Vec<String> = (0..120).map(|i| shot_path("cap.png", i)).collect();
    for a in 0..paths.len() {
        for b in a + 1..paths.len() {
            assert_ne!(paths[a], paths[b]);
        }
    }
}

#[test]
fn plan_takes_each_capture_once_in_order() {
    let mut plan = ShotPlan::new("still.png".to_string(), 2);
    assert_eq!(plan.pending(), Some(0));
    assert_eq!(plan.advance(), Some("still_0.png".to_string()));
    assert_eq!(plan.pending(), Some(1));
    assert_eq!(plan.advance(), Some("still_1.png".to_string()));
    assert_eq!(plan.pending(), None);
    assert_eq!(plan.advance(), None);
    assert_eq!(plan.pending(), None);
}

#[test]
fn empty_plan_takes_nothing() {
    let mut plan = ShotPlan::new("x".to_string(), 0);
    assert_eq!(plan.pending(), None);
    assert_eq!(plan.advance(), None);
}
