use subuidless::generate::{draw_dir, draw_flags, draw_params, draw_path, pick_weighted, to_syscall, Params, Shrinker};
use subuidless::syscall::Operation;

#[test]
fn weighted_pick_follows_weights() {
    let w = vec![10u64, 1, 1, 1, 1, 1];
    assert_eq!(pick_weighted(&w, 0), 0);
    assert_eq!(pick_weighted(&w, 9), 0);
    assert_eq!(pick_weighted(&w, 10), 1);
    assert_eq!(pick_weighted(&w, 14), 5);
    assert_eq!(pick_weighted(&w, 15), 0);
    assert_eq!(pick_weighted(&vec![0, 3, 0, 2], 4), 3);
}

#[test]
fn flags_are_mostly_empty() {
    assert_eq!(draw_flags(0), 0);
    assert_eq!(draw_flags(10), 0x400);
    assert_eq!(draw_flags(11), 0x100);
    assert_eq!(draw_flags(12), 0x800);
    assert_eq!(draw_flags(13), 0x1000);
    assert_eq!(draw_flags(14), 0x200);
    let empty = (0u64..1500).filter(|d| draw_flags(*d) == 0).count();
    assert_eq!(empty, 1000);
}

#[test]
fn paths_and_handles_are_drawn_from_the_corpus() {
    assert_eq!(draw_path(4, 9), 1);
    assert_eq!(draw_dir(4, 3), None);
    assert_eq!(draw_dir(4, 6), Some(2));
    assert_eq!(draw_params(4, 9, 6, 11), Params { path: 1, dir: Some(2), flags: 0x100 });
}

#[test]
fn drawing_is_deterministic() {
    assert_eq!(draw_params(7, 123, 456, 789), draw_params(7, 123, 456, 789));
}

#[test]
fn params_become_a_metadata_query() {
    let corpus = vec!["/dev".to_string(), "/etc".to_string()];
    match to_syscall(&corpus, Params { path: 0, dir: Some(1), flags: 0 }) {
        Operation::Fstatat { path, dir, flags } => {
            assert_eq!(path, "/dev");
            assert_eq!(dir, Some("/etc".to_string()));
            assert_eq!(flags, 0);
        }
        _ => panic!("wrong kind"),
    }
}

fn shrink(start: Params, fails: impl Fn(&Params) -> bool) -> Params {
    let mut s = Shrinker::new(start);
    let mut steps = 0;
    while let Some(c) = s.candidate() {
        assert!(c.path <= s.best().path);
        assert!(c.dir.is_none() || c.dir == s.best().dir);
        assert!(c.flags == 0 || c.flags == s.best().flags);
        s.record(fails(&c));
        steps += 1;
        assert!(steps < 1000);
    }
    assert!(s.is_done());
    s.best()
}

#[test]
fn shrinks_to_smallest_everything() {
    let start = Params { path: 40, dir: Some(12), flags: 0x100 | 0x800 };
    assert_eq!(shrink(start, |_| true), Params { path: 0, dir: None, flags: 0 });
}

#[test]
fn shrinks_to_smallest_index_that_still_fails() {
    let start = Params { path: 40, dir: Some(12), flags: 0x100 | 0x800 };
    assert_eq!(shrink(start, |p| p.path >= 17), Params { path: 17, dir: None, flags: 0 });
}

#[test]
fn keeps_what_the_failure_needs() {
    let start = Params { path: 9, dir: Some(3), flags: 0x100 };
    let needs_handle = |p: &Params| p.dir.is_some() && p.path >= 2;
    assert_eq!(shrink(start, needs_handle), Params { path: 2, dir: Some(3), flags: 0 });
    let needs_flag = |p: &Params| p.flags != 0;
    assert_eq!(shrink(start, needs_flag), Params { path: 0, dir: None, flags: 0x100 });
}
