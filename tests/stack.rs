use deet::stack::{is_entry_function, FrameWalk, WalkStep};

#[test]
fn walk_at_entry_function_has_one_frame() {
    let mut walk = FrameWalk::start(0x401136, 0x7ffe0000);
    assert_eq!(walk.visit(Some("main"), true), WalkStep::Frame { last: true });
    assert_eq!(walk.frames, 1);
    assert!(walk.done);
}

#[test]
fn walk_follows_the_frame_pointer_chain() {
    let mut walk = FrameWalk::start(0x401200, 0x7ffe0010);
    assert_eq!(walk.visit(Some("helper"), true), WalkStep::Frame { last: false });
    assert_eq!(walk.caller_slots(), Some((0x7ffe0010, 0x7ffe0018)));
    walk.unwind(0x401150, 0x7ffe0040);
    assert_eq!((walk.ip, walk.fp), (0x401150, 0x7ffe0040));
    assert_eq!(walk.visit(Some("main"), true), WalkStep::Frame { last: true });
    assert_eq!(walk.frames, 2);
}

#[test]
fn walk_stops_where_lookup_fails() {
    let mut walk = FrameWalk::start(0x1, 0x2);
    assert_eq!(walk.visit(None, true), WalkStep::Lost);
    assert!(walk.done);
    assert_eq!(walk.frames, 0);
    let mut walk = FrameWalk::start(0x1, 0x2);
    assert_eq!(walk.visit(Some("f"), false), WalkStep::Lost);
}

#[test]
fn caller_slots_at_the_top_of_memory() {
    let walk = FrameWalk::start(0, usize::MAX - 4);
    assert_eq!(walk.caller_slots(), None);
}

#[test]
fn entry_function_name() {
    assert!(is_entry_function("main"));
    assert!(!is_entry_function("mainx"));
    assert!(!is_entry_function("Main"));
    assert!(!is_entry_function(""));
}
