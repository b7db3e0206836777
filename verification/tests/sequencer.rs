use karakuri_bridge::sequencer::{pointed_lane, sequenced, Press};

#[test]
fn a_step_is_heard_when_the_playhead_reaches_it() {
    let r = sequenced(&Press::Step { pattern: 0, lane: 1, step: 5, on: true }, true, 4, 0, None);
    assert_eq!(
        r.line,
        "  step: pattern 0 lane 1 slot 5 -> on -> no record, and that is settled: a pattern is library data and what a lane does is its own writes. Heard the next time the playhead reaches it"
    );
    assert!(!r.reset);
}

#[test]
fn a_step_on_a_lane_nobody_holds_is_refused() {
    let r = sequenced(&Press::Step { pattern: 2, lane: 9, step: 0, on: false }, false, 4, 0, None);
    assert_eq!(
        r.line,
        "  step: pattern 2 lane 9 is not a lane this session holds — a press names a bank, a lane and a slot, and this one names no row"
    );
    assert!(!r.reset);
}

#[test]
fn a_mute_says_where_the_take_back_is() {
    let r = sequenced(&Press::Mute { pattern: 0, lane: 0, muted: true }, true, 4, 0, None);
    assert_eq!(
        r.line,
        "  lane: pattern 0 lane 0 -> muted -> no record. The pattern is kept and drives nothing, and the fader is a hand's again — which is where this lane's take-back sits"
    );
    let r = sequenced(&Press::Mute { pattern: 0, lane: 0, muted: false }, true, 4, 0, None);
    assert_eq!(r.line, "  lane: pattern 0 lane 0 -> driving -> no record. It writes its target at the next step boundary");
    let r = sequenced(&Press::Mute { pattern: 3, lane: 2, muted: false }, false, 4, 0, None);
    assert_eq!(r.line, "  lane: pattern 3 lane 2 is not a lane this session holds");
    assert!(!r.reset);
}

#[test]
fn a_grid_press_resets_the_playhead() {
    let grid = Press::Grid { pattern: 1, name: "triplet".to_string(), count: 12 };
    let r = sequenced(&grid, true, 4, 0, None);
    assert_eq!(
        r.line,
        "  grid: pattern 1 -> triplet -> no record. The bar is one bar, so the count follows: 12 steps over the same row, and the sixteen slots underneath are untouched"
    );
    assert!(r.reset);
    let r = sequenced(&grid, false, 4, 0, None);
    assert_eq!(r.line, "  grid: pattern 1 is not a bank this session holds");
    assert!(!r.reset);
}

#[test]
fn a_bank_press_arms_it_and_resets_the_playhead() {
    let r = sequenced(&Press::Select { pattern: 2 }, true, 4, 1, None);
    assert_eq!(r.line, "  pattern: bank 2 armed -> no record. 1 lane under the rows");
    assert!(r.reset);
    let r = sequenced(&Press::Select { pattern: 2 }, true, 4, 3, None);
    assert_eq!(r.line, "  pattern: bank 2 armed -> no record. 3 lanes under the rows");
    let r = sequenced(&Press::Select { pattern: 7 }, false, 4, 0, None);
    assert_eq!(r.line, "  pattern: there is no bank 7 — this session holds 4");
    assert!(!r.reset);
}

#[test]
fn a_lane_is_pointed_muted() {
    let levels = Some(("1".to_string(), "0".to_string()));
    assert_eq!(
        pointed_lane(0, true, &levels, Some(2)),
        "  lane: pattern 0 -> a fader lane, on 1 off 0 -> no record. 2 lanes under the rows, muted: every slot is off and an off step writes 0, so the label is the press that starts it"
    );
    assert_eq!(
        pointed_lane(1, false, &Some(("0.8".to_string(), "0.2".to_string())), Some(1)),
        "  lane: pattern 1 -> a parameter lane, on 0.8 off 0.2 -> no record. 1 lane under the rows, muted: every slot is off and an off step writes 0.2, so the label is the press that starts it"
    );
    assert_eq!(pointed_lane(5, true, &levels, None), "  lane: pattern 5 is not a bank this session holds");
    assert!(pointed_lane(0, false, &None, Some(1)).contains("is not pointed"));
}

#[test]
fn a_lane_taken_out_says_what_moved_up() {
    let remove = Press::RemoveLane { pattern: 1, lane: 0 };
    let r = sequenced(&remove, true, 4, 2, Some(false));
    assert_eq!(
        r.line,
        "  lane: pattern 1 lane 0 taken out -> no record. Its steps went with it and the lanes after it moved up, so 2 lanes are under the rows. It was driving, and what it drove keeps the value its last step wrote it: a lane's writes are its whole record"
    );
    assert!(!r.reset);
    assert_eq!(
        sequenced(&remove, true, 4, 1, Some(true)).line,
        "  lane: pattern 1 lane 0 taken out -> no record. Its steps went with it and the lanes after it moved up, so 1 lane is under the rows. It was muted and drove nothing"
    );
}

#[test]
fn a_lane_or_bank_nobody_holds_is_not_taken_out() {
    let remove = Press::RemoveLane { pattern: 1, lane: 3 };
    assert_eq!(sequenced(&remove, true, 4, 0, None).line, "  lane: no lane 3 in pattern 1: this pattern holds none");
    assert_eq!(sequenced(&remove, true, 4, 3, None).line, "  lane: no lane 3 in pattern 1: this pattern holds lanes 0-2");
    let r = sequenced(&Press::RemoveLane { pattern: 9, lane: 0 }, false, 4, 0, None);
    assert_eq!(r.line, "  lane: pattern 9 is not a bank this session holds");
    assert!(!r.reset);
}
