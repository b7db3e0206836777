use karakuri_bridge::records::{authority_said, ridden, source_said, strip_said, Sourced, StripRecord};

fn write(key: &str, value: &str) -> (String, String) {
    (key.to_string(), value.to_string())
}

#[test]
fn a_ride_lists_its_writes_and_the_nodes_they_reached() {
    assert_eq!(
        ridden(1, &[write("tint.x", "0.500"), write("tint.y", "0.250"), write("tint.z", "1.000")], 2).unwrap(),
        "  knob: deck B -> WriteParam -> Record::Ride -> tint.x = 0.500, tint.y = 0.250, tint.z = 1.000 on 2 node(s)"
    );
    assert_eq!(ridden(0, &[write("speed", "2.000")], 0), None);
}

#[test]
fn a_source_says_what_drives_the_knob() {
    assert_eq!(
        source_said(0, "speed", &Sourced::Bound("lfo through linear onto [0.00, 1.00]".to_string())),
        "  source: deck A -> Record::Source -> `speed` is driven by lfo through linear onto [0.00, 1.00]"
    );
    assert_eq!(
        source_said(2, "speed", &Sourced::TakenBack),
        "  source: deck C -> Record::Source -> `speed` is driven by nothing — taken back"
    );
    assert_eq!(
        source_said(2, "speed", &Sourced::NoSuchControl("wobble".to_string())),
        "  slot 2: `wobble` is not a control this Set publishes"
    );
    assert_eq!(source_said(3, "speed", &Sourced::NothingDriving), "  slot 3: nothing was driving `speed`");
}

#[test]
fn an_authority_is_set_on_a_node_the_slot_holds() {
    assert_eq!(
        authority_said(1, Some("operator"), "L2", 0),
        "  authority: deck B -> SetAuthority -> Record::Authority -> operator"
    );
    assert_eq!(authority_said(1, None, "L2", 3), "  slot 1: no node L2:3 to speak for");
}

#[test]
fn a_strip_record_says_what_the_deck_reads_back() {
    assert_eq!(
        strip_said(1, "1", &StripRecord::Mute { muted: true, now: true }),
        "  mute: deck B -> SetMute { deck: 1, mute: true } -> Record::Mute -> deck.is_muted(1) = true"
    );
    assert_eq!(
        strip_said(0, "0", &StripRecord::Solo { soloed: false, now: false }),
        "  solo: deck A -> SetSolo { deck: 0, solo: false } -> Record::Solo -> deck.is_soloed(0) = false"
    );
    assert_eq!(
        strip_said(2, "2", &StripRecord::Online { online: true, now: false }),
        "  online: deck C -> SetOnline { deck: 2, online: true } -> Record::Online -> deck.is_online(2) = false"
    );
    assert_eq!(
        strip_said(0, "0", &StripRecord::Blend { mode: "over".to_string(), now: "over".to_string() }),
        "  blend: deck A -> SetBlendMode { deck: 0, blend: over } -> Record::Blend -> deck.blend(0) = over"
    );
    assert_eq!(
        strip_said(1, "1", &StripRecord::Residency {
            level: "live".to_string(),
            requested: "Live".to_string(),
            now: "Priming".to_string()
        }),
        "  tally: deck B -> SetResidency { deck: 1, residency: live } -> Record::Residency -> deck.requested_residency(1) = Live, deck.residency(1) = Priming"
    );
    assert_eq!(
        strip_said(3, "3", &StripRecord::Policy { policy: "stop".to_string() }),
        "  policy: deck D -> Record::Policy { policy: stop }"
    );
}
