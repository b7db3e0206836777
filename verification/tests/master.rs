use karakuri_bridge::master::{chain_said, chain_slot_name, ChainSlot, Offer};

fn slot(procedure: &str, cut: Option<&str>) -> ChainSlot {
    ChainSlot { procedure: procedure.to_string(), cut: cut.map(str::to_string) }
}

#[test]
fn an_empty_chain_is_the_mix() {
    assert_eq!(chain_said(&[]), "  master: chain -> Record::MasterChain -> 0 slots — the frame is the mix");
}

#[test]
fn each_pass_is_named_by_the_start_of_its_procedure() {
    assert_eq!(
        chain_said(&[slot("9f86d081884c7d659a2feaa0c55ad015", Some("hard")), slot("bloom", None)]),
        "  master: chain -> Record::MasterChain -> 2 slots — 9f86d081884c7d (hard), bloom"
    );
    assert_eq!(
        chain_said(&[slot("feedback", None)]),
        "  master: chain -> Record::MasterChain -> 1 slot — feedback"
    );
}

#[test]
fn a_cut_at_fourteen_bytes_counts_bytes_not_characters() {
    // Six two-byte characters and two one-byte ones make fourteen bytes.
    assert_eq!(
        chain_said(&[slot("éééééézzq", None)]),
        "  master: chain -> Record::MasterChain -> 1 slot — éééééézz"
    );
}

fn offer(procedure: &str, words: &str) -> Offer {
    Offer { procedure: procedure.to_string(), words: words.to_string() }
}

#[test]
fn a_pass_is_called_by_its_shipped_name_its_offer_or_its_address() {
    let offers = vec![offer("sha256:aaaa", "glow"), offer("sha256:aaaa", "second"), offer("sha256:bbbb", "grain")];
    assert_eq!(chain_slot_name(Some("feedback"), "sha256:aaaa", &offers), "feedback");
    assert_eq!(chain_slot_name(None, "sha256:aaaa", &offers), "glow");
    assert_eq!(chain_slot_name(None, "sha256:0123456789abcdef", &offers), "sha256:01234567");
    assert_eq!(chain_slot_name(None, "sha256:ff", &[]), "sha256:ff");
}
