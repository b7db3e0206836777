use karakuri_bridge::marks::{keep_arrangement, put_arrangement_back, star_refused, starred, Keeping, Restoring};
use karakuri_bridge::saving::Asked;

#[test]
fn a_models_star_is_refused_out_loud() {
    assert_eq!(
        star_refused(Asked::Model, "drift", true).unwrap(),
        "star: `drift` was not starred — `my sets` is the list of Sets the operator chose, and a star is theirs to put on: it is one press on the mark at the left of that row in the Library bay, under `all`. The Set itself is untouched and is listed there"
    );
    assert!(star_refused(Asked::Model, "drift", false).unwrap().starts_with("star: `drift` was not unstarred — "));
    assert_eq!(star_refused(Asked::Operator, "drift", true), None);
}

#[test]
fn a_star_says_where_the_row_now_is() {
    assert_eq!(
        starred("drift", true, &Ok(true)),
        "star: `drift` is starred — `my sets` is the starred subset of `all`, and this row is in it"
    );
    assert_eq!(
        starred("drift", false, &Ok(true)),
        "star: `drift` has its star off — `my sets` is the starred subset of `all`, and this row is out of it"
    );
}

#[test]
fn a_star_already_there_writes_nothing() {
    assert_eq!(starred("drift", true, &Ok(false)), "star: `drift` was already starred, so nothing was written");
    assert_eq!(
        starred("fog", false, &Err("no Set `fog` in this store".to_string())),
        "star: `fog` was not unstarred: no Set `fog` in this store"
    );
}

#[test]
fn a_kept_arrangement_says_where_it_is() {
    let (line, landed) = keep_arrangement("night", "/store", &Keeping::Written(412));
    assert_eq!(line, "arrangement: kept as `night` — 412 bytes at /store/arrangements/night.arrangement.json");
    assert!(landed);
    let (line, landed) = keep_arrangement("night", "/store", &Keeping::Unwritten("disk full".to_string()));
    assert_eq!(line, "arrangement: `night` was not kept: disk full");
    assert!(!landed);
    let (line, landed) = keep_arrangement("night", "/store", &Keeping::Unserialised("bad float".to_string()));
    assert_eq!(line, "arrangement: `night` was not kept — it did not serialise: bad float");
    assert!(!landed);
}

#[test]
fn an_arrangement_put_back_or_not() {
    assert_eq!(
        put_arrangement_back("night", "/nowhere", &Restoring::NoStore),
        ("arrangement: no store at /nowhere, so nothing is filed under `night` — and the console has not moved".to_string(), false)
    );
    assert_eq!(
        put_arrangement_back("night", "/s", &Restoring::Unread("no arrangement `night`".to_string())),
        ("arrangement: `night` is not back — no arrangement `night`".to_string(), false)
    );
    assert!(put_arrangement_back("night", "/s", &Restoring::Refused("expected `,`".to_string())).0.contains("refused rather than repaired: expected `,`"));
    assert_eq!(
        put_arrangement_back("night", "/s", &Restoring::Back { w: "1280".to_string(), h: "720".to_string() }),
        ("arrangement: `night` is back, at the 1280 x 720 this window already had".to_string(), true)
    );
}
