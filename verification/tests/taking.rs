use karakuri_bridge::library::FileRow;
use karakuri_bridge::taking::{
    dropped, examined, folder_files, folder_over, set_file, still_pointed, taken, DirEntry, Dropped,
    Taking,
};

fn entry(name: &str, is_dir: bool) -> DirEntry {
    DirEntry { name: Some(name.to_string()), is_dir }
}

#[test]
fn a_folder_lists_its_set_files_by_id() {
    let entries = vec![
        entry("zeta.kset", false),
        entry("notes.txt", false),
        entry("alpha.kbset", false),
        entry("alpha.kset", false),
        entry("nested.kset", true),
        DirEntry { name: None, is_dir: false },
        entry("beta.kbset", false),
    ];
    let rows = folder_files("/shows", &entries);
    let got: Vec<(&str, &str)> = rows.iter().map(|r| (r.id.as_str(), r.path.as_str())).collect();
    assert_eq!(
        got,
        vec![
            ("alpha", "/shows/alpha.kbset"),
            ("alpha", "/shows/alpha.kset"),
            ("beta", "/shows/beta.kbset"),
            ("zeta", "/shows/zeta.kset"),
        ]
    );
    assert!(folder_files("/shows", &[]).is_empty());
}

#[test]
fn a_set_file_is_told_by_its_name() {
    assert!(set_file("/a/b/drift.kbset"));
    assert!(set_file("drift.kset"));
    assert!(!set_file("/a/b/drift.kir"));
    assert!(!set_file("/a/b.kset/.."));
}

fn rows() -> Vec<FileRow> {
    vec![
        FileRow { id: "drift".to_string(), path: "/p/drift.kset".to_string() },
        FileRow { id: "fog".to_string(), path: "/p/fog.kbset".to_string() },
        FileRow { id: "fog".to_string(), path: "/p/fog.kset".to_string() },
    ]
}

#[test]
fn a_row_names_the_one_file_under_it() {
    assert_eq!(Taking::Presets.file(&rows(), "drift"), Ok("/p/drift.kset".to_string()));
}

#[test]
fn a_row_nobody_lists_any_more_is_refused() {
    assert_eq!(
        Taking::Folder.file(&rows(), "mist"),
        Err("the folder this bay is pointed at has no `mist` in it any more".to_string())
    );
}

#[test]
fn a_row_over_two_files_is_refused_with_both_names() {
    assert_eq!(
        Taking::Presets.file(&rows(), "fog"),
        Err("the preset library holds 2 files called `fog` — fog.kbset and fog.kset — and this row names a word rather than a file, so which of them you meant is not something the listing can say. Rename or move one of them and press again".to_string())
    );
}

#[test]
fn a_drop_of_several_paths_takes_none() {
    let kept = still_pointed(&Some("/shows".to_string()));
    assert_eq!(kept, "This library is still pointed at `/shows`.");
    assert!(matches!(dropped(0, &kept), Dropped::Nothing));
    assert!(matches!(dropped(1, &kept), Dropped::Examine));
    match dropped(3, &kept) {
        Dropped::Refused(t) => assert_eq!(
            t,
            "  folder: 3 paths were let go together and none of them was taken — a drop tells this window a path and never a place, so nothing says which of them was aimed at and the order is the desktop's rather than yours. Let go of one folder on its own. This library is still pointed at `/shows`."
        ),
        other => panic!("{other:?}"),
    }
}

#[test]
fn a_dropped_file_is_refused_and_a_folder_taken() {
    let kept = still_pointed(&None);
    assert_eq!(kept, "This library is still pointed nowhere.");
    assert_eq!(examined("/x", &Ok(true), &kept), None);
    assert!(examined("/x/drift.kset", &Ok(false), &kept)
        .unwrap()
        .starts_with("  folder: `/x/drift.kset` is a Set file and what this takes is a folder"));
    assert!(examined("/x/notes.txt", &Ok(false), &kept)
        .unwrap()
        .starts_with("  folder: `/x/notes.txt` is not a folder and what this takes is one"));
    assert_eq!(
        examined("/gone", &Err("No such file or directory".to_string()), &kept).unwrap(),
        "  folder: `/gone` could not be examined (No such file or directory), so whether it is a folder is not known and nothing was taken. This library is still pointed nowhere."
    );
    assert_eq!(
        taken("/x", true, "  library: 2 rows"),
        "  folder: this library is pointed at `/x` — the `folder` chip is marked and the listing under it is what that directory holds\n  library: 2 rows"
    );
    assert!(taken("/x", false, "").contains("this console draws no `folder` chip, so nothing is marked"));
}

#[test]
fn a_drag_held_still_changes_nothing() {
    let one = vec![Some("/x".to_string())];
    assert_eq!(folder_over(&one, &Some("/x".to_string())), None);
    assert_eq!(folder_over(&one, &None), Some(Some("/x".to_string())));
    let two = vec![Some("/x".to_string()), Some("/y".to_string())];
    assert_eq!(folder_over(&two, &Some("/x".to_string())), Some(None));
    assert_eq!(folder_over(&two, &None), None);
}
