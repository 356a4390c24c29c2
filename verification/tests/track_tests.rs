use std::cmp::Ordering;
use syncstream::track::{name_precedes, names_contain, select_tracks, sort_tracks, track_names, Track};

fn track(name: &str, duration: u64) -> Track {
    Track { name: name.to_string(), duration }
}

fn names(list: &[&str]) -> Vec<String> {
    list.iter().map(|s| s.to_string()).collect()
}

#[test]
fn tracks_are_equal_by_name_and_duration() {
    assert_eq!(track("a", 1), track("a", 1));
    assert_ne!(track("a", 1), track("a", 2));
    assert_ne!(track("a", 1), track("b", 1));
    assert_eq!(track("a", 1).clone(), track("a", 1));
    assert_eq!(track("日本", 77).clone(), track("日本", 77));
}

#[test]
fn tracks_are_ordered_by_name_alone() {
    assert_eq!(track("a", 9).partial_cmp(&track("b", 1)), Some(Ordering::Less));
    assert_eq!(track("b", 1).partial_cmp(&track("a", 9)), Some(Ordering::Greater));
    assert_eq!(track("a", 1).partial_cmp(&track("a", 2)), Some(Ordering::Equal));
    assert!(track("a", 9) < track("b", 1));
    assert!(track("ab", 0) > track("a", 0));
    assert!(track("a", 1) <= track("a", 2));
}

#[test]
fn names_are_ordered_as_strings_are() {
    let samples = [
        "", "a", "A", "aa", "ab", "b", "Intro", "Outro", "intro", "Ä", "Z", "z", "日本", "日",
        "Track 3", "Track 10", "é", "e\u{301}", "\u{10000}", "\u{ffff}", "~",
    ];
    for a in samples {
        for b in samples {
            assert_eq!(
                name_precedes(&a.to_string(), &b.to_string()),
                a < b,
                "{:?} {:?}",
                a,
                b
            );
        }
    }
}

#[test]
fn sorting_orders_by_name() {
    let mut tracks = vec![
        track("Outro", 3),
        track("日本", 5),
        track("Intro", 1),
        track("Ä", 4),
        track("Bridge", 2),
    ];
    let mut expected = tracks.iter().map(|t| t.name.clone()).collect::<Vec<String>>();
    expected.sort();
    sort_tracks(&mut tracks);
    assert_eq!(track_names(&tracks), expected);
    assert_eq!(
        tracks,
        vec![
            track("Bridge", 2),
            track("Intro", 1),
            track("Outro", 3),
            track("Ä", 4),
            track("日本", 5),
        ]
    );
}

#[test]
fn sorting_keeps_tracks_of_one_name_in_order() {
    let mut tracks = vec![track("b", 1), track("a", 2), track("b", 3), track("a", 4), track("b", 5)];
    sort_tracks(&mut tracks);
    assert_eq!(
        tracks,
        vec![track("a", 2), track("a", 4), track("b", 1), track("b", 3), track("b", 5)]
    );
}

#[test]
fn sorting_small_lists() {
    let mut none: Vec<Track> = Vec::new();
    sort_tracks(&mut none);
    assert!(none.is_empty());
    let mut one = vec![track("x", 1)];
    sort_tracks(&mut one);
    assert_eq!(one, vec![track("x", 1)]);
    let mut sorted = vec![track("a", 1), track("b", 2), track("c", 3)];
    sort_tracks(&mut sorted);
    assert_eq!(sorted, vec![track("a", 1), track("b", 2), track("c", 3)]);
    let mut reversed = vec![track("c", 3), track("b", 2), track("a", 1)];
    sort_tracks(&mut reversed);
    assert_eq!(reversed, vec![track("a", 1), track("b", 2), track("c", 3)]);
}

#[test]
fn selection_keeps_the_order_of_the_tracks() {
    let tracks = vec![track("a", 1), track("b", 2), track("c", 3), track("d", 4)];
    assert_eq!(
        select_tracks(&tracks, &names(&["d", "b"])),
        vec![track("b", 2), track("d", 4)]
    );
    assert_eq!(select_tracks(&tracks, &names(&[])), Vec::<Track>::new());
    assert_eq!(select_tracks(&tracks, &names(&["x", ""])), Vec::<Track>::new());
    assert_eq!(select_tracks(&tracks, &names(&["a", "a", "c"])), vec![track("a", 1), track("c", 3)]);
    assert_eq!(select_tracks(&tracks, &names(&["a", "b", "c", "d"])), tracks);
    assert_eq!(select_tracks(&Vec::new(), &names(&["a"])), Vec::<Track>::new());
}

#[test]
fn names_of_tracks() {
    assert_eq!(track_names(&vec![track("Ä", 1), track("b", 2)]), names(&["Ä", "b"]));
    assert_eq!(track_names(&Vec::new()), Vec::<String>::new());
    assert!(names_contain(&names(&["a", "日本"]), &"日本".to_string()));
    assert!(!names_contain(&names(&["a", "日本"]), &"日".to_string()));
    assert!(!names_contain(&names(&[]), &"".to_string()));
}
