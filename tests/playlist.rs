use ws2812_rust::{is_audio_file, Playlist, Track};

fn list(paths: &[&str]) -> Playlist {
    let mut p = Playlist::new();
    let v: Vec<String> = paths.iter().map(|s| s.to_string()).collect();
    p.add_files(&v);
    p
}

#[test]
fn track_named_after_stem() {
    let t = Track::from_path("/music/album/song.one.mp3".to_string());
    assert_eq!(t.name, "song.one");
    assert_eq!(t.path, "/music/album/song.one.mp3");
    assert!(t.artist.is_none() && t.album.is_none() && t.duration.is_none());
    let u = Track::from_path("/".to_string());
    assert_eq!(u.name, "Unknown");
}

#[test]
fn audio_extensions_any_case() {
    assert!(is_audio_file("a/b.MP3"));
    assert!(is_audio_file("x.Flac"));
    assert!(is_audio_file("x.m4a"));
    assert!(is_audio_file("x.aac"));
    assert!(!is_audio_file("x.txt"));
    assert!(!is_audio_file("mp3"));
}

#[test]
fn add_file_sets_first_current() {
    let mut p = Playlist::new();
    assert!(p.is_empty());
    assert!(!p.add_file("notes.txt".to_string()));
    assert_eq!(p.current_index(), None);
    assert!(p.add_file("a.wav".to_string()));
    assert_eq!(p.current_index(), Some(0));
    assert!(p.add_file("b.OGG".to_string()));
    assert_eq!(p.current_index(), Some(0));
    assert_eq!(p.len(), 2);
    assert_eq!(p.current().unwrap().name, "a");
}

#[test]
fn add_files_keeps_order_and_filters() {
    let p = list(&["1.mp3", "cover.jpg", "2.flac", "3.wav"]);
    let names: Vec<&str> = p.get_tracks().iter().map(|t| t.name.as_str()).collect();
    assert_eq!(names, vec!["1", "2", "3"]);
}

#[test]
fn next_and_previous_without_repeat() {
    let mut p = list(&["a.mp3", "b.mp3", "c.mp3"]);
    assert!(p.next());
    assert!(p.next());
    assert_eq!(p.current_index(), Some(2));
    assert!(!p.next());
    assert_eq!(p.current_index(), Some(2));
    assert!(p.previous());
    assert!(p.previous());
    assert!(!p.previous());
    assert_eq!(p.current_index(), Some(0));
    assert_eq!(p.selected_index(), 0);
}

#[test]
fn next_and_previous_wrap_with_repeat() {
    let mut p = list(&["a.mp3", "b.mp3", "c.mp3"]);
    p.toggle_repeat();
    assert!(p.is_repeat());
    assert!(p.previous());
    assert_eq!(p.current_index(), Some(2));
    assert_eq!(p.selected_index(), 2);
    assert!(p.next());
    assert_eq!(p.current_index(), Some(0));
    p.toggle_repeat();
    assert!(!p.is_repeat());
}

#[test]
fn empty_list_does_not_move() {
    let mut p = Playlist::new();
    assert!(!p.next());
    assert!(!p.previous());
    p.move_selection_down();
    p.move_selection_up();
    p.play_selected();
    assert_eq!(p.selected_index(), 0);
    assert_eq!(p.current_index(), None);
    assert!(p.current().is_none());
}

#[test]
fn selection_moves_and_plays() {
    let mut p = list(&["a.mp3", "b.mp3", "c.mp3"]);
    p.move_selection_up();
    assert_eq!(p.selected_index(), 0);
    p.move_selection_down();
    p.move_selection_down();
    p.move_selection_down();
    assert_eq!(p.selected_index(), 2);
    assert_eq!(p.current_index(), Some(0));
    p.play_selected();
    assert_eq!(p.current_index(), Some(2));
    assert_eq!(p.current().unwrap().name, "c");
}

#[test]
fn clear_empties_but_keeps_repeat() {
    let mut p = list(&["a.mp3", "b.mp3"]);
    p.toggle_repeat();
    p.next();
    p.clear();
    assert!(p.is_empty());
    assert_eq!(p.current_index(), None);
    assert_eq!(p.selected_index(), 0);
    assert!(p.is_repeat());
}

#[test]
fn shuffle_keeps_tracks() {
    let mut p = list(&["a.mp3", "b.mp3", "c.mp3", "d.mp3", "e.mp3"]);
    p.next();
    p.move_selection_down();
    p.shuffle();
    let mut names: Vec<String> = p.get_tracks().iter().map(|t| t.name.clone()).collect();
    names.sort();
    assert_eq!(names, vec!["a", "b", "c", "d", "e"]);
    assert_eq!(p.current_index(), Some(0));
    assert_eq!(p.selected_index(), 0);
    let mut empty = Playlist::new();
    empty.shuffle();
    assert_eq!(empty.current_index(), None);
}
