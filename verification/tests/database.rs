use elementtree::Element;
use itunes_to_rhythmbox::database::merge_track;
use itunes_to_rhythmbox::database::song_key;
use itunes_to_rhythmbox::database::sync_to_database;
use itunes_to_rhythmbox::database::SyncReport;
use itunes_to_rhythmbox::database::UNKNOWN_ARTIST;
use itunes_to_rhythmbox::itunes_library::Track;
use itunes_to_rhythmbox::itunes_library::TrackId;
use itunes_to_rhythmbox::report::Error;
use itunes_to_rhythmbox::report::Warning;
use itunes_to_rhythmbox::track_map::TrackMap;

fn song(id: u64, name: &str, artist: Option<&str>, album: Option<&str>, number: usize) -> Track {
    Track {
        id: TrackId(id),
        name: name.to_string(),
        artist: artist.map(str::to_string),
        album: album.map(str::to_string),
        genre: None,
        disc_number: Some(1),
        track_number: Some(number),
        year: None,
        date_modified: 0,
        date_added: 1000,
        play_count: None,
        play_date: None,
        skip_count: None,
        skip_date: None,
        rating: None,
        movie: false,
        location: String::new(),
    }
}

fn parse(xml: &str) -> Element {
    Element::from_reader(xml.as_bytes()).unwrap()
}

fn written(e: &Element) -> String {
    e.to_string().unwrap()
}

fn sync(db: &mut Element, tracks: &Vec<Track>) -> Result<SyncReport, Error> {
    let map = TrackMap::new(tracks).unwrap();
    sync_to_database(db, &map)
}

fn messages(warnings: &[Warning]) -> Vec<String> {
    warnings.iter().map(|w| w.message()).collect()
}

const TWO_SONGS: &str = "<rhythmdb version=\"2.0\">
  <entry type=\"song\">
    <title>Song</title>
    <artist>X</artist>
    <album>Y</album>
    <disc-number>1</disc-number>
    <track-number>1</track-number>
    <location>file:///music/a.mp3</location>
  </entry>
  <entry type=\"song\">
    <title>Song</title>
    <artist>X</artist>
    <album>Y</album>
    <disc-number>1</disc-number>
    <track-number>2</track-number>
    <location>file:///music/b.mp3</location>
  </entry>
</rhythmdb>";

#[test]
fn play_count_above_zero_is_written_and_zero_is_not() {
    let mut a = song(1, "Song", Some("X"), Some("Y"), 1);
    a.play_count = Some(5);
    let mut b = song(2, "Song", Some("X"), Some("Y"), 2);
    b.play_count = Some(0);
    b.date_added = 2000;
    let tracks = vec![a, b];
    let mut db = parse(TWO_SONGS);
    let report = sync(&mut db, &tracks).unwrap();
    let first = db.get_child(0).unwrap();
    assert_eq!(first.find("play-count").unwrap().text(), "5");
    assert_eq!(first.find("first-seen").unwrap().text(), "1000");
    assert!(first.find("last-played").is_none());
    let second = db.get_child(1).unwrap();
    assert!(second.find("play-count").is_none());
    assert_eq!(second.find("first-seen").unwrap().text(), "2000");
    assert!(report.warnings.is_empty());
    assert_eq!(report.track_locations.len(), 2);
    assert_eq!(report.track_locations[&1], "file:///music/a.mp3");
    assert_eq!(report.track_locations[&2], "file:///music/b.mp3");
}

#[test]
fn new_children_stand_indented_as_their_siblings() {
    let mut a = song(1, "Song", Some("X"), Some("Y"), 1);
    a.play_count = Some(5);
    a.play_date = Some(1600000000);
    let tracks = vec![a];
    let mut db = parse(
        "<rhythmdb version=\"2.0\">
  <entry type=\"song\">
    <title>Song</title>
    <artist>X</artist>
    <album>Y</album>
    <disc-number>1</disc-number>
    <track-number>1</track-number>
    <location>file:///music/a.mp3</location>
  </entry>
</rhythmdb>",
    );
    sync(&mut db, &tracks).unwrap();
    let expected = parse(
        "<rhythmdb version=\"2.0\">
  <entry type=\"song\">
    <title>Song</title>
    <artist>X</artist>
    <album>Y</album>
    <disc-number>1</disc-number>
    <track-number>1</track-number>
    <location>file:///music/a.mp3</location>
    <first-seen>1000</first-seen>
    <last-played>1600000000</last-played>
    <play-count>5</play-count>
  </entry>
</rhythmdb>",
    );
    assert_eq!(written(&db), written(&expected));
    let entry = db.get_child(0).unwrap();
    assert_eq!(entry.child_count(), 9);
    assert_eq!(entry.get_child(5).unwrap().tail(), "\n    ");
    assert_eq!(entry.get_child(6).unwrap().tail(), "\n    ");
    assert_eq!(entry.get_child(7).unwrap().tail(), "\n    ");
    assert_eq!(entry.get_child(8).unwrap().tail(), "\n  ");
}

#[test]
fn a_song_without_a_track_is_left_as_it_is() {
    let tracks = vec![song(1, "Other", Some("X"), Some("Y"), 1)];
    let mut db = parse(
        "<rhythmdb version=\"2.0\">
  <entry type=\"song\">
    <title>Song</title>
    <artist>X</artist>
    <album>Y</album>
    <location>file:///music/a.mp3</location>
    <play-count>3</play-count>
  </entry>
</rhythmdb>",
    );
    let before = written(&db);
    let report = sync(&mut db, &tracks).unwrap();
    assert_eq!(written(&db), before);
    assert_eq!(
        messages(&report.warnings),
        vec!["song Song / X / Y not found", "song Other / X / Y unused"]
    );
    assert!(matches!(&report.warnings[0], Warning::SongNotFound { key } if key == "Song / X / Y"));
    assert!(matches!(&report.warnings[1], Warning::SongUnused { key } if key == "Other / X / Y"));
    assert!(report.track_locations.is_empty());
}

#[test]
fn values_that_are_there_are_replaced_and_told() {
    let mut a = song(1, "Song", Some("X"), Some("Y"), 1);
    a.play_count = Some(5);
    a.play_date = Some(1600000000);
    let tracks = vec![a];
    let mut db = parse(
        "<rhythmdb version=\"2.0\">
  <entry type=\"song\">
    <title>Song</title>
    <artist>X</artist>
    <album>Y</album>
    <disc-number>1</disc-number>
    <track-number>1</track-number>
    <play-count>3</play-count>
    <first-seen>17</first-seen>
    <location>file:///music/a.mp3</location>
    <last-played>18</last-played>
  </entry>
</rhythmdb>",
    );
    let report = sync(&mut db, &tracks).unwrap();
    let expected = parse(
        "<rhythmdb version=\"2.0\">
  <entry type=\"song\">
    <title>Song</title>
    <artist>X</artist>
    <album>Y</album>
    <disc-number>1</disc-number>
    <track-number>1</track-number>
    <play-count>5</play-count>
    <first-seen>1000</first-seen>
    <location>file:///music/a.mp3</location>
    <last-played>1600000000</last-played>
  </entry>
</rhythmdb>",
    );
    assert_eq!(written(&db), written(&expected));
    assert_eq!(
        messages(&report.warnings),
        vec![
            "overriding last-played of Song / X / Y: 18",
            "overriding play-count of Song / X / Y: 3"
        ]
    );
}

#[test]
fn a_second_run_changes_nothing() {
    let mut a = song(1, "Song", Some("X"), Some("Y"), 1);
    a.play_count = Some(5);
    a.play_date = Some(1600000000);
    let mut b = song(2, "Song", Some("X"), Some("Y"), 2);
    b.play_count = Some(0);
    let tracks = vec![a, b];
    let mut db = parse(TWO_SONGS);
    let first = sync(&mut db, &tracks).unwrap();
    let once = written(&db);
    let second = sync(&mut db, &tracks).unwrap();
    assert_eq!(written(&db), once);
    assert_eq!(db.get_child(0).unwrap().child_count(), 9);
    assert_eq!(db.get_child(1).unwrap().child_count(), 7);
    assert_eq!(first.track_locations, second.track_locations);
    assert!(first.warnings.is_empty());
    assert_eq!(
        messages(&second.warnings),
        vec![
            "overriding last-played of Song / X / Y: 1600000000",
            "overriding play-count of Song / X / Y: 5"
        ]
    );
    for w in &second.warnings {
        assert!(!matches!(w, Warning::Overriding { tag, .. } if tag == "first-seen"));
    }
}

#[test]
fn an_unknown_artist_stands_for_an_absent_one() {
    let absent = song(1, "Song", None, Some("Y"), 1);
    let literal = song(2, "Song", Some(UNKNOWN_ARTIST), Some("Y"), 1);
    let tracks = vec![literal, absent];
    let mut db = parse(
        "<rhythmdb version=\"2.0\">
  <entry type=\"song\">
    <title>Song</title>
    <artist>未知</artist>
    <album>Y</album>
    <disc-number>1</disc-number>
    <track-number>1</track-number>
    <location>file:///music/a.mp3</location>
  </entry>
</rhythmdb>",
    );
    let report = sync(&mut db, &tracks).unwrap();
    assert_eq!(report.track_locations.len(), 1);
    assert_eq!(report.track_locations[&1], "file:///music/a.mp3");
    assert_eq!(messages(&report.warnings), vec!["song Song / 未知 / Y unused"]);
    assert_eq!(db.get_child(0).unwrap().find("artist").unwrap().text(), "未知");
}

#[test]
fn an_unknown_artist_never_stands_for_itself() {
    let tracks = vec![song(2, "Song", Some(UNKNOWN_ARTIST), Some("Y"), 1)];
    let mut db = parse(
        "<rhythmdb version=\"2.0\">
  <entry type=\"song\">
    <title>Song</title>
    <artist>未知</artist>
    <album>Y</album>
    <disc-number>1</disc-number>
    <track-number>1</track-number>
    <location>file:///music/a.mp3</location>
  </entry>
</rhythmdb>",
    );
    let before = written(&db);
    let report = sync(&mut db, &tracks).unwrap();
    assert_eq!(written(&db), before);
    assert!(report.track_locations.is_empty());
    assert_eq!(
        messages(&report.warnings),
        vec!["song Song /  / Y not found", "song Song / 未知 / Y unused"]
    );
}

#[test]
fn a_track_without_a_play_count_leaves_the_play_count_alone() {
    let tracks = vec![song(1, "Song", Some("X"), Some("Y"), 1)];
    let mut db = parse(
        "<rhythmdb version=\"2.0\">
  <entry type=\"song\">
    <title>Song</title>
    <artist>X</artist>
    <album>Y</album>
    <disc-number>1</disc-number>
    <track-number>1</track-number>
    <location>file:///music/a.mp3</location>
    <play-count>3</play-count>
  </entry>
</rhythmdb>",
    );
    let report = sync(&mut db, &tracks).unwrap();
    let entry = db.get_child(0).unwrap();
    assert_eq!(entry.find("play-count").unwrap().text(), "3");
    assert_eq!(entry.find_all("play-count").count(), 1);
    assert_eq!(entry.find("first-seen").unwrap().text(), "1000");
    assert!(report.warnings.is_empty());
}

#[test]
fn a_play_count_of_zero_leaves_the_play_count_alone() {
    let mut a = song(1, "Song", Some("X"), Some("Y"), 1);
    a.play_count = Some(0);
    let tracks = vec![a];
    let mut db = parse(
        "<rhythmdb version=\"2.0\">
  <entry type=\"song\">
    <title>Song</title>
    <artist>X</artist>
    <album>Y</album>
    <disc-number>1</disc-number>
    <track-number>1</track-number>
    <location>file:///music/a.mp3</location>
    <play-count>3</play-count>
  </entry>
</rhythmdb>",
    );
    let report = sync(&mut db, &tracks).unwrap();
    let entry = db.get_child(0).unwrap();
    assert_eq!(entry.find("play-count").unwrap().text(), "3");
    assert_eq!(entry.find_all("play-count").count(), 1);
    assert!(report.warnings.is_empty());
    let mut bare = parse(TWO_SONGS);
    sync(&mut bare, &tracks).unwrap();
    assert!(bare.get_child(0).unwrap().find("play-count").is_none());
}

#[test]
fn children_that_are_no_songs_pass_untouched() {
    let tracks = vec![song(1, "Song", Some("X"), Some("Y"), 1)];
    let mut db = parse(
        "<rhythmdb version=\"2.0\">
  <entry type=\"iradio\">
    <title>Song</title>
    <artist>X</artist>
    <album>Y</album>
    <disc-number>one</disc-number>
    <track-number>1</track-number>
  </entry>
  <entry>
    <title>Song</title>
  </entry>
  <entry type=\"ignore\"/>
</rhythmdb>",
    );
    let before = written(&db);
    let report = sync(&mut db, &tracks).unwrap();
    assert_eq!(written(&db), before);
    assert_eq!(messages(&report.warnings), vec!["song Song / X / Y unused"]);
    assert!(report.track_locations.is_empty());
}

#[test]
fn absent_parts_of_a_song_are_absent_in_its_key() {
    let mut a = song(1, "Song", None, None, 1);
    a.disc_number = None;
    a.track_number = None;
    let tracks = vec![a];
    let mut db = parse(
        "<rhythmdb version=\"2.0\"><entry type=\"song\"><title>Song</title><location>l</location></entry></rhythmdb>",
    );
    let report = sync(&mut db, &tracks).unwrap();
    assert_eq!(report.track_locations[&1], "l");
    let entry = db.get_child(0).unwrap();
    assert_eq!(entry.child_count(), 3);
    assert_eq!(entry.get_child(2).unwrap().text(), "1000");
    assert_eq!(entry.get_child(2).unwrap().tail(), "");
    assert_eq!(entry.get_child(1).unwrap().tail(), "");
}

#[test]
fn of_two_songs_for_one_track_the_later_location_counts() {
    let tracks = vec![song(1, "Song", Some("X"), Some("Y"), 1)];
    let mut db = parse(
        "<rhythmdb version=\"2.0\">
  <entry type=\"song\">
    <title>Song</title><artist>X</artist><album>Y</album>
    <disc-number>1</disc-number><track-number>+1</track-number>
    <location>first</location>
  </entry>
  <entry type=\"song\">
    <title>Song</title><artist>X</artist><album>Y</album>
    <disc-number>1</disc-number><track-number>01</track-number>
    <location>second</location>
  </entry>
</rhythmdb>",
    );
    let report = sync(&mut db, &tracks).unwrap();
    assert_eq!(report.track_locations.len(), 1);
    assert_eq!(report.track_locations[&1], "second");
    assert_eq!(db.get_child(0).unwrap().find("first-seen").unwrap().text(), "1000");
    assert_eq!(db.get_child(1).unwrap().find("first-seen").unwrap().text(), "1000");
    assert!(report.warnings.is_empty());
}

#[test]
fn dates_before_the_epoch_are_written_with_a_sign() {
    let mut a = song(1, "Song", Some("X"), Some("Y"), 1);
    a.date_added = -86400;
    a.play_date = Some(0);
    let tracks = vec![a];
    let mut db = parse(TWO_SONGS);
    sync(&mut db, &tracks).unwrap();
    let entry = db.get_child(0).unwrap();
    assert_eq!(entry.find("first-seen").unwrap().text(), "-86400");
    assert_eq!(entry.find("last-played").unwrap().text(), "0");
}

#[test]
fn unused_tracks_are_told_in_their_order() {
    let tracks = vec![
        song(1, "A", None, None, 1),
        song(2, "Song", Some("X"), Some("Y"), 2),
        song(3, "B", Some("X"), None, 1),
    ];
    let mut db = parse(TWO_SONGS);
    let report = sync(&mut db, &tracks).unwrap();
    assert_eq!(
        messages(&report.warnings),
        vec!["song Song / X / Y not found", "song A /  /  unused", "song B / X /  unused"]
    );
    assert_eq!(report.track_locations.len(), 1);
    assert_eq!(report.track_locations[&2], "file:///music/b.mp3");
}

#[test]
fn a_root_that_is_no_database_is_refused() {
    let tracks = vec![song(1, "Song", Some("X"), Some("Y"), 1)];
    let mut db = parse("<rhythmdb-playlists version=\"2.0\"><entry type=\"song\"/></rhythmdb-playlists>");
    let before = written(&db);
    assert_eq!(sync(&mut db, &tracks).err(), Some(Error::UnknownDatabaseFormat));
    assert_eq!(written(&db), before);
    let mut spaced = parse("<rhythmdb xmlns=\"tag:other\" version=\"2.0\"/>");
    assert_eq!(sync(&mut spaced, &tracks).err(), Some(Error::UnknownDatabaseFormat));
}

#[test]
fn a_database_of_another_version_is_refused() {
    let tracks = vec![song(1, "Song", Some("X"), Some("Y"), 1)];
    let mut db = parse("<rhythmdb version=\"1.9\"/>");
    assert_eq!(sync(&mut db, &tracks).err(), Some(Error::UnknownDatabaseVersion));
    let mut db = parse("<rhythmdb/>");
    assert_eq!(sync(&mut db, &tracks).err(), Some(Error::UnknownDatabaseVersion));
    let mut db = parse("<rhythmdb version=\"2.0\"/>");
    assert!(sync(&mut db, &tracks).is_ok());
}

#[test]
fn a_child_that_is_no_entry_is_refused() {
    let mut a = song(1, "Song", Some("X"), Some("Y"), 1);
    a.play_count = Some(5);
    let tracks = vec![a];
    let mut db = parse(
        "<rhythmdb version=\"2.0\">
  <entry type=\"song\">
    <title>Song</title>
    <artist>X</artist>
    <album>Y</album>
    <disc-number>1</disc-number>
    <track-number>1</track-number>
    <location>file:///music/a.mp3</location>
  </entry>
  <other/>
  <entry type=\"song\">
    <title>Song</title>
  </entry>
</rhythmdb>",
    );
    assert_eq!(sync(&mut db, &tracks).err(), Some(Error::UnknownEntryElement));
    assert_eq!(db.get_child(0).unwrap().find("play-count").unwrap().text(), "5");
    assert_eq!(db.get_child(2).unwrap().child_count(), 1);
}

#[test]
fn a_song_without_a_title_is_refused() {
    let tracks = vec![song(1, "Song", Some("X"), Some("Y"), 1)];
    let mut db = parse(
        "<rhythmdb version=\"2.0\"><entry type=\"song\"><artist>X</artist><disc-number>x</disc-number></entry></rhythmdb>",
    );
    let before = written(&db);
    assert_eq!(sync(&mut db, &tracks).err(), Some(Error::SongWithoutName));
    assert_eq!(written(&db), before);
}

#[test]
fn a_song_without_a_location_is_refused() {
    let tracks = vec![song(1, "Song", Some("X"), Some("Y"), 1)];
    let mut db = parse(
        "<rhythmdb version=\"2.0\"><entry type=\"song\"><title>Song</title><artist>X</artist><album>Y</album><disc-number>1</disc-number><track-number>1</track-number></entry></rhythmdb>",
    );
    let before = written(&db);
    assert_eq!(sync(&mut db, &tracks).err(), Some(Error::SongWithoutLocation));
    assert_eq!(written(&db), before);
}

#[test]
fn a_disc_number_that_is_no_number_is_refused() {
    let tracks = vec![song(1, "Song", Some("X"), Some("Y"), 1)];
    for text in ["one", "", "-1", "1.5", " 1", "99999999999999999999999999"] {
        let mut db = parse(
            "<rhythmdb version=\"2.0\"><entry type=\"song\"><title>Song</title><disc-number>1</disc-number><track-number>x</track-number></entry></rhythmdb>",
        );
        db.get_child_mut(0).unwrap().find_mut("disc-number").unwrap().set_text(text);
        assert_eq!(sync(&mut db, &tracks).err(), Some(Error::InvalidDiscNumber));
    }
}

#[test]
fn a_track_number_that_is_no_number_is_refused() {
    let tracks = vec![song(1, "Song", Some("X"), Some("Y"), 1)];
    let mut db = parse(
        "<rhythmdb version=\"2.0\"><entry type=\"song\"><title>Song</title><disc-number>1</disc-number><track-number>1st</track-number></entry></rhythmdb>",
    );
    assert_eq!(sync(&mut db, &tracks).err(), Some(Error::InvalidTrackNumber));
}

#[test]
fn merging_sets_the_three_fields_and_tells_what_it_replaced() {
    let mut a = song(1, "Song", Some("X"), None, 1);
    a.play_count = Some(12);
    a.play_date = Some(77);
    a.date_added = 66;
    let mut entry = parse("<entry type=\"song\">\n  <title>Song</title>\n  <play-count>1</play-count>\n</entry>");
    let mut warnings = Vec::new();
    merge_track(&mut entry, &a, &mut warnings);
    assert_eq!(entry.child_count(), 4);
    assert_eq!(entry.get_child(0).unwrap().text(), "Song");
    assert_eq!(entry.get_child(1).unwrap().text(), "12");
    assert_eq!(entry.get_child(2).unwrap().tag().name(), "first-seen");
    assert_eq!(entry.get_child(2).unwrap().text(), "66");
    assert_eq!(entry.get_child(3).unwrap().tag().name(), "last-played");
    assert_eq!(entry.get_child(3).unwrap().text(), "77");
    assert_eq!(entry.get_child(1).unwrap().tail(), "\n  ");
    assert_eq!(entry.get_child(2).unwrap().tail(), "\n  ");
    assert_eq!(entry.get_child(3).unwrap().tail(), "\n");
    assert_eq!(entry.get_attr("type"), Some("song"));
    assert_eq!(messages(&warnings), vec!["overriding play-count of Song / X / : 1"]);
}

#[test]
fn merging_into_an_entry_without_children_adds_them() {
    let a = song(1, "Song", None, None, 1);
    let mut entry = parse("<entry/>");
    let mut warnings = Vec::new();
    merge_track(&mut entry, &a, &mut warnings);
    assert_eq!(entry.child_count(), 1);
    assert_eq!(entry.get_child(0).unwrap().tag().name(), "first-seen");
    assert_eq!(entry.get_child(0).unwrap().text(), "1000");
    assert_eq!(entry.get_child(0).unwrap().tail(), "");
    assert!(warnings.is_empty());
}

#[test]
fn the_key_of_a_song_is_read_from_its_children() {
    let entry = parse(
        "<entry type=\"song\"><title>Song</title><artist>X</artist><album>Y</album><disc-number>2</disc-number><track-number>+07</track-number><title>Second</title></entry>",
    );
    let key = song_key(&entry).unwrap();
    assert_eq!(key.name, "Song");
    assert_eq!(key.artist, Some("X"));
    assert_eq!(key.album, Some("Y"));
    assert_eq!(key.disc_number, Some(2));
    assert_eq!(key.track_number, Some(7));
    assert_eq!(key.to_string(), "Song / X / Y");
}

#[test]
fn the_key_of_a_song_is_exact_in_its_texts() {
    let entry = parse("<entry><title> Song</title><artist>x</artist><album></album></entry>");
    let key = song_key(&entry).unwrap();
    assert_eq!(key.name, " Song");
    assert_eq!(key.artist, Some("x"));
    assert_eq!(key.album, Some(""));
    assert_eq!(key.disc_number, None);
    assert_eq!(key.track_number, None);
}

#[test]
fn the_key_of_a_song_of_unknown_artist_has_no_artist() {
    let entry = parse("<entry><title>Song</title><artist>未知</artist></entry>");
    let key = song_key(&entry).unwrap();
    assert_eq!(key.artist, None);
    let entry = parse("<entry><title>Song</title><artist>未知 </artist></entry>");
    assert_eq!(song_key(&entry).unwrap().artist, Some("未知 "));
}

#[test]
fn a_song_has_no_key_without_a_title_or_with_a_bad_number() {
    let entry = parse("<entry><artist>X</artist><disc-number>x</disc-number></entry>");
    assert_eq!(song_key(&entry).err(), Some(Error::SongWithoutName));
    let entry = parse(
        "<entry><title>Song</title><track-number>x</track-number><disc-number>x</disc-number></entry>",
    );
    assert_eq!(song_key(&entry).err(), Some(Error::InvalidDiscNumber));
    let entry = parse("<entry><title>Song</title><track-number>x</track-number></entry>");
    assert_eq!(song_key(&entry).err(), Some(Error::InvalidTrackNumber));
    let entry = parse("<entry><title>Song</title><track-number/></entry>");
    assert_eq!(song_key(&entry).err(), Some(Error::InvalidTrackNumber));
}
