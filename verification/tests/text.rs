use itunes_to_rhythmbox::itunes_library::TrackId;
use itunes_to_rhythmbox::report::Error;
use itunes_to_rhythmbox::report::Warning;
use itunes_to_rhythmbox::text::i64_to_string;
use itunes_to_rhythmbox::text::parse_u64;
use itunes_to_rhythmbox::text::parse_usize;
use itunes_to_rhythmbox::text::str_eq;
use itunes_to_rhythmbox::text::u64_to_string;

#[test]
fn str_eq_tells_equal_from_different() {
    assert!(str_eq("", ""));
    assert!(str_eq("song", "song"));
    assert!(str_eq("未知", "未知"));
    assert!(!str_eq("song", "Song"));
    assert!(!str_eq("song", "songs"));
    assert!(!str_eq("未知", "未来"));
    assert!(!str_eq("", " "));
}

#[test]
fn parse_reads_plain_digits() {
    assert_eq!(parse_u64("0"), Some(0));
    assert_eq!(parse_u64("7"), Some(7));
    assert_eq!(parse_u64("12"), Some(12));
    assert_eq!(parse_u64("007"), Some(7));
    assert_eq!(parse_usize("1234"), Some(1234));
}

#[test]
fn parse_accepts_a_leading_plus() {
    assert_eq!(parse_u64("+7"), Some(7));
    assert_eq!(parse_usize("+12"), Some(12));
}

#[test]
fn parse_refuses_what_is_no_number() {
    assert_eq!(parse_u64(""), None);
    assert_eq!(parse_u64("+"), None);
    assert_eq!(parse_u64("-1"), None);
    assert_eq!(parse_u64("++1"), None);
    assert_eq!(parse_u64("1+"), None);
    assert_eq!(parse_u64("1a"), None);
    assert_eq!(parse_u64("a1"), None);
    assert_eq!(parse_u64(" 1"), None);
    assert_eq!(parse_u64("1 "), None);
    assert_eq!(parse_u64("1.0"), None);
    assert_eq!(parse_u64("１"), None);
    assert_eq!(parse_usize("one"), None);
}

#[test]
fn parse_agrees_with_the_standard_library() {
    let texts = [
        "", "+", "-", "0", "+0", "-0", "12", "+12", "0012", "1_000", "18446744073709551615",
        "18446744073709551616", "99999999999999999999999", "4294967295", "4294967296", "٣",
        "12abc", "+ 1",
    ];
    for text in texts {
        assert_eq!(parse_u64(text), text.parse::<u64>().ok());
        assert_eq!(parse_usize(text), text.parse::<usize>().ok());
    }
}

#[test]
fn parse_stops_at_the_largest_number() {
    assert_eq!(parse_u64("18446744073709551615"), Some(u64::MAX));
    assert_eq!(parse_u64("18446744073709551616"), None);
    assert_eq!(parse_u64("18446744073709551620"), None);
    assert_eq!(parse_u64("184467440737095516150"), None);
    assert_eq!(parse_usize(&usize::MAX.to_string()), Some(usize::MAX));
    assert_eq!(parse_usize("340282366920938463463374607431768211456"), None);
}

#[test]
fn numbers_are_written_in_decimal() {
    assert_eq!(u64_to_string(0), "0");
    assert_eq!(u64_to_string(5), "5");
    assert_eq!(u64_to_string(10), "10");
    assert_eq!(u64_to_string(1234567890), "1234567890");
    assert_eq!(u64_to_string(u64::MAX), "18446744073709551615");
    assert_eq!(i64_to_string(0), "0");
    assert_eq!(i64_to_string(1600000000), "1600000000");
    assert_eq!(i64_to_string(-5), "-5");
    assert_eq!(i64_to_string(-120), "-120");
    assert_eq!(i64_to_string(i64::MAX), "9223372036854775807");
    assert_eq!(i64_to_string(i64::MIN), "-9223372036854775808");
}

#[test]
fn written_numbers_are_read_back() {
    for n in [0u64, 1, 9, 10, 99, 100, 65535, 4294967296, u64::MAX] {
        assert_eq!(parse_u64(&u64_to_string(n)), Some(n));
    }
}

#[test]
fn track_id_from_an_integer() {
    assert_eq!(TrackId::from_integer(0), Some(TrackId(0)));
    assert_eq!(TrackId::from_integer(4711), Some(TrackId(4711)));
    assert_eq!(TrackId::from_integer(u64::MAX as i128), Some(TrackId(u64::MAX)));
    assert_eq!(TrackId::from_integer(u64::MAX as i128 + 1), None);
    assert_eq!(TrackId::from_integer(-1), None);
}

#[test]
fn track_id_from_a_text() {
    assert_eq!(TrackId::parse("4711"), Some(TrackId(4711)));
    assert_eq!(TrackId::parse("18446744073709551615"), Some(TrackId(u64::MAX)));
    assert_eq!(TrackId::parse("18446744073709551616"), None);
    assert_eq!(TrackId::parse("-3"), None);
    assert_eq!(TrackId::parse("x"), None);
    assert_eq!(TrackId::parse(""), None);
}

#[test]
fn errors_have_their_words() {
    assert_eq!(Error::DuplicateSong.message(), "duplicate song in iTunes library");
    assert_eq!(Error::UnknownDatabaseFormat.message(), "unknown database format");
    assert_eq!(Error::UnknownDatabaseVersion.message(), "unknown database version");
    assert_eq!(Error::UnknownEntryElement.message(), "unknown entry element in database");
    assert_eq!(Error::SongWithoutName.message(), "song without name");
    assert_eq!(Error::SongWithoutLocation.message(), "song without location");
    assert_eq!(Error::InvalidDiscNumber.message(), "invalid disc number");
    assert_eq!(Error::InvalidTrackNumber.message(), "invalid track number");
    assert_eq!(Error::UnknownPlaylistsFormat.message(), "unknown playlists format");
    assert_eq!(Error::NoPlaylists.message(), "no playlist in playlists");
}

#[test]
fn warnings_have_their_words() {
    let w = Warning::SongNotFound { key: "Song / X / Y".to_string() };
    assert_eq!(w.message(), "song Song / X / Y not found");
    let w = Warning::Overriding {
        tag: "play-count".to_string(),
        key: "Song / X / Y".to_string(),
        old: "3".to_string(),
    };
    assert_eq!(w.message(), "overriding play-count of Song / X / Y: 3");
    let w = Warning::SongUnused { key: "Song /  / ".to_string() };
    assert_eq!(w.message(), "song Song /  /  unused");
    let w = Warning::SmartPlaylist { name: "Top 25".to_string() };
    assert_eq!(w.message(), "playlist Top 25 is skipped because it's smart");
    let w = Warning::ItemsNotFound { count: 12, name: "Road".to_string() };
    assert_eq!(w.message(), "12 items in playlist Road are not found");
}
