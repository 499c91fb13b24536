use std::path::PathBuf;

use cdadd::album_info::{sort_tracks, AlbumInfo};
use cdadd::cddb_read::read_cddb;
use cdadd::date::Date;
use cdadd::err::Error;
use cdadd::get_perf::get_perf;
use cdadd::track_info::{primary_performer, strip_quotes, IssueKind, TrackInfo};

fn lines(ls: &[&str]) -> Vec<String> {
    ls.iter().map(|l| l.to_string()).collect()
}

fn track_at(n: Option<usize>, file: &str) -> (TrackInfo, PathBuf) {
    let mut t = TrackInfo::default();
    t.track = n;
    (t, PathBuf::from(file))
}

#[test]
fn feat_two_performers() {
    let r = get_perf("Song (feat. A & B)").unwrap();
    assert_eq!(r, vec!["A".to_string(), "B".to_string()]);
}

#[test]
fn feat_none_without_marker() {
    assert!(get_perf("Song").unwrap().is_empty());
}

#[test]
fn feat_unterminated_marker_fails() {
    assert!(matches!(get_perf("Song (feat. A"), Err(Error::ParseFeat(_))));
}

#[test]
fn feat_keeps_empty_pieces() {
    let r = get_perf("X (feat. A && B) more").unwrap();
    assert_eq!(r, vec!["A".to_string(), "".to_string(), "B".to_string()]);
}

#[test]
fn feat_first_marker_and_next_paren() {
    let r = get_perf("X (feat.  Solo ) (feat. Other)").unwrap();
    assert_eq!(r, vec!["Solo".to_string()]);
}

#[test]
fn primary_performer_before_comma() {
    assert_eq!(primary_performer("Doe, Jane"), "Doe");
}

#[test]
fn primary_performer_before_featuring() {
    assert_eq!(primary_performer("Jane Doe Featuring Someone"), "Jane Doe");
}

#[test]
fn primary_performer_whole() {
    assert_eq!(primary_performer("Solo Artist"), "Solo Artist");
}

#[test]
fn quotes_stripped_in_pairs_only() {
    assert_eq!(strip_quotes("'abc'"), "abc");
    assert_eq!(strip_quotes("'abc"), "'abc");
    assert_eq!(strip_quotes("abc'"), "abc'");
    assert_eq!(strip_quotes("'"), "'");
    assert_eq!(strip_quotes("''"), "");
}

#[test]
fn blob_repeated_key_concatenates() {
    let b = read_cddb(&lines(&["X=a", "X=b"])).unwrap();
    assert_eq!(b.get("X"), Some("ab".to_string()));
}

#[test]
fn blob_skips_comments_blank_and_empty_values() {
    let b = read_cddb(&lines(&["# comment", "", "EMPTY=", "K=v=w"])).unwrap();
    assert_eq!(b.get("EMPTY"), None);
    assert_eq!(b.get("K"), Some("v=w".to_string()));
    assert_eq!(b.get("# comment"), None);
}

#[test]
fn blob_line_without_equals_fails() {
    assert!(matches!(read_cddb(&lines(&["A=1", "oops"])), Err(Error::ParseCddb)));
}

#[test]
fn blob_title_splits_into_artist_and_disc_name() {
    let mut a = AlbumInfo::new(vec![]);
    a.read_cddb(&lines(&["DTITLE=Artist / Album Title"])).unwrap();
    assert_eq!(a.artist.as_deref(), Some("Artist"));
    assert_eq!(a.disc_name.as_deref(), Some("Album Title"));
}

#[test]
fn blob_title_without_separator_sets_nothing() {
    let mut a = AlbumInfo::new(vec![]);
    a.read_cddb(&lines(&["DTITLE=Just a title"])).unwrap();
    assert_eq!(a.artist, None);
    assert_eq!(a.disc_name, None);
}

#[test]
fn blob_fields_read() {
    let mut a = AlbumInfo::new(vec![]);
    a.read_cddb(&lines(&["DISCID=a1b2c3", "DYEAR=1999", "DGENRE=Rock"]))
        .unwrap();
    assert_eq!(a.cddb, Some(0xa1b2c3));
    assert_eq!(a.date, Some(Date::new(1999, 1, 1)));
    assert_eq!(a.genre.as_deref(), Some("Rock"));
}

#[test]
fn blob_bad_checksum_changes_nothing() {
    let mut a = AlbumInfo::new(vec![]);
    assert!(matches!(
        a.read_cddb(&lines(&["DISCID=zz", "DGENRE=Rock"])),
        Err(Error::ParseInt)
    ));
    assert_eq!(a.genre, None);
    assert_eq!(a.cddb, None);
}

#[test]
fn blob_checksum_wins_over_tracks() {
    let (mut t, p) = track_at(Some(1), "01.wav");
    t.cddb = Some(0xffeeff);
    let (a, err) = AlbumInfo::from_tracks(vec![(t, p)], Some(lines(&["DISCID=a1b2c3"])));
    assert!(err.is_none());
    assert_eq!(a.cddb, Some(0xa1b2c3));
    assert_eq!(a.tracks[0].0.cddb, Some(0xffeeff));
}

#[test]
fn album_date_is_latest_track_date() {
    let mut tracks = vec![];
    for (i, d) in [Date::new(2001, 1, 1), Date::new(2003, 5, 1), Date::new(1999, 12, 31)]
        .into_iter()
        .enumerate()
    {
        let (mut t, p) = track_at(Some(i + 1), "x.wav");
        t.date = Some(d);
        tracks.push((t, p));
    }
    let (a, _) = AlbumInfo::from_tracks(tracks, None);
    assert_eq!(a.date, Some(Date::new(2003, 5, 1)));
}

#[test]
fn album_fields_from_first_present_track() {
    let (mut t1, path1) = track_at(Some(1), "1.wav");
    let (mut t2, path2) = track_at(Some(2), "2.wav");
    t1.artist = Some("Solo".into());
    t2.album_artist = Some("Band".into());
    t2.genre = Some("Jazz".into());
    t2.disc_name = Some("Disc".into());
    let (a, _) = AlbumInfo::from_tracks(vec![(t2, path2), (t1, path1)], None);
    assert_eq!(a.artist.as_deref(), Some("Band"));
    assert_eq!(a.genre.as_deref(), Some("Jazz"));
    assert_eq!(a.album_title.as_deref(), Some("Disc"));
    assert_eq!(a.tracks[0].0.track, Some(1));
    assert_eq!(a.tracks[0].0.genre.as_deref(), Some("Jazz"));
    assert_eq!(a.tracks[0].0.artist.as_deref(), Some("Solo"));
    assert_eq!(a.tracks[0].0.album_artist.as_deref(), Some("Band"));
    assert_eq!(a.tracks[1].0.artist, None);
    assert_eq!(a.tracks[1].0.album_artist.as_deref(), Some("Band"));
}

#[test]
fn backfill_fills_album_performer_only() {
    let (mut t, p) = track_at(Some(1), "1.wav");
    t.artist = Some("Own".into());
    let mut a = AlbumInfo::new(vec![(t, p)]);
    a.artist = Some("Album".into());
    a.resolve();
    assert_eq!(a.tracks[0].0.album_artist.as_deref(), Some("Album"));
    assert_eq!(a.tracks[0].0.artist.as_deref(), Some("Own"));
}

#[test]
fn empty_primary_performer_is_absent() {
    let t = TrackInfo::from_ini("Performer=', X'\n").unwrap();
    assert_eq!(t.artist, None);
    let u = TrackInfo::from_ini("Performer=' Featuring X'\n").unwrap();
    assert_eq!(u.artist, None);
}

#[test]
fn blob_title_empty_parts_are_absent() {
    let mut a = AlbumInfo::new(vec![]);
    a.read_cddb(&lines(&["DTITLE= / Album"])).unwrap();
    assert_eq!(a.artist, None);
    assert_eq!(a.disc_name.as_deref(), Some("Album"));
}

#[test]
fn issues_reported_in_order() {
    let (t, issues) = TrackInfo::read_ini(
        "Tracktitle='T (feat. A'\nCDINDEX_DISCID=''\nCDDB_DISCID=0xzz\nAlbumperformer=B\nAlbumtitle=D\nISRC=I\nPerformer=', X'\nTrack=x\n",
    )
    .unwrap();
    assert_eq!(t.track, None);
    let got: Vec<(IssueKind, String, String)> = issues
        .into_iter()
        .map(|i| (i.kind, i.key, i.value))
        .collect();
    assert_eq!(
        got,
        vec![
            (IssueKind::Featuring, "Tracktitle".to_string(), "T (feat. A".to_string()),
            (IssueKind::Empty, "CDINDEX_DISCID".to_string(), String::new()),
            (IssueKind::Invalid, "CDDB_DISCID".to_string(), "0xzz".to_string()),
            (IssueKind::Empty, "Performer".to_string(), String::new()),
            (IssueKind::Invalid, "Track".to_string(), "x".to_string()),
        ]
    );
}

#[test]
fn issues_for_missing_properties() {
    let (_, issues) = TrackInfo::read_ini("ISRC=I\n").unwrap();
    let keys: Vec<_> = issues
        .iter()
        .filter(|i| i.kind == IssueKind::Missing)
        .map(|i| i.key.clone())
        .collect();
    assert_eq!(
        keys,
        vec![
            "Tracktitle",
            "CDINDEX_DISCID",
            "CDDB_DISCID",
            "Albumperformer",
            "Albumtitle",
            "Performer",
            "Track"
        ]
    );
    assert_eq!(issues.len(), 7);
}

#[test]
fn tracks_sort_stably_absent_position_as_zero() {
    let sorted = sort_tracks(vec![
        track_at(Some(3), "a"),
        track_at(None, "b"),
        track_at(Some(1), "c"),
        track_at(Some(0), "d"),
        track_at(Some(1), "e"),
    ]);
    let names: Vec<_> = sorted.iter().map(|(_, p)| p.to_str().unwrap().to_string()).collect();
    assert_eq!(names, vec!["b", "d", "c", "e", "a"]);
}

#[test]
fn normalize_clears_equal_album_performer() {
    let mut t = TrackInfo::default();
    t.album_artist = Some("A".into());
    t.artist = Some("A".into());
    t.disc_name = Some("D".into());
    t.album = Some("D".into());
    t.normalize();
    assert_eq!(t.album_artist, None);
    assert_eq!(t.artist.as_deref(), Some("A"));
    assert_eq!(t.disc_name, None);
}

#[test]
fn normalize_keeps_different_album_performer() {
    let mut t = TrackInfo::default();
    t.album_artist = Some("A".into());
    t.artist = Some("B".into());
    t.normalize();
    assert_eq!(t.album_artist.as_deref(), Some("A"));
    assert_eq!(t.artist.as_deref(), Some("B"));
}

#[test]
fn pipeline_twice_changes_nothing() {
    let (mut t1, path1) = track_at(Some(1), "1.wav");
    t1.artist = Some("Solo".into());
    t1.album_artist = Some("Solo".into());
    t1.cdindex = Some("idx".into());
    t1.date = Some(Date::new(2000, 2, 3));
    let (mut t2, path2) = track_at(Some(2), "2.wav");
    t2.genre = Some("Pop".into());
    let (mut a, _) = AlbumInfo::from_tracks(vec![(t1, path1), (t2, path2)], None);
    a.normalize();
    let first = format!("{:?}", a);
    a.resolve();
    a.normalize();
    assert_eq!(format!("{:?}", a), first);
}

#[test]
fn date_parse_forms() {
    assert_eq!(Date::parse("2003-05-01").unwrap(), Date::new(2003, 5, 1));
    assert_eq!(Date::parse("1999").unwrap(), Date::year(1999));
    assert!(matches!(Date::parse("2003-05"), Err(Error::ParseDate)));
    assert!(matches!(Date::parse("-5"), Err(Error::ParseDate)));
    assert!(matches!(Date::parse("x"), Err(Error::ParseInt)));
    assert!(matches!(Date::parse("2003-13-300"), Err(Error::ParseInt)));
    let d: Date = "2010-10-10".parse().unwrap();
    assert_eq!(d, Date::new(2010, 10, 10));
}

#[test]
fn date_text_padding() {
    assert_eq!(Date::new(2003, 5, 1).text(), "2003-05-01");
    assert_eq!(Date::new(-5, 12, 31).text(), "-005-12-31");
    assert_eq!(Date::new(12345, 1, 1).text(), "12345-01-01");
}

#[test]
fn track_from_ini_text() {
    let text = "CDINDEX_DISCID='abc'\nCDDB_DISCID=0xa1b2c3\nAlbumperformer='Band'\nAlbumtitle='Disc'\nISRC=''\nPerformer='Doe, Jane'\nTracktitle='Song (feat. A & B)'\nTrack=3\n";
    let t = TrackInfo::from_ini(text).unwrap();
    assert_eq!(t.cdindex.as_deref(), Some("abc"));
    assert_eq!(t.cddb, Some(0xa1b2c3));
    assert_eq!(t.album_artist.as_deref(), Some("Band"));
    assert_eq!(t.disc_name.as_deref(), Some("Disc"));
    assert_eq!(t.isrc, None);
    assert_eq!(t.artist.as_deref(), Some("Doe"));
    assert_eq!(t.title.as_deref(), Some("Song (feat. A & B)"));
    assert_eq!(t.feat, vec!["A".to_string(), "B".to_string()]);
    assert_eq!(t.track, Some(3));
    assert_eq!(t.album, None);
}

#[test]
fn track_from_ini_bad_numbers_are_absent() {
    let t = TrackInfo::from_ini("\u{feff}Track=x\nCDDB_DISCID=0x\nTracktitle='T (feat. A'\n").unwrap();
    assert_eq!(t.track, None);
    assert_eq!(t.cddb, None);
    assert!(t.feat.is_empty());
    assert_eq!(t.title.as_deref(), Some("T (feat. A"));
}

#[test]
fn track_from_properties() {
    let mut p = ini::Properties::new();
    p.insert("Performer", "'Jane Doe Featuring X'");
    p.insert("Track", "12");
    let t = TrackInfo::from_properties(&p);
    assert_eq!(t.artist.as_deref(), Some("Jane Doe"));
    assert_eq!(t.track, Some(12));
    assert_eq!(t.title, None);
}

#[test]
fn track_from_bad_ini_fails() {
    assert!(matches!(TrackInfo::from_ini("=x\n"), Err(Error::Ini(_))));
}

#[test]
fn track_reads_general_section_only() {
    let t = TrackInfo::from_ini("[other]\nTrack=1\n").unwrap();
    assert_eq!(t.track, None);
}

#[test]
fn blob_bad_year_keeps_title() {
    let mut a = AlbumInfo::new(vec![]);
    let r = a.read_cddb(&lines(&["DTITLE=A / B", "DYEAR=soon", "DGENRE=Rock"]));
    assert!(r.is_err());
    assert_eq!(a.artist.as_deref(), Some("A"));
    assert_eq!(a.date, None);
    assert_eq!(a.genre, None);
}
