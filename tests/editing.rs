use std::path::PathBuf;

use cdadd::album_info::AlbumInfo;
use cdadd::cli::{classify_arg, Action, Args, Flag};
use cdadd::date::Date;
use cdadd::edit::{field_str, parse_command, EditCommand};
use cdadd::err::Error;
use cdadd::track_info::TrackInfo;

fn album_of_two() -> AlbumInfo {
    let mut t1 = TrackInfo::default();
    t1.disc = Some(1);
    let t2 = TrackInfo::default();
    AlbumInfo::new(vec![(t1, PathBuf::from("1.wav")), (t2, PathBuf::from("2.wav"))])
}

#[test]
fn command_done_and_quit() {
    assert!(matches!(parse_command(":done\n"), EditCommand::Done));
    assert!(matches!(parse_command("  :  D  "), EditCommand::Done));
    assert!(matches!(parse_command(":Cancel"), EditCommand::Quit));
    assert!(matches!(parse_command(":q"), EditCommand::Quit));
}

#[test]
fn command_unknown_is_lowercased() {
    match parse_command(":Whatever\n") {
        EditCommand::UnknownCommand(c) => assert_eq!(c, "whatever"),
        other => panic!("unexpected {other:?}"),
    }
}

#[test]
fn command_sets_field() {
    match parse_command(" Disc Name = Second Disc \n") {
        EditCommand::SetField(f, v) => {
            assert_eq!(f, "disc name");
            assert_eq!(v, "Second Disc");
        }
        other => panic!("unexpected {other:?}"),
    }
    match parse_command("date: 2001-01-01") {
        EditCommand::SetField(f, v) => {
            assert_eq!(f, "date");
            assert_eq!(v, "2001-01-01");
        }
        other => panic!("unexpected {other:?}"),
    }
}

#[test]
fn command_without_value() {
    assert!(matches!(parse_command("genre\n"), EditCommand::MissingValue));
}

#[test]
fn set_field_reaches_every_track() {
    let mut a = album_of_two();
    a.set_field("disc", "2").unwrap();
    assert_eq!(a.disc, Some(2));
    assert_eq!(a.tracks[0].0.disc, Some(2));
    assert_eq!(a.tracks[1].0.disc, Some(2));
    a.set_field("album artist", "Band").unwrap();
    assert_eq!(a.artist.as_deref(), Some("Band"));
    assert_eq!(a.tracks[1].0.album_artist.as_deref(), Some("Band"));
    a.set_field("cddb", "ff").unwrap();
    assert_eq!(a.tracks[0].0.cddb, Some(0xff));
    a.set_field("year", "1990").unwrap();
    assert_eq!(a.tracks[1].0.date, Some(Date::new(1990, 1, 1)));
}

#[test]
fn set_field_failures_change_nothing() {
    let mut a = album_of_two();
    assert!(matches!(a.set_field("disc", "two"), Err(Error::ParseInt)));
    assert_eq!(a.disc, None);
    assert_eq!(a.tracks[0].0.disc, Some(1));
    assert!(matches!(a.set_field("color", "red"), Err(Error::UnknownField)));
}

#[test]
fn field_text_or_dashes() {
    assert_eq!(field_str(None), "--");
    assert_eq!(field_str(Some("x".into())), "x");
}

#[test]
fn arguments_classified() {
    assert_eq!(classify_arg("-?"), Flag::Help);
    assert_eq!(classify_arg("--encode"), Flag::Encode);
    assert_eq!(classify_arg("-o"), Flag::Output);
    assert_eq!(classify_arg("--interactive"), Flag::Interactive);
    assert_eq!(classify_arg("out"), Flag::Positional);
    assert_eq!(classify_arg(""), Flag::Positional);
    assert_eq!(classify_arg("-x"), Flag::Unknown);
}

#[test]
fn actions_exclusive() {
    let mut a = Args::new();
    assert!(matches!(a.validate(), Err(Error::InvalidUsage(_))));
    a.set_help().unwrap();
    assert!(matches!(a.set_encode("dir".into()), Err(Error::InvalidUsage(_))));
    assert!(matches!(a.action(), Action::Help));
    a.interactive = true;
    assert_eq!(a.validate().unwrap(), vec!["-i".to_string()]);
    assert_eq!(a.output(), ".");
    a.set_output("out".into());
    assert_eq!(a.output(), "out");
}

#[test]
fn album_shown_line_by_line() {
    let mut a = album_of_two();
    a.cddb = Some(0xabc);
    a.date = Some(Date::new(2001, 2, 3));
    a.artist = Some("Band".into());
    let lines = cdadd::show::album_lines(&a);
    assert_eq!(
        lines,
        vec![
            "Album    : --",
            "Disc name: --",
            "Artist   : Band",
            "Disc     : --",
            "CDINDEX  : --",
            "CDDB     : abc",
            "Date     : 2001-02-03",
            "Genre    : --",
        ]
    );
}

#[test]
fn track_shown_line_by_line() {
    let mut t = TrackInfo::default();
    t.title = Some("Song".into());
    t.track = Some(4);
    t.feat = vec!["A".into(), "B".into()];
    t.disc = Some(1);
    let lines = cdadd::show::track_lines(&t);
    assert_eq!(lines.len(), 13);
    assert_eq!(lines[0], "Title       : Song");
    assert_eq!(lines[1], "Track       : 4");
    assert_eq!(lines[9], "Featuring   : A, B");
    assert_eq!(lines[10], "Disc        : 1");
    assert_eq!(lines[12], "CDDB        : --");
    let empty = cdadd::show::track_lines(&TrackInfo::default());
    assert_eq!(empty[9], "Featuring   : --");
}

#[test]
fn names_joined() {
    assert_eq!(cdadd::show::join_names(&vec![]), "");
    assert_eq!(cdadd::show::join_names(&vec!["A".into()]), "A");
    assert_eq!(
        cdadd::show::join_names(&vec!["A".into(), "".into(), "C".into()]),
        "A, , C"
    );
}
