use cdadd::date::Date;
use cdadd::flac::{output_name, tag_args};
use cdadd::track_info::TrackInfo;

#[test]
fn file_name_with_number_and_title() {
    let mut t = TrackInfo::default();
    t.track = Some(3);
    t.title = Some("A/B".into());
    assert_eq!(output_name(0, &t), "03--A-B-flac");
}

#[test]
fn file_name_from_place_without_title() {
    let t = TrackInfo::default();
    assert_eq!(output_name(4, &t), "05.flac");
    let mut u = TrackInfo::default();
    u.track = Some(12);
    assert_eq!(output_name(0, &u), "12.flac");
}

#[test]
fn file_name_from_place_with_title() {
    let mut t = TrackInfo::default();
    t.title = Some("What?".into());
    assert_eq!(output_name(0, &t), "01--What--flac");
}

#[test]
fn tags_in_order() {
    let mut t = TrackInfo::default();
    t.title = Some("Song".into());
    t.artist = Some("Me".into());
    t.date = Some(Date::new(2001, 2, 3));
    t.track = Some(7);
    t.feat = vec!["A".into(), "B".into()];
    t.disc = Some(1);
    t.cddb = Some(0xff);
    assert_eq!(
        tag_args(&t),
        vec![
            "TITLE=Song",
            "ARTIST=Me",
            "DATE=2001-02-03",
            "TRACKNUMBER=7",
            "ARTIST=A",
            "ARTIST=B",
            "DISCNUMBER=1",
            "CDDB=ff",
        ]
    );
}
