//! The text lines that show an album and its tracks to the user.
use vstd::prelude::*;
use crate::album_info::{clone_opt, AlbumInfo, AlbumView};
use crate::edit::field_str;
use crate::flac::{date_value, number_text, opt_date, opt_number};
use crate::num::{digits_of, hex_text};
use crate::track_info::{TrackInfo, TrackView};

verus! {

/// A field's text, `--` where it is absent.
pub open spec fn shown(v: Option<Seq<char>>) -> Seq<char> {
    match v {
        Some(x) => x,
        None => "--"@,
    }
}

/// The hexadecimal text of an optional checksum.
pub open spec fn checksum_value(c: Option<u32>) -> Option<Seq<char>> {
    match c {
        Some(x) => Some(digits_of(x as nat, 16)),
        None => None,
    }
}

/// The names `s` joined by `sep`.
pub open spec fn join(s: Seq<Seq<char>>, sep: Seq<char>) -> Seq<char>
    decreases s.len(),
{
    if s.len() == 0 {
        Seq::empty()
    } else if s.len() == 1 {
        s[0]
    } else {
        join(s.drop_last(), sep) + sep + s.last()
    }
}

/// The featured performers joined by `, `, `--` where that is empty.
pub open spec fn featuring_text(feat: Seq<Seq<char>>) -> Seq<char> {
    if join(feat, ", "@).len() == 0 {
        "--"@
    } else {
        join(feat, ", "@)
    }
}

/// The lines that show the album fields of `a`.
pub open spec fn album_lines_of(a: AlbumView) -> Seq<Seq<char>> {
    seq![
        "Album    : "@ + shown(a.album_title),
        "Disc name: "@ + shown(a.disc_name),
        "Artist   : "@ + shown(a.artist),
        "Disc     : "@ + shown(number_text(a.disc)),
        "CDINDEX  : "@ + shown(a.cdindex),
        "CDDB     : "@ + shown(checksum_value(a.cddb)),
        "Date     : "@ + shown(date_value(a.date)),
        "Genre    : "@ + shown(a.genre),
    ]
}

/// The first lines that show the track `t`: title to genre.
pub open spec fn track_head_lines(t: TrackView) -> Seq<Seq<char>> {
    seq![
        "Title       : "@ + shown(t.title),
        "Track       : "@ + shown(number_text(t.track)),
        "Artist      : "@ + shown(t.artist),
        "ISRC        : "@ + shown(t.isrc),
        "Date        : "@ + shown(date_value(t.date)),
        "Genre       : "@ + shown(t.genre),
    ]
}

/// The last lines that show the track `t`: album to checksum.
pub open spec fn track_tail_lines(t: TrackView) -> Seq<Seq<char>> {
    seq![
        "Album       : "@ + shown(t.album),
        "Disc name   : "@ + shown(t.disc_name),
        "Album artist: "@ + shown(t.album_artist),
        "Featuring   : "@ + featuring_text(t.feat),
        "Disc        : "@ + shown(number_text(t.disc)),
        "CDINDEX     : "@ + shown(t.cdindex),
        "CDDB        : "@ + shown(checksum_value(t.cddb)),
    ]
}

/// The lines that show the track `t`.
pub open spec fn track_lines_of(t: TrackView) -> Seq<Seq<char>> {
    track_head_lines(t) + track_tail_lines(t)
}

/// `label` followed by `value`.
fn line(label: &str, value: String) -> (r: String)
    ensures
        r@ == label@ + value@,
{
    let mut r = label.to_owned();
    r.append(value.as_str());
    r
}

fn opt_checksum(c: Option<u32>) -> (r: Option<String>)
    ensures
        r.deep_view() == checksum_value(c),
{
    match c {
        Some(x) => Some(hex_text(x)),
        None => None,
    }
}

/// The names `feat` joined by `, `.
pub fn join_names(feat: &Vec<String>) -> (r: String)
    ensures
        r@ == join(feat.deep_view(), ", "@),
{
    let ghost s = feat.deep_view();
    let mut r = String::new();
    let mut i: usize = 0;
    while i < feat.len()
        invariant
            i <= feat.len(),
            s == feat.deep_view(),
            r@ == join(s.take(i as int), ", "@),
        decreases feat.len() - i,
    {
        assert(s.take(i + 1).drop_last() =~= s.take(i as int));
        if i > 0 {
            r.append(", ");
        }
        r.append(feat[i].as_str());
        proof {
            if i == 0 {
                assert(r@ =~= s.take(1)[0]);
            }
        }
        i = i + 1;
    }
    assert(s.take(i as int) =~= s);
    r
}

/// The lines that show the album fields of `a`.
pub fn album_lines(a: &AlbumInfo) -> (r: Vec<String>)
    ensures
        r.deep_view() == album_lines_of(a@),
{
    let mut r: Vec<String> = Vec::new();
    r.push(line("Album    : ", field_str(clone_opt(&a.album_title))));
    r.push(line("Disc name: ", field_str(clone_opt(&a.disc_name))));
    r.push(line("Artist   : ", field_str(clone_opt(&a.artist))));
    r.push(line("Disc     : ", field_str(opt_number(a.disc))));
    r.push(line("CDINDEX  : ", field_str(clone_opt(&a.cdindex))));
    r.push(line("CDDB     : ", field_str(opt_checksum(a.cddb))));
    r.push(line("Date     : ", field_str(opt_date(a.date))));
    r.push(line("Genre    : ", field_str(clone_opt(&a.genre))));
    assert(r.deep_view() =~= album_lines_of(a@));
    r
}

fn track_head(t: &TrackInfo) -> (r: Vec<String>)
    ensures
        r.deep_view() == track_head_lines(t@),
{
    let mut r: Vec<String> = Vec::new();
    r.push(line("Title       : ", field_str(clone_opt(&t.title))));
    r.push(line("Track       : ", field_str(opt_number(t.track))));
    r.push(line("Artist      : ", field_str(clone_opt(&t.artist))));
    r.push(line("ISRC        : ", field_str(clone_opt(&t.isrc))));
    r.push(line("Date        : ", field_str(opt_date(t.date))));
    r.push(line("Genre       : ", field_str(clone_opt(&t.genre))));
    assert(r.deep_view() =~= track_head_lines(t@));
    r
}

fn track_tail(t: &TrackInfo) -> (r: Vec<String>)
    ensures
        r.deep_view() == track_tail_lines(t@),
{
    let mut r: Vec<String> = Vec::new();
    r.push(line("Album       : ", field_str(clone_opt(&t.album))));
    r.push(line("Disc name   : ", field_str(clone_opt(&t.disc_name))));
    r.push(line("Album artist: ", field_str(clone_opt(&t.album_artist))));
    let names = join_names(&t.feat);
    let feat = if names.as_str().is_empty() {
        None
    } else {
        Some(names)
    };
    r.push(line("Featuring   : ", field_str(feat)));
    r.push(line("Disc        : ", field_str(opt_number(t.disc))));
    r.push(line("CDINDEX     : ", field_str(clone_opt(&t.cdindex))));
    r.push(line("CDDB        : ", field_str(opt_checksum(t.cddb))));
    assert(r.deep_view() =~= track_tail_lines(t@));
    r
}

/// The lines that show the track `t`.
pub fn track_lines(t: &TrackInfo) -> (r: Vec<String>)
    ensures
        r.deep_view() == track_lines_of(t@),
{
    let mut r = track_head(t);
    let mut tail = track_tail(t);
    let ghost h = r.deep_view();
    let ghost tl = tail.deep_view();
    r.append(&mut tail);
    assert(r.deep_view() =~= h + tl);
    r
}

} // verus!
