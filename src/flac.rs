//! What the encoder is told for each track: the output file name and the
//! tags.
use vstd::prelude::*;
use crate::album_info::clone_opt;
use crate::date::{date_text, Date};
use crate::num::{decimal_text, digits_of, hex_text, zero_pad};
use crate::track_info::{TrackInfo, TrackView};

verus! {

/// What `filesan::replace_escape` gives for the text `s` with escape
/// character `esc` and all of its modes: `s` with every character that some
/// system refuses in a file name replaced by `esc`.
pub uninterp spec fn escaped_name(s: Seq<char>, esc: char) -> Seq<char>;

/// Relies on `filesan::replace_escape` with `Mode::all()`, to make `s` a
/// valid file name on every system; the result depends on `s` and `esc`
/// alone.
#[verifier::external_body]
fn replace_escape(s: &str, esc: char) -> (r: String)
    ensures
        r@ == escaped_name(s@, esc),
{
    filesan::replace_escape(s, esc, filesan::Mode::all())
}

/// The number that names the track `t` at 0-based place `i` of its album:
/// its position, else `i + 1`.
pub open spec fn file_number(i: nat, t: TrackView) -> nat {
    match t.track {
        Some(n) => n as nat,
        None => i + 1,
    }
}

/// The name of the encoded file of track `t` at 0-based place `i` of its
/// album: the number in two digits or more, then `. ` and the title where
/// there is one (with characters that a file system refuses replaced by
/// `-`), then `.flac`.
pub open spec fn file_name_of(i: nat, t: TrackView) -> Seq<char> {
    let num = zero_pad(digits_of(file_number(i, t), 10), 2);
    match t.title {
        Some(title) => escaped_name(num + ". "@ + title + ".flac"@, '-'),
        None => num + ".flac"@,
    }
}

/// The file name of the encoded track `t` at 0-based place `i` of its album.
pub fn output_name(i: usize, t: &TrackInfo) -> (r: String)
    requires
        i < usize::MAX,
    ensures
        r@ == file_name_of(i as nat, t@),
{
    let n = match t.track {
        Some(n) => n,
        None => i + 1,
    };
    let mut name = decimal_text(n as u64, 2);
    match &t.title {
        Some(title) => {
            name.append(". ");
            name.append(title.as_str());
            name.append(".flac");
            replace_escape(name.as_str(), '-')
        },
        None => {
            name.append(".flac");
            name
        },
    }
}

/// The tag `name=value`, where there is a value.
pub open spec fn tag(name: Seq<char>, value: Option<Seq<char>>) -> Seq<Seq<char>> {
    match value {
        Some(v) => seq![name + "="@ + v],
        None => Seq::empty(),
    }
}

/// The decimal text of an optional number.
pub open spec fn number_text(n: Option<usize>) -> Option<Seq<char>> {
    match n {
        Some(v) => Some(digits_of(v as nat, 10)),
        None => None,
    }
}

/// The standard tags of the track `t`: title, performer, album, date,
/// position, genre and ISRC.
pub open spec fn head_tags(t: TrackView) -> Seq<Seq<char>> {
    tag("TITLE"@, t.title) + tag("ARTIST"@, t.artist) + tag("ALBUM"@, t.album) + tag(
        "DATE"@,
        date_value(t.date),
    ) + tag("TRACKNUMBER"@, number_text(t.track)) + tag("GENRE"@, t.genre) + tag("ISRC"@, t.isrc)
}

/// One performer tag per featured performer of `t`.
pub open spec fn feat_tags(t: TrackView) -> Seq<Seq<char>> {
    t.feat.map_values(|a: Seq<char>| "ARTIST"@ + "="@ + a)
}

/// The extended tags of the track `t`: disc index and disc name; album
/// performer, fingerprint and checksum (in lower-case hexadecimal).
pub open spec fn tail_tags(t: TrackView) -> Seq<Seq<char>> {
    tag("DISCNUMBER"@, number_text(t.disc)) + tag("VOLUME"@, t.disc_name) + tag(
        "ALBUMARTIST"@,
        t.album_artist,
    ) + tag("CDINDEX"@, t.cdindex) + tag(
        "CDDB"@,
        match t.cddb {
            Some(c) => Some(digits_of(c as nat, 16)),
            None => None,
        },
    )
}

/// The tags of the track `t`, in order.
pub open spec fn tags_of(t: TrackView) -> Seq<Seq<char>> {
    head_tags(t) + feat_tags(t) + tail_tags(t)
}

/// Adds the tag `name=value` where there is a value.
fn add_tag(tags: &mut Vec<String>, name: &str, value: Option<String>)
    ensures
        final(tags).deep_view() == old(tags).deep_view() + tag(name@, value.deep_view()),
{
    match value {
        Some(v) => {
            let mut t = name.to_owned();
            t.append("=");
            t.append(v.as_str());
            let ghost before = tags.deep_view();
            tags.push(t);
            assert(tags.deep_view() =~= before + tag(name@, value.deep_view()));
        },
        None => {
            assert(tags.deep_view() =~= old(tags).deep_view() + tag(name@, value.deep_view()));
        },
    }
}

/// The text of an optional date.
pub open spec fn date_value(d: Option<Date>) -> Option<Seq<char>> {
    match d {
        Some(x) => Some(date_text(x)),
        None => None,
    }
}

/// An optional date as text.
pub fn opt_date(d: Option<Date>) -> (r: Option<String>)
    ensures
        r.deep_view() == date_value(d),
{
    match d {
        Some(x) => Some(x.text()),
        None => None,
    }
}

/// An optional number in decimal.
pub fn opt_number(n: Option<usize>) -> (r: Option<String>)
    ensures
        r.deep_view() == number_text(n),
{
    match n {
        Some(v) => Some(decimal_text(v as u64, 0)),
        None => None,
    }
}

fn add_head_tags(tags: &mut Vec<String>, t: &TrackInfo)
    ensures
        final(tags).deep_view() == old(tags).deep_view() + head_tags(t@),
{
    let ghost o = tags.deep_view();
    let ghost v = t@;
    let ghost d = date_value(v.date);
    add_tag(tags, "TITLE", clone_opt(&t.title));
    add_tag(tags, "ARTIST", clone_opt(&t.artist));
    let ghost part2 = tag("TITLE"@, v.title) + tag("ARTIST"@, v.artist);
    assert(tags.deep_view() =~= o + part2);
    add_tag(tags, "ALBUM", clone_opt(&t.album));
    let ghost part3 = part2 + tag("ALBUM"@, v.album);
    assert(tags.deep_view() =~= o + part3);
    add_tag(tags, "DATE", opt_date(t.date));
    let ghost part4 = part3 + tag("DATE"@, d);
    assert(tags.deep_view() =~= o + part4);
    add_tag(tags, "TRACKNUMBER", opt_number(t.track));
    let ghost part5 = part4 + tag("TRACKNUMBER"@, number_text(v.track));
    assert(tags.deep_view() =~= o + part5);
    add_tag(tags, "GENRE", clone_opt(&t.genre));
    let ghost part6 = part5 + tag("GENRE"@, v.genre);
    assert(tags.deep_view() =~= o + part6);
    add_tag(tags, "ISRC", clone_opt(&t.isrc));
    let ghost part7 = part6 + tag("ISRC"@, v.isrc);
    assert(tags.deep_view() =~= o + part7);
    assert(part7 == head_tags(v));
}

fn add_feat_tags(tags: &mut Vec<String>, t: &TrackInfo)
    ensures
        final(tags).deep_view() == old(tags).deep_view() + feat_tags(t@),
{
    let ghost before = tags.deep_view();
    let mut i: usize = 0;
    while i < t.feat.len()
        invariant
            i <= t.feat.len(),
            tags.deep_view() == before + t@.feat.take(i as int).map_values(
                |a: Seq<char>| "ARTIST"@ + "="@ + a,
            ),
        decreases t.feat.len() - i,
    {
        add_tag(tags, "ARTIST", Some(t.feat[i].clone()));
        assert(t@.feat.take(i + 1).map_values(|a: Seq<char>| "ARTIST"@ + "="@ + a) =~= t@.feat.take(
            i as int,
        ).map_values(|a: Seq<char>| "ARTIST"@ + "="@ + a).push("ARTIST"@ + "="@ + t@.feat[i as int]));
        assert(tags.deep_view() =~= before + t@.feat.take(i + 1).map_values(
            |a: Seq<char>| "ARTIST"@ + "="@ + a,
        ));
        i = i + 1;
    }
    assert(t@.feat.take(t.feat.len() as int) =~= t@.feat);
}

fn add_tail_tags(tags: &mut Vec<String>, t: &TrackInfo)
    ensures
        final(tags).deep_view() == old(tags).deep_view() + tail_tags(t@),
{
    let ghost o = tags.deep_view();
    let ghost v = t@;
    add_tag(tags, "DISCNUMBER", opt_number(t.disc));
    add_tag(tags, "VOLUME", clone_opt(&t.disc_name));
    let ghost part2 = tag("DISCNUMBER"@, number_text(v.disc)) + tag("VOLUME"@, v.disc_name);
    assert(tags.deep_view() =~= o + part2);
    add_tag(tags, "ALBUMARTIST", clone_opt(&t.album_artist));
    let ghost part3 = part2 + tag("ALBUMARTIST"@, v.album_artist);
    assert(tags.deep_view() =~= o + part3);
    add_tag(tags, "CDINDEX", clone_opt(&t.cdindex));
    let ghost part4 = part3 + tag("CDINDEX"@, v.cdindex);
    assert(tags.deep_view() =~= o + part4);
    let cddb = match t.cddb {
        Some(c) => Some(hex_text(c)),
        None => None,
    };
    add_tag(tags, "CDDB", cddb);
    let ghost part5 = part4 + tag(
        "CDDB"@,
        match v.cddb {
            Some(c) => Some(digits_of(c as nat, 16)),
            None => None,
        },
    );
    assert(tags.deep_view() =~= o + part5);
    assert(part5 == tail_tags(v));
}

/// The tags that the encoder writes for the track `t`, each `NAME=value`.
pub fn tag_args(t: &TrackInfo) -> (r: Vec<String>)
    ensures
        r.deep_view() == tags_of(t@),
{
    let mut tags: Vec<String> = Vec::new();
    add_head_tags(&mut tags, t);
    add_feat_tags(&mut tags, t);
    add_tail_tags(&mut tags, t);
    assert(tags.deep_view() =~= tags_of(t@));
    tags
}

} // verus!
