//! The decisions of the interactive metadata editor: what a typed line asks
//! for, and how setting an album field reaches every track.
use vstd::prelude::*;
use std::path::PathBuf;
use crate::album_info::{tracks_view, AlbumInfo, AlbumView};
use crate::date::{date_of, Date};
use crate::err::Error;
use crate::num::{parse_hex_u32, parse_usize, unsigned_value};
use crate::text::{
    ascii_lower, chars_of, lower_of, str_eq, string_of, substring, to_ascii_lowercase, to_lowercase,
    trim, trim_of, trim_start, trim_start_of,
};
use crate::track_info::{TrackInfo, TrackView};

verus! {

/// What a line typed into the editor asks for.
#[derive(Debug)]
pub enum EditCommand {
    /// `:done` or `:d`: finish editing and go on.
    Done,
    /// `:quit`, `:q` or `:cancel`: stop without going on.
    Quit,
    /// A `:` command that is not known, lower-cased.
    UnknownCommand(String),
    /// A line with neither `:` nor `=` after the field name.
    MissingValue,
    /// `field: value` or `field=value`: the field name (trimmed and in ASCII
    /// lower case) and the value (trimmed).
    SetField(String, String),
}

/// Whether `c` separates a field name from its value.
pub open spec fn is_sep(c: char) -> bool {
    c == ':' || c == '='
}

/// The index of the first separator in `s`.
pub open spec fn first_sep(s: Seq<char>) -> Option<int>
    decreases s.len(),
{
    if s.len() == 0 {
        None
    } else {
        match first_sep(s.drop_last()) {
            Some(i) => Some(i),
            None => if is_sep(s.last()) {
                Some(s.len() - 1)
            } else {
                None
            },
        }
    }
}

/// The command word of a `:` line: what follows the `:`, its leading
/// white space trimmed, lower-cased.
pub open spec fn command_word(t: Seq<char>) -> Seq<char> {
    lower_of(trim_start_of(t.skip(1)))
}

/// Whether the command word `c` finishes editing.
pub open spec fn is_done(c: Seq<char>) -> bool {
    c == "done"@ || c == "d"@
}

/// Whether the command word `c` stops without going on.
pub open spec fn is_quit(c: Seq<char>) -> bool {
    c == "quit"@ || c == "q"@ || c == "cancel"@
}

/// Whether the line `line`, trimmed, starts with `:`.
pub open spec fn is_command(line: Seq<char>) -> bool {
    trim_of(line).len() > 0 && trim_of(line)[0] == ':'
}

/// What the editor line `line` asks for: a `:` command where the trimmed
/// line starts with `:`; else a field and value split at the first `:` or
/// `=`.
pub open spec fn command_matches(line: Seq<char>, r: EditCommand) -> bool {
    if is_command(line) {
        let c = command_word(trim_of(line));
        if is_done(c) {
            r is Done
        } else if is_quit(c) {
            r is Quit
        } else {
            r matches EditCommand::UnknownCommand(w) && w@ == c
        }
    } else {
        match first_sep(line) {
            None => r is MissingValue,
            Some(i) => r matches EditCommand::SetField(f, v) && f@ == ascii_lower(
                trim_of(line.take(i)),
            ) && v@ == trim_of(line.skip(i + 1)),
        }
    }
}

fn find_sep(v: &Vec<char>) -> (r: Option<usize>)
    ensures
        match r {
            Some(i) => first_sep(v@) == Some(i as int) && i < v.len(),
            None => first_sep(v@) is None,
        },
{
    let mut i: usize = 0;
    while i < v.len()
        invariant
            i <= v.len(),
            first_sep(v@.take(i as int)) is None,
        decreases v.len() - i,
    {
        assert(v@.take(i + 1).drop_last() =~= v@.take(i as int));
        if v[i] == ':' || v[i] == '=' {
            proof {
                lemma_first_sep_prefix(v@, i as int + 1);
            }
            return Some(i);
        }
        i = i + 1;
    }
    assert(v@.take(i as int) =~= v@);
    None
}

proof fn lemma_first_sep_prefix(s: Seq<char>, n: int)
    requires
        0 <= n <= s.len(),
        first_sep(s.take(n)) is Some,
    ensures
        first_sep(s) == first_sep(s.take(n)),
    decreases s.len() - n,
{
    if n < s.len() {
        assert(s.take(n + 1).drop_last() =~= s.take(n));
        lemma_first_sep_prefix(s, n + 1);
    } else {
        assert(s.take(n) =~= s);
    }
}

/// Reads one editor line.
pub fn parse_command(line: &str) -> (r: EditCommand)
    ensures
        command_matches(line@, r),
{
    let t = trim(line);
    let tv = chars_of(t);
    if tv.len() > 0 && tv[0] == ':' {
        let rest = substring(&tv, 1, tv.len());
        assert(rest@ =~= tv@.skip(1));
        let c = to_lowercase(trim_start(rest.as_str()));
        if str_eq(c.as_str(), "done") || str_eq(c.as_str(), "d") {
            return EditCommand::Done;
        }
        if str_eq(c.as_str(), "quit") || str_eq(c.as_str(), "q") || str_eq(c.as_str(), "cancel") {
            return EditCommand::Quit;
        }
        return EditCommand::UnknownCommand(c);
    }
    let v = chars_of(line);
    match find_sep(&v) {
        None => EditCommand::MissingValue,
        Some(i) => {
            let f = substring(&v, 0, i);
            let value = substring(&v, i + 1, v.len());
            assert(f@ =~= v@.take(i as int));
            assert(value@ =~= v@.skip(i + 1));
            let fc = chars_of(trim(f.as_str()));
            let field = string_of(&to_ascii_lowercase(&fc));
            let val = trim(value.as_str()).to_owned();
            EditCommand::SetField(field, val)
        },
    }
}

/// The album fields that the editor can set.
#[derive(Clone, Copy, Debug, PartialEq, Eq, Structural)]
pub enum FieldName {
    DiscName,
    Album,
    Artist,
    Disc,
    Cdindex,
    Cddb,
    Date,
    Genre,
}

/// The field that the name `f` (in lower case) stands for.
pub open spec fn field_name_of(f: Seq<char>) -> Option<FieldName> {
    if f == "disc name"@ {
        Some(FieldName::DiscName)
    } else if f == "album"@ {
        Some(FieldName::Album)
    } else if f == "artist"@ || f == "album artist"@ {
        Some(FieldName::Artist)
    } else if f == "disc"@ {
        Some(FieldName::Disc)
    } else if f == "cdindex"@ || f == "cdindex discid"@ {
        Some(FieldName::Cdindex)
    } else if f == "cddb"@ || f == "cddb discid"@ {
        Some(FieldName::Cddb)
    } else if f == "date"@ || f == "year"@ {
        Some(FieldName::Date)
    } else if f == "genre"@ {
        Some(FieldName::Genre)
    } else {
        None
    }
}

/// Which field the name `f` stands for.
pub fn field_name(f: &str) -> (r: Option<FieldName>)
    ensures
        r == field_name_of(f@),
{
    if str_eq(f, "disc name") {
        Some(FieldName::DiscName)
    } else if str_eq(f, "album") {
        Some(FieldName::Album)
    } else if str_eq(f, "artist") || str_eq(f, "album artist") {
        Some(FieldName::Artist)
    } else if str_eq(f, "disc") {
        Some(FieldName::Disc)
    } else if str_eq(f, "cdindex") || str_eq(f, "cdindex discid") {
        Some(FieldName::Cdindex)
    } else if str_eq(f, "cddb") || str_eq(f, "cddb discid") {
        Some(FieldName::Cddb)
    } else if str_eq(f, "date") || str_eq(f, "year") {
        Some(FieldName::Date)
    } else if str_eq(f, "genre") {
        Some(FieldName::Genre)
    } else {
        None
    }
}

/// A value for one of the fields.
#[derive(Debug)]
pub enum FieldValue {
    Text(String),
    Number(usize),
    Checksum(u32),
    Day(Date),
}

/// A field value as sequences.
pub enum ValueView {
    Text(Seq<char>),
    Number(usize),
    Checksum(u32),
    Day(Date),
}

impl View for FieldValue {
    type V = ValueView;

    open spec fn view(&self) -> ValueView {
        match self {
            FieldValue::Text(s) => ValueView::Text(s@),
            FieldValue::Number(n) => ValueView::Number(*n),
            FieldValue::Checksum(c) => ValueView::Checksum(*c),
            FieldValue::Day(d) => ValueView::Day(*d),
        }
    }
}

/// The value that the text `v` gives for field `k`, or `None` where `v` is
/// not such a value: a decimal number for the disc index, a hexadecimal
/// one for the checksum, a date for the date, the text itself otherwise.
pub open spec fn value_of(k: FieldName, v: Seq<char>) -> Option<ValueView> {
    match k {
        FieldName::Disc => match unsigned_value(v, 10, usize::MAX as int) {
            Some(n) => Some(ValueView::Number(n as usize)),
            None => None,
        },
        FieldName::Cddb => match unsigned_value(v, 16, u32::MAX as int) {
            Some(n) => Some(ValueView::Checksum(n as u32)),
            None => None,
        },
        FieldName::Date => match date_of(v) {
            Ok(d) => Some(ValueView::Day(d)),
            Err(_) => None,
        },
        _ => Some(ValueView::Text(v)),
    }
}

/// The track `t` with its field `k` set to `v`.
pub open spec fn track_set(t: TrackView, k: FieldName, v: ValueView) -> TrackView {
    match (k, v) {
        (FieldName::DiscName, ValueView::Text(s)) => TrackView { disc_name: Some(s), ..t },
        (FieldName::Album, ValueView::Text(s)) => TrackView { album: Some(s), ..t },
        (FieldName::Artist, ValueView::Text(s)) => TrackView { album_artist: Some(s), ..t },
        (FieldName::Cdindex, ValueView::Text(s)) => TrackView { cdindex: Some(s), ..t },
        (FieldName::Genre, ValueView::Text(s)) => TrackView { genre: Some(s), ..t },
        (FieldName::Disc, ValueView::Number(n)) => TrackView { disc: Some(n), ..t },
        (FieldName::Cddb, ValueView::Checksum(c)) => TrackView { cddb: Some(c), ..t },
        (FieldName::Date, ValueView::Day(d)) => TrackView { date: Some(d), ..t },
        _ => t,
    }
}

/// The album `a` with its field `k` set to `v`, on the album and on every
/// track, whatever the tracks held before.
pub open spec fn album_set(a: AlbumView, k: FieldName, v: ValueView) -> AlbumView {
    let tracks = a.tracks.map_values(|p: (TrackView, PathBuf)| (track_set(p.0, k, v), p.1));
    match (k, v) {
        (FieldName::DiscName, ValueView::Text(s)) => AlbumView { disc_name: Some(s), tracks, ..a },
        (FieldName::Album, ValueView::Text(s)) => AlbumView { album_title: Some(s), tracks, ..a },
        (FieldName::Artist, ValueView::Text(s)) => AlbumView { artist: Some(s), tracks, ..a },
        (FieldName::Cdindex, ValueView::Text(s)) => AlbumView { cdindex: Some(s), tracks, ..a },
        (FieldName::Genre, ValueView::Text(s)) => AlbumView { genre: Some(s), tracks, ..a },
        (FieldName::Disc, ValueView::Number(n)) => AlbumView { disc: Some(n), tracks, ..a },
        (FieldName::Cddb, ValueView::Checksum(c)) => AlbumView { cddb: Some(c), tracks, ..a },
        (FieldName::Date, ValueView::Day(d)) => AlbumView { date: Some(d), tracks, ..a },
        _ => a,
    }
}

/// Reads the text `v` as a value of field `k`.
pub fn parse_value(k: FieldName, v: &str) -> (r: Option<FieldValue>)
    ensures
        match r {
            Some(x) => value_of(k, v@) == Some(x@),
            None => value_of(k, v@) is None,
        },
{
    match k {
        FieldName::Disc => match parse_usize(v) {
            Some(n) => Some(FieldValue::Number(n)),
            None => None,
        },
        FieldName::Cddb => match parse_hex_u32(v) {
            Some(n) => Some(FieldValue::Checksum(n)),
            None => None,
        },
        FieldName::Date => match Date::parse(v) {
            Ok(d) => Some(FieldValue::Day(d)),
            Err(_) => None,
        },
        _ => Some(FieldValue::Text(v.to_owned())),
    }
}

fn set_on_track(t: &mut TrackInfo, k: FieldName, v: &FieldValue)
    ensures
        final(t)@ == track_set(old(t)@, k, v@),
{
    match (k, v) {
        (FieldName::DiscName, FieldValue::Text(s)) => {
            t.disc_name = Some(s.clone());
        },
        (FieldName::Album, FieldValue::Text(s)) => {
            t.album = Some(s.clone());
        },
        (FieldName::Artist, FieldValue::Text(s)) => {
            t.album_artist = Some(s.clone());
        },
        (FieldName::Cdindex, FieldValue::Text(s)) => {
            t.cdindex = Some(s.clone());
        },
        (FieldName::Genre, FieldValue::Text(s)) => {
            t.genre = Some(s.clone());
        },
        (FieldName::Disc, FieldValue::Number(n)) => {
            t.disc = Some(*n);
        },
        (FieldName::Cddb, FieldValue::Checksum(c)) => {
            t.cddb = Some(*c);
        },
        (FieldName::Date, FieldValue::Day(d)) => {
            t.date = Some(*d);
        },
        _ => {},
    }
}

impl AlbumInfo {
    /// Sets field `k` to `v` on the album and on every track.
    pub fn set_value(&mut self, k: FieldName, v: &FieldValue)
        ensures
            final(self)@ == album_set(old(self)@, k, v@),
    {
        let ghost a = self@;
        match (k, v) {
            (FieldName::DiscName, FieldValue::Text(s)) => {
                self.disc_name = Some(s.clone());
            },
            (FieldName::Album, FieldValue::Text(s)) => {
                self.album_title = Some(s.clone());
            },
            (FieldName::Artist, FieldValue::Text(s)) => {
                self.artist = Some(s.clone());
            },
            (FieldName::Cdindex, FieldValue::Text(s)) => {
                self.cdindex = Some(s.clone());
            },
            (FieldName::Genre, FieldValue::Text(s)) => {
                self.genre = Some(s.clone());
            },
            (FieldName::Disc, FieldValue::Number(n)) => {
                self.disc = Some(*n);
            },
            (FieldName::Cddb, FieldValue::Checksum(c)) => {
                self.cddb = Some(*c);
            },
            (FieldName::Date, FieldValue::Day(d)) => {
                self.date = Some(*d);
            },
            _ => {
                return;
            },
        }
        let ghost b = self@;
        let n = self.tracks.len();
        let mut i: usize = 0;
        while i < n
            invariant
                n == self.tracks.len(),
                i <= n,
                a.tracks.len() == n,
                self@ == (AlbumView { tracks: self@.tracks, ..b }),
                b.tracks == a.tracks,
                forall|j: int|
                    0 <= j < i ==> #[trigger] self@.tracks[j] == (
                        track_set(a.tracks[j].0, k, v@),
                        a.tracks[j].1,
                    ),
                forall|j: int| i <= j < n ==> #[trigger] self@.tracks[j] == a.tracks[j],
            decreases n - i,
        {
            assert(self@.tracks[i as int] == a.tracks[i as int]);
            let ghost before = self.tracks@;
            assert(tracks_view(before)[i as int] == (before[i as int].0@, before[i as int].1));
            set_on_track(&mut self.tracks[i].0, k, v);
            assert(self.tracks@ =~= before.update(
                i as int,
                (self.tracks@[i as int].0, before[i as int].1),
            ));
            assert forall|j: int| 0 <= j < n && j != i implies #[trigger] self@.tracks[j]
                == tracks_view(before)[j] by {
                assert(self.tracks@[j] == before[j]);
            }
            i = i + 1;
        }
        assert(self@.tracks =~= a.tracks.map_values(
            |p: (TrackView, PathBuf)| (track_set(p.0, k, v@), p.1),
        ));
    }

    /// Sets the field named `field` to the text `value` on the album and on
    /// every track. Fails, changing nothing, where no field has that name or
    /// the text is not a value of the field.
    pub fn set_field(&mut self, field: &str, value: &str) -> (r: Result<(), Error>)
        ensures
            match field_name_of(field@) {
                None => r matches Err(Error::UnknownField) && final(self)@ == old(self)@,
                Some(k) => match value_of(k, value@) {
                    None => r matches Err(Error::ParseInt) && final(self)@ == old(self)@,
                    Some(v) => r is Ok && final(self)@ == album_set(old(self)@, k, v),
                },
            },
    {
        let k = match field_name(field) {
            Some(k) => k,
            None => {
                return Err(Error::UnknownField);
            },
        };
        match parse_value(k, value) {
            Some(v) => {
                self.set_value(k, &v);
                Ok(())
            },
            None => Err(Error::ParseInt),
        }
    }
}

/// A field's text for display: `--` where it is absent.
pub fn field_str(field: Option<String>) -> (r: String)
    ensures
        r@ == (match field.deep_view() {
            Some(f) => f,
            None => "--"@,
        }),
{
    match field {
        Some(f) => f,
        None => "--".to_owned(),
    }
}

} // verus!
