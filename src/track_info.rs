//! One track's metadata, read from its INI-style property text.
use vstd::prelude::*;
use crate::date::Date;
use crate::err::Error;
use crate::get_perf::{feat_of, get_perf};
use crate::num::{parse_hex_u32, parse_usize, unsigned_value};
use crate::text::{chars_of, non_empty, non_empty_string, split_once, split_once_chars, string_of, substring};

verus! {

/// A parsed INI document.
#[verifier::external_type_specification]
#[verifier::external_body]
pub struct ExIni(ini::Ini);

/// The key-value pairs of one INI section.
#[verifier::external_type_specification]
#[verifier::external_body]
pub struct ExProperties(ini::Properties);

/// What `Ini::load_from_str_opt`, with quotes left in values, makes of the
/// text `text`: `None` where it refuses the text; else the pairs of the
/// general (unnamed) section in the order they were read, or `None` where
/// there is no such section.
pub uninterp spec fn ini_general_of(text: Seq<char>) -> Option<
    Option<Seq<(Seq<char>, Seq<char>)>>,
>;

/// The pairs of the general section that the document `ini` holds, in
/// order, if it has that section.
pub uninterp spec fn ini_general(ini: ini::Ini) -> Option<Seq<(Seq<char>, Seq<char>)>>;

/// The pairs that `p` holds, in order.
pub uninterp spec fn prop_pairs(p: ini::Properties) -> Seq<(Seq<char>, Seq<char>)>;

/// Relies on `Ini::load_from_str_opt`, with `enabled_quote` off and the other
/// options at their defaults, to read an INI document from its text.
#[verifier::external_body]
fn load_ini(text: &str) -> (r: Result<ini::Ini, ini::ParseError>)
    ensures
        r is Ok <==> ini_general_of(text@) is Some,
        r matches Ok(i) ==> ini_general_of(text@) == Some(ini_general(i)),
{
    ini::Ini::load_from_str_opt(
        text,
        ini::ParseOption { enabled_quote: false, ..Default::default() },
    )
}

/// Relies on `Ini::section(None)`: the general section, if there is one.
#[verifier::external_body]
fn general_section(i: &ini::Ini) -> (r: Option<&ini::Properties>)
    ensures
        match r {
            Some(p) => ini_general(*i) == Some(prop_pairs(*p)),
            None => ini_general(*i) is None,
        },
{
    i.section(None::<String>)
}

/// Relies on `Properties::get`: the first value held for `key`.
#[verifier::external_body]
fn prop_get<'a>(p: &'a ini::Properties, key: &str) -> (r: Option<&'a str>)
    ensures
        match r {
            Some(v) => first_value(prop_pairs(*p), key@) == Some(v@),
            None => first_value(prop_pairs(*p), key@) is None,
        },
{
    p.get(key)
}

/// The first value paired with `k` in `s`.
pub open spec fn first_value(s: Seq<(Seq<char>, Seq<char>)>, k: Seq<char>) -> Option<Seq<char>>
    decreases s.len(),
{
    if s.len() == 0 {
        None
    } else if s[0].0 == k {
        Some(s[0].1)
    } else {
        first_value(s.drop_first(), k)
    }
}

/// `s` without one pair of single quotes around it, where it has them.
pub open spec fn unquote(s: Seq<char>) -> Seq<char> {
    if s.len() >= 2 && s[0] == '\'' && s.last() == '\'' {
        s.subrange(1, s.len() - 1)
    } else {
        s
    }
}

/// The value of property `k` in `s`, unquoted; absent where the property is
/// missing or its value is empty.
pub open spec fn prop_text(s: Seq<(Seq<char>, Seq<char>)>, k: Seq<char>) -> Option<Seq<char>> {
    match first_value(s, k) {
        None => None,
        Some(v) => if unquote(v).len() == 0 {
            None
        } else {
            Some(unquote(v))
        },
    }
}

/// The value of property `k` in `s` as a decimal `usize`, where it is one.
pub open spec fn prop_usize(s: Seq<(Seq<char>, Seq<char>)>, k: Seq<char>) -> Option<usize> {
    match prop_text(s, k) {
        None => None,
        Some(t) => match unsigned_value(t, 10, usize::MAX as int) {
            Some(n) => Some(n as usize),
            None => None,
        },
    }
}

/// `s` without a leading `0x`.
pub open spec fn strip_hex_prefix(s: Seq<char>) -> Seq<char> {
    if s.len() >= 2 && s[0] == '0' && s[1] == 'x' {
        s.skip(2)
    } else {
        s
    }
}

/// The value of property `k` in `s` as a hexadecimal `u32`, `0x` allowed
/// before it, where it is one.
pub open spec fn prop_hex(s: Seq<(Seq<char>, Seq<char>)>, k: Seq<char>) -> Option<u32> {
    match prop_text(s, k) {
        None => None,
        Some(t) => match unsigned_value(strip_hex_prefix(t), 16, u32::MAX as int) {
            Some(n) => Some(n as u32),
            None => None,
        },
    }
}

/// The primary performer within a performer text: what precedes the first
/// `,`; else what precedes the first ` Featuring `; else all of it.
pub open spec fn primary_of(s: Seq<char>) -> Seq<char> {
    match split_once(s, ","@) {
        Some((a, _)) => a,
        None => match split_once(s, " Featuring "@) {
            Some((a, _)) => a,
            None => s,
        },
    }
}

/// A track's metadata as sequences.
pub struct TrackView {
    pub cdindex: Option<Seq<char>>,
    pub cddb: Option<u32>,
    pub album_artist: Option<Seq<char>>,
    pub disc_name: Option<Seq<char>>,
    pub album: Option<Seq<char>>,
    pub disc: Option<usize>,
    pub date: Option<Date>,
    pub genre: Option<Seq<char>>,
    pub isrc: Option<Seq<char>>,
    pub artist: Option<Seq<char>>,
    pub feat: Seq<Seq<char>>,
    pub title: Option<Seq<char>>,
    pub track: Option<usize>,
}

/// A track of which nothing is known.
pub open spec fn empty_track() -> TrackView {
    TrackView {
        cdindex: None,
        cddb: None,
        album_artist: None,
        disc_name: None,
        album: None,
        disc: None,
        date: None,
        genre: None,
        isrc: None,
        artist: None,
        feat: Seq::empty(),
        title: None,
        track: None,
    }
}

/// The primary performer that the property pairs `s` name: absent where
/// the `Performer` property is, or where its primary part is empty.
pub open spec fn performer_of(s: Seq<(Seq<char>, Seq<char>)>) -> Option<Seq<char>> {
    match prop_text(s, "Performer"@) {
        Some(p) => non_empty(primary_of(p)),
        None => None,
    }
}

/// What can be wrong with one property of a track.
#[derive(Clone, Copy, Debug, PartialEq, Eq, Structural)]
pub enum IssueKind {
    /// The property is not there.
    Missing,
    /// The property's value, or the part of it that is used, is empty.
    Empty,
    /// The value is not of the property's type (a number, a checksum).
    Invalid,
    /// The title's `(feat. ` marker is not closed; the featured list is empty.
    Featuring,
    /// The property text has no general section.
    NoSection,
}

/// Something wrong with a track's properties that made a field absent: its
/// kind, the property's key and the offending value (empty where there is
/// none).
#[derive(Debug)]
pub struct Issue {
    pub kind: IssueKind,
    pub key: String,
    pub value: String,
}

impl View for Issue {
    type V = (IssueKind, Seq<char>, Seq<char>);

    open spec fn view(&self) -> (IssueKind, Seq<char>, Seq<char>) {
        (self.kind, self.key@, self.value@)
    }
}

/// The views of a list of issues.
pub open spec fn issues_view(v: Seq<Issue>) -> Seq<(IssueKind, Seq<char>, Seq<char>)> {
    v.map_values(|i: Issue| i@)
}

/// The issue of property `k` being missing or empty in `s`, if it is.
pub open spec fn presence_issues(s: Seq<(Seq<char>, Seq<char>)>, k: Seq<char>) -> Seq<
    (IssueKind, Seq<char>, Seq<char>),
> {
    match first_value(s, k) {
        None => seq![(IssueKind::Missing, k, Seq::empty())],
        Some(v) => if unquote(v).len() == 0 {
            seq![(IssueKind::Empty, k, Seq::empty())]
        } else {
            Seq::empty()
        },
    }
}

/// The issue `kind` for property `k` of `s`, where it has a value and `bad`
/// holds; the value is given for an invalid one.
pub open spec fn value_issues(
    s: Seq<(Seq<char>, Seq<char>)>,
    k: Seq<char>,
    kind: IssueKind,
    bad: bool,
) -> Seq<(IssueKind, Seq<char>, Seq<char>)> {
    match prop_text(s, k) {
        Some(t) => if bad {
            seq![(kind, k, if kind == IssueKind::Invalid { t } else { Seq::empty() })]
        } else {
            Seq::empty()
        },
        None => Seq::empty(),
    }
}

/// The issue of an unclosed featuring marker in the title `title`.
pub open spec fn feat_issues(title: Option<Seq<char>>) -> Seq<(IssueKind, Seq<char>, Seq<char>)> {
    match title {
        Some(t) => if feat_of(t) is None {
            seq![(IssueKind::Featuring, "Tracktitle"@, t)]
        } else {
            Seq::empty()
        },
        None => Seq::empty(),
    }
}

/// The issues of the title and the fingerprint.
pub open spec fn head_issues(s: Seq<(Seq<char>, Seq<char>)>) -> Seq<
    (IssueKind, Seq<char>, Seq<char>),
> {
    presence_issues(s, "Tracktitle"@) + feat_issues(prop_text(s, "Tracktitle"@)) + presence_issues(
        s,
        "CDINDEX_DISCID"@,
    ) + presence_issues(s, "CDDB_DISCID"@) + value_issues(
        s,
        "CDDB_DISCID"@,
        IssueKind::Invalid,
        prop_hex(s, "CDDB_DISCID"@) is None,
    )
}

/// The issues of the remaining properties.
pub open spec fn tail_issues(s: Seq<(Seq<char>, Seq<char>)>) -> Seq<
    (IssueKind, Seq<char>, Seq<char>),
> {
    presence_issues(s, "Albumperformer"@) + presence_issues(s, "Albumtitle"@) + presence_issues(
        s,
        "ISRC"@,
    ) + presence_issues(s, "Performer"@) + value_issues(
        s,
        "Performer"@,
        IssueKind::Empty,
        performer_of(s) is None,
    ) + presence_issues(s, "Track"@) + value_issues(
        s,
        "Track"@,
        IssueKind::Invalid,
        prop_usize(s, "Track"@) is None,
    )
}

/// Every issue of the property pairs `s`, in the order the fields are read:
/// title (and its featuring marker), fingerprint, checksum, album
/// performer, disc name, ISRC, performer, position.
pub open spec fn issues_of(s: Seq<(Seq<char>, Seq<char>)>) -> Seq<
    (IssueKind, Seq<char>, Seq<char>),
> {
    head_issues(s) + tail_issues(s)
}

/// The track that the property pairs `s` describe.
pub open spec fn track_of(s: Seq<(Seq<char>, Seq<char>)>) -> TrackView {
    let title = prop_text(s, "Tracktitle"@);
    TrackView {
        cdindex: prop_text(s, "CDINDEX_DISCID"@),
        cddb: prop_hex(s, "CDDB_DISCID"@),
        album_artist: prop_text(s, "Albumperformer"@),
        disc_name: prop_text(s, "Albumtitle"@),
        album: None,
        disc: None,
        date: None,
        genre: None,
        isrc: prop_text(s, "ISRC"@),
        artist: performer_of(s),
        feat: match title {
            Some(t) => match feat_of(t) {
                Some(f) => f,
                None => Seq::empty(),
            },
            None => Seq::empty(),
        },
        title,
        track: prop_usize(s, "Track"@),
    }
}

/// `text` without a leading byte-order mark.
pub open spec fn without_bom(text: Seq<char>) -> Seq<char> {
    if text.len() > 0 && text[0] == '\u{feff}' {
        text.skip(1)
    } else {
        text
    }
}

/// The track after normalization: the album performer is dropped where it
/// equals the performer, and the disc name where it equals the album title.
pub open spec fn normalized(t: TrackView) -> TrackView {
    TrackView {
        album_artist: if t.album_artist == t.artist {
            None
        } else {
            t.album_artist
        },
        disc_name: if t.disc_name == t.album {
            None
        } else {
            t.disc_name
        },
        ..t
    }
}

/// One track's metadata. Every field may be unknown.
#[derive(Debug)]
pub struct TrackInfo {
    // album info
    pub cdindex: Option<String>,
    pub cddb: Option<u32>,
    pub album_artist: Option<String>,
    pub disc_name: Option<String>,
    pub album: Option<String>,
    pub disc: Option<usize>,
    pub date: Option<Date>,
    pub genre: Option<String>,
    // track info
    pub isrc: Option<String>,
    pub artist: Option<String>,
    pub feat: Vec<String>,
    pub title: Option<String>,
    pub track: Option<usize>,
}

impl View for TrackInfo {
    type V = TrackView;

    open spec fn view(&self) -> TrackView {
        TrackView {
            cdindex: self.cdindex.deep_view(),
            cddb: self.cddb,
            album_artist: self.album_artist.deep_view(),
            disc_name: self.disc_name.deep_view(),
            album: self.album.deep_view(),
            disc: self.disc,
            date: self.date,
            genre: self.genre.deep_view(),
            isrc: self.isrc.deep_view(),
            artist: self.artist.deep_view(),
            feat: self.feat.deep_view(),
            title: self.title.deep_view(),
            track: self.track,
        }
    }
}

impl Default for TrackInfo {
    fn default() -> (r: Self)
        ensures
            r@ == empty_track(),
    {
        let r = TrackInfo {
            cdindex: None,
            cddb: None,
            album_artist: None,
            disc_name: None,
            album: None,
            disc: None,
            date: None,
            genre: None,
            isrc: None,
            artist: None,
            feat: Vec::new(),
            title: None,
            track: None,
        };
        assert(r@.feat =~= Seq::<Seq<char>>::empty());
        r
    }
}

/// Whether two optional strings are equal.
pub fn opt_str_eq(a: &Option<String>, b: &Option<String>) -> (r: bool)
    ensures
        r == (a.deep_view() == b.deep_view()),
{
    match (a, b) {
        (Some(x), Some(y)) => String::eq(x, y),
        (None, None) => true,
        _ => false,
    }
}

/// `s` without one pair of surrounding single quotes, where it has them.
pub fn strip_quotes(s: &str) -> (r: String)
    ensures
        r@ == unquote(s@),
{
    let v = chars_of(s);
    if v.len() >= 2 && v[0] == '\'' && v[v.len() - 1] == '\'' {
        substring(&v, 1, v.len() - 1)
    } else {
        string_of(&v)
    }
}

/// The primary performer within the performer text `s`.
pub fn primary_performer(s: &str) -> (r: String)
    ensures
        r@ == primary_of(s@),
{
    let v = chars_of(s);
    match split_once_chars(&v, ",") {
        Some((a, _)) => string_of(&a),
        None => match split_once_chars(&v, " Featuring ") {
            Some((a, _)) => string_of(&a),
            None => string_of(&v),
        },
    }
}

impl TrackInfo {
    /// Reads a track from the text of its property file. A leading
    /// byte-order mark is skipped. Text without a general section gives a
    /// track of which nothing is known.
    pub fn from_ini(text: &str) -> (r: Result<Self, Error>)
        ensures
            match ini_general_of(without_bom(text@)) {
                None => r matches Err(Error::Ini(_)),
                Some(None) => r matches Ok(t) && t@ == empty_track(),
                Some(Some(s)) => r matches Ok(t) && t@ == track_of(s),
            },
    {
        match Self::read_ini(text) {
            Ok((t, _)) => Ok(t),
            Err(e) => Err(e),
        }
    }

    /// Reads a track as `from_ini` does, together with the issues that made
    /// fields absent, for the caller to report.
    pub fn read_ini(text: &str) -> (r: Result<(Self, Vec<Issue>), Error>)
        ensures
            match ini_general_of(without_bom(text@)) {
                None => r matches Err(Error::Ini(_)),
                Some(None) => r matches Ok((t, is)) && t@ == empty_track() && issues_view(is@)
                    == seq![(IssueKind::NoSection, Seq::<char>::empty(), Seq::<char>::empty())],
                Some(Some(s)) => r matches Ok((t, is)) && t@ == track_of(s) && issues_view(is@)
                    == issues_of(s),
            },
    {
        let v = chars_of(text);
        let body = if v.len() > 0 && v[0] == '\u{feff}' {
            substring(&v, 1, v.len())
        } else {
            string_of(&v)
        };
        assert(body@ == without_bom(text@));
        match load_ini(body.as_str()) {
            Err(e) => Err(Error::Ini(e)),
            Ok(i) => match general_section(&i) {
                None => {
                    let mut is: Vec<Issue> = Vec::new();
                    is.push(Issue { kind: IssueKind::NoSection, key: String::new(), value: String::new() });
                    assert(issues_view(is@) =~= seq![
                        (IssueKind::NoSection, Seq::<char>::empty(), Seq::<char>::empty()),
                    ]);
                    Ok((Self::default(), is))
                },
                Some(p) => Ok((Self::from_properties(p), Self::property_issues(p))),
            },
        }
    }

    /// The issues of the properties of a general section, in the order
    /// `issues_of` gives.
    pub fn property_issues(inf: &ini::Properties) -> (r: Vec<Issue>)
        ensures
            issues_view(r@) == issues_of(prop_pairs(*inf)),
    {
        let mut is: Vec<Issue> = Vec::new();
        Self::head_issues(inf, &mut is);
        Self::tail_issues(inf, &mut is);
        assert(issues_view(is@) =~= issues_of(prop_pairs(*inf)));
        is
    }

    fn push_issue(is: &mut Vec<Issue>, kind: IssueKind, key: &str, value: String)
        ensures
            issues_view(final(is)@) == issues_view(old(is)@).push((kind, key@, value@)),
    {
        is.push(Issue { kind, key: key.to_owned(), value });
        assert(issues_view(is@) =~= issues_view(old(is)@).push((kind, key@, value@)));
    }

    fn presence(inf: &ini::Properties, key: &str, is: &mut Vec<Issue>)
        ensures
            issues_view(final(is)@) == issues_view(old(is)@) + presence_issues(
                prop_pairs(*inf),
                key@,
            ),
    {
        match prop_get(inf, key) {
            None => {
                Self::push_issue(is, IssueKind::Missing, key, String::new());
            },
            Some(v) => {
                if strip_quotes(v).as_str().is_empty() {
                    Self::push_issue(is, IssueKind::Empty, key, String::new());
                }
            },
        }
        assert(issues_view(is@) =~= issues_view(old(is)@) + presence_issues(
            prop_pairs(*inf),
            key@,
        ));
    }

    fn head_issues(inf: &ini::Properties, is: &mut Vec<Issue>)
        ensures
            issues_view(final(is)@) == issues_view(old(is)@) + head_issues(prop_pairs(*inf)),
    {
        let ghost s = prop_pairs(*inf);
        let ghost o = issues_view(is@);
        Self::presence(inf, "Tracktitle", is);
        let title = Self::get_string(inf, "Tracktitle");
        match &title {
            Some(t) => {
                if get_perf(t.as_str()).is_err() {
                    Self::push_issue(is, IssueKind::Featuring, "Tracktitle", t.clone());
                }
            },
            None => {},
        }
        let ghost part = presence_issues(s, "Tracktitle"@) + feat_issues(prop_text(s, "Tracktitle"@));
        assert(issues_view(is@) =~= o + part);
        Self::presence(inf, "CDINDEX_DISCID", is);
        let ghost part2 = part + presence_issues(s, "CDINDEX_DISCID"@);
        assert(issues_view(is@) =~= o + part2);
        Self::presence(inf, "CDDB_DISCID", is);
        let ghost part3 = part2 + presence_issues(s, "CDDB_DISCID"@);
        assert(issues_view(is@) =~= o + part3);
        match Self::get_string(inf, "CDDB_DISCID") {
            Some(t) => {
                if Self::get_hex_u32(inf, "CDDB_DISCID").is_none() {
                    Self::push_issue(is, IssueKind::Invalid, "CDDB_DISCID", t);
                }
            },
            None => {},
        }
        assert(issues_view(is@) =~= o + head_issues(s));
    }

    fn tail_issues(inf: &ini::Properties, is: &mut Vec<Issue>)
        ensures
            issues_view(final(is)@) == issues_view(old(is)@) + tail_issues(prop_pairs(*inf)),
    {
        let ghost s = prop_pairs(*inf);
        let ghost o = issues_view(is@);
        Self::presence(inf, "Albumperformer", is);
        Self::presence(inf, "Albumtitle", is);
        let ghost part = presence_issues(s, "Albumperformer"@) + presence_issues(s, "Albumtitle"@);
        assert(issues_view(is@) =~= o + part);
        Self::presence(inf, "ISRC", is);
        let ghost part2 = part + presence_issues(s, "ISRC"@);
        assert(issues_view(is@) =~= o + part2);
        Self::presence(inf, "Performer", is);
        let ghost part3 = part2 + presence_issues(s, "Performer"@);
        assert(issues_view(is@) =~= o + part3);
        if Self::get_string(inf, "Performer").is_some() && Self::get_artist(inf).is_none() {
            Self::push_issue(is, IssueKind::Empty, "Performer", String::new());
        }
        let ghost part4 = part3 + value_issues(
            s,
            "Performer"@,
            IssueKind::Empty,
            performer_of(s) is None,
        );
        assert(issues_view(is@) =~= o + part4);
        Self::presence(inf, "Track", is);
        let ghost part5 = part4 + presence_issues(s, "Track"@);
        assert(issues_view(is@) =~= o + part5);
        match Self::get_string(inf, "Track") {
            Some(t) => {
                if Self::get_parse(inf, "Track").is_none() {
                    Self::push_issue(is, IssueKind::Invalid, "Track", t);
                }
            },
            None => {},
        }
        assert(issues_view(is@) =~= o + tail_issues(s));
    }

    /// The track that the properties of its general section describe.
    pub fn from_properties(inf: &ini::Properties) -> (r: Self)
        ensures
            r@ == track_of(prop_pairs(*inf)),
    {
        let title = Self::get_string(inf, "Tracktitle");
        let feat: Vec<String> = match &title {
            Some(t) => match get_perf(t.as_str()) {
                Ok(f) => f,
                Err(_) => Vec::new(),
            },
            None => Vec::new(),
        };
        let r = TrackInfo {
            cdindex: Self::get_string(inf, "CDINDEX_DISCID"),
            cddb: Self::get_hex_u32(inf, "CDDB_DISCID"),
            album_artist: Self::get_string(inf, "Albumperformer"),
            disc_name: Self::get_string(inf, "Albumtitle"),
            album: None,
            disc: None,
            date: None,
            genre: None,
            isrc: Self::get_string(inf, "ISRC"),
            artist: Self::get_artist(inf),
            feat,
            title,
            track: Self::get_parse(inf, "Track"),
        };
        assert(r@.feat =~= track_of(prop_pairs(*inf)).feat);
        r
    }

    /// Drops the album performer where it equals the performer, and the disc
    /// name where it equals the album title.
    pub fn normalize(&mut self)
        ensures
            final(self)@ == normalized(old(self)@),
    {
        if opt_str_eq(&self.album_artist, &self.artist) {
            self.album_artist = None;
        }
        if opt_str_eq(&self.disc_name, &self.album) {
            self.disc_name = None;
        }
    }

    fn get_artist(inf: &ini::Properties) -> (r: Option<String>)
        ensures
            r.deep_view() == performer_of(prop_pairs(*inf)),
    {
        match Self::get_string(inf, "Performer") {
            Some(s) => non_empty_string(primary_performer(s.as_str())),
            None => None,
        }
    }

    fn get_string(inf: &ini::Properties, name: &str) -> (r: Option<String>)
        ensures
            r.deep_view() == prop_text(prop_pairs(*inf), name@),
    {
        match prop_get(inf, name) {
            Some(s) => {
                let u = strip_quotes(s);
                if u.as_str().is_empty() {
                    None
                } else {
                    Some(u)
                }
            },
            None => None,
        }
    }

    fn get_parse(inf: &ini::Properties, name: &str) -> (r: Option<usize>)
        ensures
            r == prop_usize(prop_pairs(*inf), name@),
    {
        match Self::get_string(inf, name) {
            Some(s) => parse_usize(s.as_str()),
            None => None,
        }
    }

    fn get_hex_u32(inf: &ini::Properties, name: &str) -> (r: Option<u32>)
        ensures
            r == prop_hex(prop_pairs(*inf), name@),
    {
        match Self::get_string(inf, name) {
            Some(s) => {
                let v = chars_of(s.as_str());
                let digits = if v.len() >= 2 && v[0] == '0' && v[1] == 'x' {
                    substring(&v, 2, v.len())
                } else {
                    string_of(&v)
                };
                assert(digits@ == strip_hex_prefix(s@));
                parse_hex_u32(digits.as_str())
            },
            None => None,
        }
    }
}

} // verus!
