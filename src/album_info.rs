//! One disc's resolved metadata and its ordered tracks: the rules that merge
//! per-track values, the disc blob and the album-level values.
use vstd::prelude::*;
use vstd::seq_lib::to_multiset_contains;
use std::path::PathBuf;
use crate::cddb_read::{blob_of, read_cddb, DiscBlob};
use crate::date::{date_le, date_of, Date};
use crate::err::Error;
use crate::num::{parse_hex_u32, unsigned_value};
use crate::text::{non_empty, non_empty_string, split_once, split_once_str};
use crate::track_info::{normalized, TrackInfo, TrackView};

verus! {

/// The extension of a track's raw audio file.
pub const AUDIO_EXTENSION: &'static str = "wav";

/// The extension of a track's property file, which stands beside its audio
/// file under the same base name.
pub const INFO_EXTENSION: &'static str = "inf";

/// The name of the disc blob file within an album directory.
pub const BLOB_FILE_NAME: &'static str = "audio.cddb";

/// A file system path.
#[verifier::external_type_specification]
#[verifier::external_body]
pub struct ExPathBuf(PathBuf);

/// An album's metadata as sequences.
pub struct AlbumView {
    pub cdindex: Option<Seq<char>>,
    pub cddb: Option<u32>,
    pub artist: Option<Seq<char>>,
    pub disc_name: Option<Seq<char>>,
    pub album_title: Option<Seq<char>>,
    pub disc: Option<usize>,
    pub date: Option<Date>,
    pub genre: Option<Seq<char>>,
    pub tracks: Seq<(TrackView, PathBuf)>,
}

/// `a` where it is present, else `b`.
pub open spec fn or_else<A>(a: Option<A>, b: Option<A>) -> Option<A> {
    match a {
        Some(x) => Some(x),
        None => b,
    }
}

/// The text fields of a track that album-level values are taken from.
#[derive(Clone, Copy, Debug, PartialEq, Eq, Structural)]
pub enum TextField {
    Cdindex,
    AlbumArtist,
    Artist,
    DiscName,
    Album,
    Genre,
}

/// The value of the text field `f` of `t`.
pub open spec fn text_of(t: TrackView, f: TextField) -> Option<Seq<char>> {
    match f {
        TextField::Cdindex => t.cdindex,
        TextField::AlbumArtist => t.album_artist,
        TextField::Artist => t.artist,
        TextField::DiscName => t.disc_name,
        TextField::Album => t.album,
        TextField::Genre => t.genre,
    }
}

/// The first present value of the text field `f` among the tracks `ts`.
pub open spec fn first_text(ts: Seq<(TrackView, PathBuf)>, f: TextField) -> Option<Seq<char>>
    decreases ts.len(),
{
    if ts.len() == 0 {
        None
    } else {
        or_else(first_text(ts.drop_last(), f), text_of(ts.last().0, f))
    }
}

/// The first present disc checksum among the tracks `ts`.
pub open spec fn first_cddb(ts: Seq<(TrackView, PathBuf)>) -> Option<u32>
    decreases ts.len(),
{
    if ts.len() == 0 {
        None
    } else {
        or_else(first_cddb(ts.drop_last()), ts.last().0.cddb)
    }
}

/// The first present disc index among the tracks `ts`.
pub open spec fn first_disc(ts: Seq<(TrackView, PathBuf)>) -> Option<usize>
    decreases ts.len(),
{
    if ts.len() == 0 {
        None
    } else {
        or_else(first_disc(ts.drop_last()), ts.last().0.disc)
    }
}

/// The later of two optional dates.
pub open spec fn later(a: Option<Date>, b: Option<Date>) -> Option<Date> {
    match (a, b) {
        (Some(x), Some(y)) => if date_le(x, y) {
            Some(y)
        } else {
            Some(x)
        },
        (None, y) => y,
        (x, None) => x,
    }
}

/// The latest date among the tracks `ts`.
pub open spec fn max_date(ts: Seq<(TrackView, PathBuf)>) -> Option<Date>
    decreases ts.len(),
{
    if ts.len() == 0 {
        None
    } else {
        later(max_date(ts.drop_last()), ts.last().0.date)
    }
}

/// The album-level fields after derivation from the tracks: a field already
/// set stays; else the first present track value is taken (for the
/// performer, the album performers of all tracks before their performers);
/// the date is the latest track date; the album title falls back to the disc
/// name.
pub open spec fn derived(a: AlbumView) -> AlbumView {
    let ts = a.tracks;
    let disc_name = or_else(a.disc_name, first_text(ts, TextField::DiscName));
    AlbumView {
        cdindex: or_else(a.cdindex, first_text(ts, TextField::Cdindex)),
        cddb: or_else(a.cddb, first_cddb(ts)),
        artist: or_else(
            a.artist,
            or_else(first_text(ts, TextField::AlbumArtist), first_text(ts, TextField::Artist)),
        ),
        disc_name,
        album_title: or_else(or_else(a.album_title, first_text(ts, TextField::Album)), disc_name),
        disc: or_else(a.disc, first_disc(ts)),
        date: or_else(a.date, max_date(ts)),
        genre: or_else(a.genre, first_text(ts, TextField::Genre)),
        tracks: ts,
    }
}

/// The track `t` with its absent album-scope fields taken from `a`.
pub open spec fn backfilled(t: TrackView, a: AlbumView) -> TrackView {
    TrackView {
        cdindex: or_else(t.cdindex, a.cdindex),
        cddb: or_else(t.cddb, a.cddb),
        album_artist: or_else(t.album_artist, a.artist),
        disc_name: or_else(t.disc_name, a.disc_name),
        disc: or_else(t.disc, a.disc),
        date: or_else(t.date, a.date),
        genre: or_else(t.genre, a.genre),
        ..t
    }
}

/// The album after derivation of its fields and back-filling of its tracks.
pub open spec fn resolved(a: AlbumView) -> AlbumView {
    let r = derived(a);
    AlbumView {
        tracks: r.tracks.map_values(|p: (TrackView, PathBuf)| (backfilled(p.0, r), p.1)),
        ..r
    }
}

/// The album with each track normalized.
pub open spec fn normalized_album(a: AlbumView) -> AlbumView {
    AlbumView {
        tracks: a.tracks.map_values(|p: (TrackView, PathBuf)| (normalized(p.0), p.1)),
        ..a
    }
}

/// The sort key of a track: its position, 0 where it has none.
pub open spec fn key_of(p: (TrackView, PathBuf)) -> nat {
    match p.0.track {
        Some(n) => n as nat,
        None => 0,
    }
}

/// Whether a track has sort key `k`.
pub open spec fn has_key(k: nat) -> spec_fn((TrackView, PathBuf)) -> bool {
    |p: (TrackView, PathBuf)| key_of(p) == k
}

/// The tracks `s` are in ascending order of key.
pub open spec fn sorted_by_key(s: Seq<(TrackView, PathBuf)>) -> bool {
    forall|i: int, j: int| 0 <= i < j < s.len() ==> key_of(#[trigger] s[i]) <= key_of(#[trigger] s[j])
}

/// `r` is `s` sorted stably by key: ascending, and the tracks of each key in
/// the order they had in `s`.
pub open spec fn stable_sort_of(s: Seq<(TrackView, PathBuf)>, r: Seq<(TrackView, PathBuf)>) -> bool {
    sorted_by_key(r) && forall|k: nat| #[trigger] r.filter(has_key(k)) == s.filter(has_key(k))
}

/// The value held for `k` in `m`.
pub open spec fn map_get(m: Map<Seq<char>, Seq<char>>, k: Seq<char>) -> Option<Seq<char>> {
    if m.contains_key(k) {
        Some(m[k])
    } else {
        None
    }
}

/// The checksum that the blob `m` declares, or `None` where it is not
/// hexadecimal.
pub open spec fn blob_cddb(m: Map<Seq<char>, Seq<char>>) -> Option<Option<u32>> {
    match map_get(m, "DISCID"@) {
        None => Some(None),
        Some(t) => match unsigned_value(t, 16, u32::MAX as int) {
            Some(n) => Some(Some(n as u32)),
            None => None,
        },
    }
}

/// The date that the blob `m` declares, or `None` where it is not a date.
pub open spec fn blob_year(m: Map<Seq<char>, Seq<char>>) -> Option<Option<Date>> {
    match map_get(m, "DYEAR"@) {
        None => Some(None),
        Some(t) => match date_of(t) {
            Ok(d) => Some(Some(d)),
            Err(_) => None,
        },
    }
}

/// The album after the fields of the blob `m` are applied, in order: the
/// checksum, performer and disc name from `DTITLE` split at ` / ` (each
/// absent where its part is empty), the date,
/// the genre. Where the checksum is malformed nothing changes; where the
/// date is, date and genre stay.
pub open spec fn with_blob(a: AlbumView, m: Map<Seq<char>, Seq<char>>) -> AlbumView {
    match blob_cddb(m) {
        None => a,
        Some(c) => {
            let a1 = AlbumView { cddb: c, ..a };
            let a2 = match map_get(m, "DTITLE"@) {
                Some(t) => match split_once(t, " / "@) {
                    Some((artist, disc_name)) => AlbumView {
                        artist: non_empty(artist),
                        disc_name: non_empty(disc_name),
                        ..a1
                    },
                    None => a1,
                },
                None => a1,
            };
            match blob_year(m) {
                None => a2,
                Some(d) => AlbumView { date: d, genre: map_get(m, "DGENRE"@), ..a2 },
            }
        },
    }
}

/// Whether every field of the blob `m` that is read is well formed.
pub open spec fn blob_ok(m: Map<Seq<char>, Seq<char>>) -> bool {
    blob_cddb(m) is Some && blob_year(m) is Some
}

/// The album after the blob with lines `lines` is applied, if there is a
/// blob and its lines are well formed.
pub open spec fn with_blob_lines(a: AlbumView, lines: Option<Seq<Seq<char>>>) -> AlbumView {
    match lines {
        None => a,
        Some(ls) => match blob_of(ls) {
            None => a,
            Some(m) => with_blob(a, m),
        },
    }
}

/// An album of which nothing but the tracks is known.
pub open spec fn bare_album(tracks: Seq<(TrackView, PathBuf)>) -> AlbumView {
    AlbumView {
        cdindex: None,
        cddb: None,
        artist: None,
        disc_name: None,
        album_title: None,
        disc: None,
        date: None,
        genre: None,
        tracks,
    }
}

/// The views of a list of tracks with their paths.
pub open spec fn tracks_view(v: Seq<(TrackInfo, PathBuf)>) -> Seq<(TrackView, PathBuf)> {
    v.map_values(|p: (TrackInfo, PathBuf)| (p.0@, p.1))
}

/// One disc's resolved metadata and its tracks, each with the path of its
/// audio file.
#[derive(Debug)]
pub struct AlbumInfo {
    pub cdindex: Option<String>,
    pub cddb: Option<u32>,
    pub artist: Option<String>,
    pub disc_name: Option<String>,
    pub album_title: Option<String>,
    pub disc: Option<usize>,
    pub date: Option<Date>,
    pub genre: Option<String>,
    pub tracks: Vec<(TrackInfo, PathBuf)>,
}

impl View for AlbumInfo {
    type V = AlbumView;

    open spec fn view(&self) -> AlbumView {
        AlbumView {
            cdindex: self.cdindex.deep_view(),
            cddb: self.cddb,
            artist: self.artist.deep_view(),
            disc_name: self.disc_name.deep_view(),
            album_title: self.album_title.deep_view(),
            disc: self.disc,
            date: self.date,
            genre: self.genre.deep_view(),
            tracks: tracks_view(self.tracks@),
        }
    }
}

/// A copy of an optional string.
pub fn clone_opt(o: &Option<String>) -> (r: Option<String>)
    ensures
        r.deep_view() == o.deep_view(),
{
    match o {
        Some(s) => Some(s.clone()),
        None => None,
    }
}

/// The text field `f` of `t`.
fn text_field(t: &TrackInfo, f: TextField) -> (r: &Option<String>)
    ensures
        r.deep_view() == text_of(t@, f),
{
    match f {
        TextField::Cdindex => &t.cdindex,
        TextField::AlbumArtist => &t.album_artist,
        TextField::Artist => &t.artist,
        TextField::DiscName => &t.disc_name,
        TextField::Album => &t.album,
        TextField::Genre => &t.genre,
    }
}

/// The first present value of the text field `f` among `tracks`.
fn find_text(tracks: &Vec<(TrackInfo, PathBuf)>, f: TextField) -> (r: Option<String>)
    ensures
        r.deep_view() == first_text(tracks_view(tracks@), f),
{
    let ghost ts = tracks_view(tracks@);
    let mut r: Option<String> = None;
    let mut i: usize = 0;
    while i < tracks.len()
        invariant
            i <= tracks.len(),
            ts == tracks_view(tracks@),
            r.deep_view() == first_text(ts.take(i as int), f),
        decreases tracks.len() - i,
    {
        assert(ts.take(i + 1).drop_last() =~= ts.take(i as int));
        if r.is_none() {
            r = clone_opt(text_field(&tracks[i].0, f));
        }
        i = i + 1;
    }
    assert(ts.take(i as int) =~= ts);
    r
}

/// The first present disc checksum among `tracks`.
fn find_cddb(tracks: &Vec<(TrackInfo, PathBuf)>) -> (r: Option<u32>)
    ensures
        r == first_cddb(tracks_view(tracks@)),
{
    let ghost ts = tracks_view(tracks@);
    let mut r: Option<u32> = None;
    let mut i: usize = 0;
    while i < tracks.len()
        invariant
            i <= tracks.len(),
            ts == tracks_view(tracks@),
            r == first_cddb(ts.take(i as int)),
        decreases tracks.len() - i,
    {
        assert(ts.take(i + 1).drop_last() =~= ts.take(i as int));
        if r.is_none() {
            r = tracks[i].0.cddb;
        }
        i = i + 1;
    }
    assert(ts.take(i as int) =~= ts);
    r
}

/// The first present disc index among `tracks`.
fn find_disc(tracks: &Vec<(TrackInfo, PathBuf)>) -> (r: Option<usize>)
    ensures
        r == first_disc(tracks_view(tracks@)),
{
    let ghost ts = tracks_view(tracks@);
    let mut r: Option<usize> = None;
    let mut i: usize = 0;
    while i < tracks.len()
        invariant
            i <= tracks.len(),
            ts == tracks_view(tracks@),
            r == first_disc(ts.take(i as int)),
        decreases tracks.len() - i,
    {
        assert(ts.take(i + 1).drop_last() =~= ts.take(i as int));
        if r.is_none() {
            r = tracks[i].0.disc;
        }
        i = i + 1;
    }
    assert(ts.take(i as int) =~= ts);
    r
}

/// The latest date among `tracks`.
fn find_max_date(tracks: &Vec<(TrackInfo, PathBuf)>) -> (r: Option<Date>)
    ensures
        r == max_date(tracks_view(tracks@)),
{
    let ghost ts = tracks_view(tracks@);
    let mut r: Option<Date> = None;
    let mut i: usize = 0;
    while i < tracks.len()
        invariant
            i <= tracks.len(),
            ts == tracks_view(tracks@),
            r == max_date(ts.take(i as int)),
        decreases tracks.len() - i,
    {
        assert(ts.take(i + 1).drop_last() =~= ts.take(i as int));
        r = match (r, tracks[i].0.date) {
            (Some(x), Some(y)) => if x.le(&y) {
                Some(y)
            } else {
                Some(x)
            },
            (None, y) => y,
            (x, None) => x,
        };
        i = i + 1;
    }
    assert(ts.take(i as int) =~= ts);
    r
}

/// The sort key of a track.
fn track_key(t: &TrackInfo) -> (r: usize)
    ensures
        match t.track {
            Some(n) => r == n,
            None => r == 0,
        },
{
    match t.track {
        Some(n) => n,
        None => 0,
    }
}

proof fn lemma_insert_stable(
    s: Seq<(TrackView, PathBuf)>,
    r: Seq<(TrackView, PathBuf)>,
    x: (TrackView, PathBuf),
    p: int,
)
    requires
        stable_sort_of(s, r),
        0 <= p <= r.len(),
        forall|i: int| 0 <= i < p ==> key_of(#[trigger] r[i]) <= key_of(x),
        forall|i: int| p <= i < r.len() ==> key_of(#[trigger] r[i]) > key_of(x),
    ensures
        stable_sort_of(s.push(x), r.insert(p, x)),
{
    let t = r.insert(p, x);
    assert(t =~= r.take(p) + seq![x] + r.skip(p));
    assert(r =~= r.take(p) + r.skip(p));
    assert(sorted_by_key(t)) by {
        assert forall|i: int, j: int| 0 <= i < j < t.len() implies key_of(#[trigger] t[i])
            <= key_of(#[trigger] t[j]) by {
            if j < p {
                assert(t[i] == r[i] && t[j] == r[j]);
            } else if j == p {
                assert(t[i] == r[i]);
            } else if i < p {
                assert(t[i] == r[i] && t[j] == r[j - 1]);
            } else if i == p {
                assert(t[j] == r[j - 1]);
            } else {
                assert(t[i] == r[i - 1] && t[j] == r[j - 1]);
            }
        }
    }
    assert forall|k: nat| #[trigger] t.filter(has_key(k)) == s.push(x).filter(has_key(k)) by {
        let f = has_key(k);
        Seq::filter_distributes_over_add(r.take(p) + seq![x], r.skip(p), f);
        Seq::filter_distributes_over_add(r.take(p), seq![x], f);
        Seq::filter_distributes_over_add(r.take(p), r.skip(p), f);
        s.lemma_filter_push(x, f);
        Seq::<(TrackView, PathBuf)>::empty().lemma_filter_push(x, f);
        assert(Seq::<(TrackView, PathBuf)>::empty().push(x) =~= seq![x]);
        assert(Seq::<(TrackView, PathBuf)>::empty().filter(f) =~= Seq::<
            (TrackView, PathBuf),
        >::empty()) by {
            reveal(Seq::filter);
        }
        assert(r.filter(f) == s.filter(f));
        if key_of(x) == k {
            assert forall|i: int| 0 <= i < r.skip(p).len() implies !f(#[trigger] r.skip(p)[i]) by {
                assert(r.skip(p)[i] == r[p + i]);
            }
            r.skip(p).lemma_all_neg_filter_empty(f);
            assert(r.skip(p).filter(f) =~= Seq::<(TrackView, PathBuf)>::empty());
            assert(t.filter(f) =~= s.push(x).filter(f));
        } else {
            assert(t.filter(f) =~= s.push(x).filter(f));
        }
    }
}

/// `tracks` sorted stably by position, a track without one counting as 0.
pub fn sort_tracks(tracks: Vec<(TrackInfo, PathBuf)>) -> (r: Vec<(TrackInfo, PathBuf)>)
    ensures
        stable_sort_of(tracks_view(tracks@), tracks_view(r@)),
{
    let ghost input = tracks_view(tracks@);
    let mut r: Vec<(TrackInfo, PathBuf)> = Vec::new();
    let mut rest = tracks;
    let ghost done: Seq<(TrackView, PathBuf)> = Seq::empty();
    proof {
        assert forall|k: nat| #[trigger] tracks_view(r@).filter(has_key(k)) == done.filter(
            has_key(k),
        ) by {
            assert(tracks_view(r@) =~= done);
        }
    }
    while rest.len() > 0
        invariant
            input == done + tracks_view(rest@),
            stable_sort_of(done, tracks_view(r@)),
        decreases rest.len(),
    {
        let ghost before = tracks_view(rest@);
        let item = rest.remove(0);
        assert(tracks_view(rest@) =~= before.drop_first());
        let k = track_key(&item.0);
        let mut p: usize = 0;
        while p < r.len() && track_key(&r[p].0) <= k
            invariant
                p <= r.len(),
                sorted_by_key(tracks_view(r@)),
                k == key_of((item.0@, item.1)),
                forall|i: int| 0 <= i < p ==> key_of(#[trigger] tracks_view(r@)[i]) <= k,
            decreases r.len() - p,
        {
            p = p + 1;
        }
        let ghost x = (item.0@, item.1);
        let ghost rv = tracks_view(r@);
        proof {
            assert forall|i: int| p <= i < rv.len() implies key_of(#[trigger] rv[i]) > key_of(x) by {
                assert(key_of(rv[p as int]) > k);
                if i > p {
                    assert(key_of(rv[p as int]) <= key_of(rv[i]));
                }
            }
            lemma_insert_stable(done, rv, x, p as int);
            done = done.push(x);
        }
        r.insert(p, item);
        assert(tracks_view(r@) =~= rv.insert(p as int, x));
        assert(input =~= done + tracks_view(rest@));
    }
    assert(done =~= input);
    r
}

/// Back-fills the absent album-scope fields of `t` from the album values.
fn backfill_track(
    t: &mut TrackInfo,
    cdindex: &Option<String>,
    cddb: Option<u32>,
    artist: &Option<String>,
    disc_name: &Option<String>,
    disc: Option<usize>,
    date: Option<Date>,
    genre: &Option<String>,
)
    ensures
        final(t)@ == backfilled(
            old(t)@,
            AlbumView {
                cdindex: cdindex.deep_view(),
                cddb,
                artist: artist.deep_view(),
                disc_name: disc_name.deep_view(),
                album_title: None,
                disc,
                date,
                genre: genre.deep_view(),
                tracks: Seq::empty(),
            },
        ),
{
    if t.cdindex.is_none() {
        t.cdindex = clone_opt(cdindex);
    }
    if t.cddb.is_none() {
        t.cddb = cddb;
    }
    if t.album_artist.is_none() {
        t.album_artist = clone_opt(artist);
    }
    if t.disc_name.is_none() {
        t.disc_name = clone_opt(disc_name);
    }
    if t.disc.is_none() {
        t.disc = disc;
    }
    if t.date.is_none() {
        t.date = date;
    }
    if t.genre.is_none() {
        t.genre = clone_opt(genre);
    }
}

impl AlbumInfo {
    /// An album of which nothing but its tracks is known.
    pub fn new(tracks: Vec<(TrackInfo, PathBuf)>) -> (r: AlbumInfo)
        ensures
            r@ == bare_album(tracks_view(tracks@)),
    {
        AlbumInfo {
            cdindex: None,
            cddb: None,
            artist: None,
            disc_name: None,
            album_title: None,
            disc: None,
            date: None,
            genre: None,
            tracks,
        }
    }

    /// Builds an album from its tracks and, where there is one, the lines of
    /// its disc blob: the tracks are sorted stably by position, the blob is
    /// applied, then the album fields are derived and pushed down to the
    /// tracks. The second part of the result is the error that the blob
    /// gave, if it gave one; the album is built all the same.
    pub fn from_tracks(tracks: Vec<(TrackInfo, PathBuf)>, cddb: Option<Vec<String>>) -> (r: (
        AlbumInfo,
        Option<Error>,
    ))
        ensures
            exists|s: Seq<(TrackView, PathBuf)>|
                stable_sort_of(tracks_view(tracks@), s) && r.0@ == resolved(
                    with_blob_lines(bare_album(s), cddb.deep_view()),
                ),
            r.1 is Some <==> (match cddb.deep_view() {
                None => false,
                Some(ls) => match blob_of(ls) {
                    None => true,
                    Some(m) => !blob_ok(m),
                },
            }),
    {
        let ghost orig = tracks_view(tracks@);
        let sorted = sort_tracks(tracks);
        let ghost s = tracks_view(sorted@);
        let mut res = AlbumInfo::new(sorted);
        let mut failure: Option<Error> = None;
        match &cddb {
            Some(lines) => {
                match res.read_cddb(lines) {
                    Ok(()) => {},
                    Err(e) => {
                        failure = Some(e);
                    },
                }
            },
            None => {},
        }
        assert(res@ == with_blob_lines(bare_album(s), cddb.deep_view()));
        res.resolve();
        assert(stable_sort_of(orig, s));
        (res, failure)
    }

    /// Applies the disc blob with lines `lines` to the album fields, as
    /// `with_blob` says; fails where a line is malformed (nothing changes
    /// then) or a field that is read is.
    pub fn read_cddb(&mut self, lines: &Vec<String>) -> (r: Result<(), Error>)
        ensures
            match blob_of(lines.deep_view()) {
                None => r matches Err(Error::ParseCddb) && final(self)@ == old(self)@,
                Some(m) => final(self)@ == with_blob(old(self)@, m) && (r is Ok <==> blob_ok(m)),
            },
    {
        let blob = match read_cddb(lines) {
            Ok(b) => b,
            Err(e) => {
                return Err(e);
            },
        };
        self.apply_blob(&blob)
    }

    fn apply_blob(&mut self, blob: &DiscBlob) -> (r: Result<(), Error>)
        requires
            blob.wf(),
        ensures
            final(self)@ == with_blob(old(self)@, blob.view()),
            r is Ok <==> blob_ok(blob.view()),
    {
        match blob.get("DISCID") {
            Some(c) => match parse_hex_u32(c.as_str()) {
                Some(n) => {
                    self.cddb = Some(n);
                },
                None => {
                    return Err(Error::ParseInt);
                },
            },
            None => {
                self.cddb = None;
            },
        }
        match blob.get("DTITLE") {
            Some(at) => match split_once_str(at.as_str(), " / ") {
                Some((artist, album)) => {
                    self.artist = non_empty_string(artist);
                    self.disc_name = non_empty_string(album);
                },
                None => {},
            },
            None => {},
        }
        match blob.get("DYEAR") {
            Some(y) => match Date::parse(y.as_str()) {
                Ok(d) => {
                    self.date = Some(d);
                },
                Err(e) => {
                    return Err(e);
                },
            },
            None => {
                self.date = None;
            },
        }
        self.genre = blob.get("DGENRE");
        Ok(())
    }

    /// Derives the album fields from the tracks, then back-fills the absent
    /// album-scope fields of every track.
    pub fn resolve(&mut self)
        ensures
            final(self)@ == resolved(old(self)@),
    {
        let ghost a = self@;
        let cdindex = if self.cdindex.is_some() {
            clone_opt(&self.cdindex)
        } else {
            find_text(&self.tracks, TextField::Cdindex)
        };
        let cddb = if self.cddb.is_some() {
            self.cddb
        } else {
            find_cddb(&self.tracks)
        };
        let artist = if self.artist.is_some() {
            clone_opt(&self.artist)
        } else {
            let aa = find_text(&self.tracks, TextField::AlbumArtist);
            if aa.is_some() {
                aa
            } else {
                find_text(&self.tracks, TextField::Artist)
            }
        };
        let disc_name = if self.disc_name.is_some() {
            clone_opt(&self.disc_name)
        } else {
            find_text(&self.tracks, TextField::DiscName)
        };
        let album_title = if self.album_title.is_some() {
            clone_opt(&self.album_title)
        } else {
            let al = find_text(&self.tracks, TextField::Album);
            if al.is_some() {
                al
            } else {
                clone_opt(&disc_name)
            }
        };
        let disc = if self.disc.is_some() {
            self.disc
        } else {
            find_disc(&self.tracks)
        };
        let date = if self.date.is_some() {
            self.date
        } else {
            find_max_date(&self.tracks)
        };
        let genre = if self.genre.is_some() {
            clone_opt(&self.genre)
        } else {
            find_text(&self.tracks, TextField::Genre)
        };
        self.cdindex = cdindex;
        self.cddb = cddb;
        self.artist = artist;
        self.disc_name = disc_name;
        self.album_title = album_title;
        self.disc = disc;
        self.date = date;
        self.genre = genre;
        let ghost r = derived(a);
        assert(self@ == r);
        let n = self.tracks.len();
        let mut i: usize = 0;
        while i < n
            invariant
                n == self.tracks.len(),
                i <= n,
                self@.cdindex == r.cdindex,
                self@.cddb == r.cddb,
                self@.artist == r.artist,
                self@.disc_name == r.disc_name,
                self@.album_title == r.album_title,
                self@.disc == r.disc,
                self@.date == r.date,
                self@.genre == r.genre,
                forall|j: int|
                    0 <= j < i ==> #[trigger] self@.tracks[j] == (
                        backfilled(r.tracks[j].0, r),
                        r.tracks[j].1,
                    ),
                forall|j: int| i <= j < n ==> #[trigger] self@.tracks[j] == r.tracks[j],
                r.tracks.len() == n,
            decreases n - i,
        {
            assert(self@.tracks[i as int] == r.tracks[i as int]);
            let ghost before = self.tracks@;
            assert(tracks_view(before)[i as int] == (before[i as int].0@, before[i as int].1));
            backfill_track(
                &mut self.tracks[i].0,
                &self.cdindex,
                self.cddb,
                &self.artist,
                &self.disc_name,
                self.disc,
                self.date,
                &self.genre,
            );
            assert(self.tracks@ =~= before.update(
                i as int,
                (self.tracks@[i as int].0, before[i as int].1),
            ));
            assert(before[i as int].0@ == r.tracks[i as int].0);
            assert(self.tracks@[i as int].0@ == backfilled(before[i as int].0@, r));
            assert(self@.tracks[i as int] == (backfilled(r.tracks[i as int].0, r), r.tracks[i as int].1));
            assert forall|j: int| 0 <= j < n && j != i implies #[trigger] self@.tracks[j] == tracks_view(before)[j] by {
                assert(self.tracks@[j] == before[j]);
            }
            i = i + 1;
        }
        assert(self@.tracks =~= r.tracks.map_values(
            |p: (TrackView, PathBuf)| (backfilled(p.0, r), p.1),
        ));
    }

    /// Normalizes every track.
    pub fn normalize(&mut self)
        ensures
            final(self)@ == normalized_album(old(self)@),
    {
        let ghost a = self@;
        let n = self.tracks.len();
        let mut i: usize = 0;
        while i < n
            invariant
                n == self.tracks.len(),
                i <= n,
                a.tracks.len() == n,
                self@ == (AlbumView { tracks: self@.tracks, ..a }),
                forall|j: int|
                    0 <= j < i ==> #[trigger] self@.tracks[j] == (
                        normalized(a.tracks[j].0),
                        a.tracks[j].1,
                    ),
                forall|j: int| i <= j < n ==> #[trigger] self@.tracks[j] == a.tracks[j],
            decreases n - i,
        {
            assert(self@.tracks[i as int] == a.tracks[i as int]);
            let ghost before = self.tracks@;
            assert(tracks_view(before)[i as int] == (before[i as int].0@, before[i as int].1));
            self.tracks[i].0.normalize();
            assert(self.tracks@ =~= before.update(
                i as int,
                (self.tracks@[i as int].0, before[i as int].1),
            ));
            assert forall|j: int| 0 <= j < n && j != i implies #[trigger] self@.tracks[j] == tracks_view(before)[j] by {
                assert(self.tracks@[j] == before[j]);
            }
            i = i + 1;
        }
        assert(self@.tracks =~= a.tracks.map_values(
            |p: (TrackView, PathBuf)| (normalized(p.0), p.1),
        ));
    }
}

proof fn lemma_first_text_none(ts: Seq<(TrackView, PathBuf)>, f: TextField)
    ensures
        first_text(ts, f) is None <==> forall|i: int|
            0 <= i < ts.len() ==> #[trigger] text_of(ts[i].0, f) is None,
    decreases ts.len(),
{
    if ts.len() > 0 {
        lemma_first_text_none(ts.drop_last(), f);
        assert forall|i: int| 0 <= i < ts.len() - 1 implies ts.drop_last()[i] == ts[i] by {}
    }
}

proof fn lemma_first_cddb_none(ts: Seq<(TrackView, PathBuf)>)
    ensures
        first_cddb(ts) is None <==> forall|i: int| 0 <= i < ts.len() ==> (#[trigger] ts[i].0).cddb is None,
    decreases ts.len(),
{
    if ts.len() > 0 {
        lemma_first_cddb_none(ts.drop_last());
        assert forall|i: int| 0 <= i < ts.len() - 1 implies ts.drop_last()[i] == ts[i] by {}
    }
}

proof fn lemma_first_disc_none(ts: Seq<(TrackView, PathBuf)>)
    ensures
        first_disc(ts) is None <==> forall|i: int| 0 <= i < ts.len() ==> (#[trigger] ts[i].0).disc is None,
    decreases ts.len(),
{
    if ts.len() > 0 {
        lemma_first_disc_none(ts.drop_last());
        assert forall|i: int| 0 <= i < ts.len() - 1 implies ts.drop_last()[i] == ts[i] by {}
    }
}

proof fn lemma_max_date_none(ts: Seq<(TrackView, PathBuf)>)
    ensures
        max_date(ts) is None <==> forall|i: int| 0 <= i < ts.len() ==> (#[trigger] ts[i].0).date is None,
    decreases ts.len(),
{
    if ts.len() > 0 {
        lemma_max_date_none(ts.drop_last());
        assert forall|i: int| 0 <= i < ts.len() - 1 implies ts.drop_last()[i] == ts[i] by {}
    }
}

/// Running the pipeline (derivation, back-fill, normalization) once more on
/// an album that it produced changes nothing, for every album `a` whose
/// resolved tracks each keep an album performer equal to their performer
/// only where it also equals the album's performer, and a disc name equal to
/// their album title only where it also equals the album's disc name.
/// (Without that condition normalization clears such a field, and the second
/// back-fill puts the album's different value in its place.)
pub proof fn lemma_pipeline_idempotent(a: AlbumView)
    requires
        forall|i: int|
            0 <= i < resolved(a).tracks.len() ==> {
                let t = (#[trigger] resolved(a).tracks[i]).0;
                &&& (t.disc_name is Some && t.disc_name == t.album) ==> t.disc_name == resolved(
                    a,
                ).disc_name
                &&& (t.album_artist is Some && t.album_artist == t.artist) ==> t.album_artist
                    == resolved(a).artist
            },
    ensures
        normalized_album(resolved(normalized_album(resolved(a)))) == normalized_album(resolved(a)),
{
    let d = derived(a);
    let r = resolved(a);
    let b = normalized_album(r);
    let ts = a.tracks;
    let bs = b.tracks;
    assert(bs.len() == ts.len());
    assert forall|i: int| 0 <= i < bs.len() implies #[trigger] bs[i] == (
        normalized(backfilled(ts[i].0, d)),
        ts[i].1,
    ) by {
        assert(r.tracks[i] == (backfilled(ts[i].0, d), ts[i].1));
    }
    // Every album field that stays absent was absent on every track, and
    // stays so on the tracks of `b`.
    lemma_first_text_none(ts, TextField::Cdindex);
    lemma_first_text_none(bs, TextField::Cdindex);
    lemma_first_text_none(ts, TextField::AlbumArtist);
    lemma_first_text_none(bs, TextField::AlbumArtist);
    lemma_first_text_none(ts, TextField::Artist);
    lemma_first_text_none(bs, TextField::Artist);
    lemma_first_text_none(ts, TextField::DiscName);
    lemma_first_text_none(bs, TextField::DiscName);
    lemma_first_text_none(ts, TextField::Album);
    lemma_first_text_none(bs, TextField::Album);
    lemma_first_text_none(ts, TextField::Genre);
    lemma_first_text_none(bs, TextField::Genre);
    lemma_first_cddb_none(ts);
    lemma_first_cddb_none(bs);
    lemma_first_disc_none(ts);
    lemma_first_disc_none(bs);
    lemma_max_date_none(ts);
    lemma_max_date_none(bs);
    if d.cdindex is None {
        assert forall|i: int| 0 <= i < bs.len() implies #[trigger] text_of(bs[i].0, TextField::Cdindex) is None by {
            assert(text_of(ts[i].0, TextField::Cdindex) is None);
        }
    }
    if d.artist is None {
        assert forall|i: int| 0 <= i < bs.len() implies #[trigger] text_of(bs[i].0, TextField::AlbumArtist) is None by {
            assert(text_of(ts[i].0, TextField::AlbumArtist) is None);
        }
        assert forall|i: int| 0 <= i < bs.len() implies #[trigger] text_of(bs[i].0, TextField::Artist) is None by {
            assert(text_of(ts[i].0, TextField::Artist) is None);
        }
    }
    if d.disc_name is None {
        assert forall|i: int| 0 <= i < bs.len() implies #[trigger] text_of(bs[i].0, TextField::DiscName) is None by {
            assert(text_of(ts[i].0, TextField::DiscName) is None);
        }
    }
    if d.album_title is None {
        assert forall|i: int| 0 <= i < bs.len() implies #[trigger] text_of(bs[i].0, TextField::Album) is None by {
            assert(text_of(ts[i].0, TextField::Album) is None);
        }
    }
    if d.genre is None {
        assert forall|i: int| 0 <= i < bs.len() implies #[trigger] text_of(bs[i].0, TextField::Genre) is None by {
            assert(text_of(ts[i].0, TextField::Genre) is None);
        }
    }
    if d.cddb is None {
        assert forall|i: int| 0 <= i < bs.len() implies (#[trigger] bs[i].0).cddb is None by {
            assert(ts[i].0.cddb is None);
        }
    }
    if d.disc is None {
        assert forall|i: int| 0 <= i < bs.len() implies (#[trigger] bs[i].0).disc is None by {
            assert(ts[i].0.disc is None);
        }
    }
    if d.date is None {
        assert forall|i: int| 0 <= i < bs.len() implies (#[trigger] bs[i].0).date is None by {
            assert(ts[i].0.date is None);
        }
    }
    let db = derived(b);
    assert(db == (AlbumView { tracks: bs, ..d }));
    assert(b == (AlbumView { tracks: bs, ..d }));
    let c = resolved(b);
    assert forall|i: int| 0 <= i < bs.len() implies #[trigger] normalized_album(c).tracks[i] == bs[i] by {
        let t1 = bs[i].0;
        assert(c.tracks[i] == (backfilled(t1, db), bs[i].1));
        assert(r.tracks[i].0 == backfilled(ts[i].0, d));
    }
    assert(normalized_album(c).tracks =~= bs);
}

/// The album date that derivation picks from the tracks is their latest
/// date: no track has a later one, and some track has exactly it; it is
/// absent only where no track has a date.
pub proof fn lemma_max_date_is_latest(ts: Seq<(TrackView, PathBuf)>)
    ensures
        match max_date(ts) {
            None => forall|i: int| 0 <= i < ts.len() ==> (#[trigger] ts[i].0).date is None,
            Some(m) => (forall|i: int|
                0 <= i < ts.len() && (#[trigger] ts[i].0).date is Some ==> date_le(
                    ts[i].0.date->0,
                    m,
                )) && exists|i: int| 0 <= i < ts.len() && (#[trigger] ts[i].0).date == Some(m),
        },
    decreases ts.len(),
{
    lemma_max_date_none(ts);
    if ts.len() > 0 {
        let d = ts.drop_last();
        lemma_max_date_is_latest(d);
        assert forall|i: int| 0 <= i < ts.len() - 1 implies d[i] == ts[i] by {}
        let last = ts.len() - 1;
        match max_date(ts) {
            None => {},
            Some(m) => {
                match max_date(d) {
                    None => {
                        assert(ts[last].0.date == Some(m));
                    },
                    Some(p) => {
                        let j = choose|j: int| 0 <= j < d.len() && (#[trigger] d[j].0).date == Some(p);
                        assert(ts[j] == d[j]);
                    },
                }
            },
        }
    }
}

/// A disc blob's checksum wins: where the blob `m` declares the checksum
/// `c`, the album that results from applying it to any album `a` and
/// resolving has checksum `c`, whatever its tracks declare.
pub proof fn lemma_blob_checksum_wins(a: AlbumView, m: Map<Seq<char>, Seq<char>>, c: u32)
    requires
        blob_cddb(m) == Some(Some(c)),
    ensures
        resolved(with_blob(a, m)).cddb == Some(c),
{
}

/// Resolution is a fixpoint: deriving the album fields and back-filling
/// the tracks of an album that resolution produced changes nothing, for
/// every album `a`.
pub proof fn lemma_resolve_idempotent(a: AlbumView)
    ensures
        resolved(resolved(a)) == resolved(a),
{
    let d = derived(a);
    let r = resolved(a);
    let ts = a.tracks;
    let rs = r.tracks;
    assert forall|i: int| 0 <= i < rs.len() implies #[trigger] rs[i] == (
        backfilled(ts[i].0, d),
        ts[i].1,
    ) by {}
    lemma_first_text_none(ts, TextField::Cdindex);
    lemma_first_text_none(rs, TextField::Cdindex);
    lemma_first_text_none(ts, TextField::AlbumArtist);
    lemma_first_text_none(rs, TextField::AlbumArtist);
    lemma_first_text_none(ts, TextField::Artist);
    lemma_first_text_none(rs, TextField::Artist);
    lemma_first_text_none(ts, TextField::DiscName);
    lemma_first_text_none(rs, TextField::DiscName);
    lemma_first_text_none(ts, TextField::Album);
    lemma_first_text_none(rs, TextField::Album);
    lemma_first_text_none(ts, TextField::Genre);
    lemma_first_text_none(rs, TextField::Genre);
    lemma_first_cddb_none(ts);
    lemma_first_cddb_none(rs);
    lemma_first_disc_none(ts);
    lemma_first_disc_none(rs);
    lemma_max_date_none(ts);
    lemma_max_date_none(rs);
    if d.cdindex is None {
        assert forall|i: int| 0 <= i < rs.len() implies #[trigger] text_of(rs[i].0, TextField::Cdindex) is None by {
            assert(text_of(ts[i].0, TextField::Cdindex) is None);
        }
    }
    if d.artist is None {
        assert forall|i: int| 0 <= i < rs.len() implies #[trigger] text_of(rs[i].0, TextField::AlbumArtist) is None by {
            assert(text_of(ts[i].0, TextField::AlbumArtist) is None);
        }
        assert forall|i: int| 0 <= i < rs.len() implies #[trigger] text_of(rs[i].0, TextField::Artist) is None by {
            assert(text_of(ts[i].0, TextField::Artist) is None);
        }
    }
    if d.disc_name is None {
        assert forall|i: int| 0 <= i < rs.len() implies #[trigger] text_of(rs[i].0, TextField::DiscName) is None by {
            assert(text_of(ts[i].0, TextField::DiscName) is None);
        }
    }
    if d.album_title is None {
        assert forall|i: int| 0 <= i < rs.len() implies #[trigger] text_of(rs[i].0, TextField::Album) is None by {
            assert(text_of(ts[i].0, TextField::Album) is None);
        }
    }
    if d.genre is None {
        assert forall|i: int| 0 <= i < rs.len() implies #[trigger] text_of(rs[i].0, TextField::Genre) is None by {
            assert(text_of(ts[i].0, TextField::Genre) is None);
        }
    }
    if d.cddb is None {
        assert forall|i: int| 0 <= i < rs.len() implies (#[trigger] rs[i].0).cddb is None by {
            assert(ts[i].0.cddb is None);
        }
    }
    if d.disc is None {
        assert forall|i: int| 0 <= i < rs.len() implies (#[trigger] rs[i].0).disc is None by {
            assert(ts[i].0.disc is None);
        }
    }
    if d.date is None {
        assert forall|i: int| 0 <= i < rs.len() implies (#[trigger] rs[i].0).date is None by {
            assert(ts[i].0.date is None);
        }
    }
    let dr = derived(r);
    assert(dr == r);
    assert(resolved(r).tracks =~= rs);
}

proof fn lemma_date_le_antisymmetric(a: Date, b: Date)
    requires
        date_le(a, b),
        date_le(b, a),
    ensures
        a == b,
{
}

proof fn lemma_in_other(s: Seq<(TrackView, PathBuf)>, t: Seq<(TrackView, PathBuf)>, i: int) -> (j: int)
    requires
        s.to_multiset() == t.to_multiset(),
        0 <= i < s.len(),
    ensures
        0 <= j < t.len(),
        t[j] == s[i],
{
    to_multiset_contains(s, s[i]);
    to_multiset_contains(t, s[i]);
    assert(s.contains(s[i]));
    choose|j: int| 0 <= j < t.len() && t[j] == s[i]
}

/// The latest track date does not depend on the order of the tracks: any
/// two orders `s` and `t` of the same tracks give the same one.
pub proof fn lemma_max_date_order_free(s: Seq<(TrackView, PathBuf)>, t: Seq<(TrackView, PathBuf)>)
    requires
        s.to_multiset() == t.to_multiset(),
    ensures
        max_date(s) == max_date(t),
{
    lemma_max_date_is_latest(s);
    lemma_max_date_is_latest(t);
    match (max_date(s), max_date(t)) {
        (Some(m1), Some(m2)) => {
            let i = choose|i: int| 0 <= i < s.len() && (#[trigger] s[i].0).date == Some(m1);
            let j = lemma_in_other(s, t, i);
            let k = choose|k: int| 0 <= k < t.len() && (#[trigger] t[k].0).date == Some(m2);
            let l = lemma_in_other(t, s, k);
            assert(date_le(m1, m2));
            assert(date_le(m2, m1));
            lemma_date_le_antisymmetric(m1, m2);
        },
        (Some(m1), None) => {
            let i = choose|i: int| 0 <= i < s.len() && (#[trigger] s[i].0).date == Some(m1);
            let j = lemma_in_other(s, t, i);
            assert(t[j].0.date is None);
        },
        (None, Some(m2)) => {
            let k = choose|k: int| 0 <= k < t.len() && (#[trigger] t[k].0).date == Some(m2);
            let l = lemma_in_other(t, s, k);
            assert(s[l].0.date is None);
        },
        (None, None) => {},
    }
}

} // verus!
