//! Libraries of media as the catalog's users configure them, and their
//! stored forms.
use crate::text::{join, joined, pieces, split, views};
use vstd::prelude::*;

verus! {

/// Type of media that a library contains.
#[derive(Debug, Clone, Copy, PartialEq, Eq, Structural, Hash)]
pub enum LibraryKind {
    /// The library contains images.
    Image,
    /// The library contains music tracks.
    Music,
}

impl LibraryKind {
    /// The stored code of the kind.
    pub open spec fn spec_code(self) -> u8 {
        match self {
            LibraryKind::Image => 0,
            LibraryKind::Music => 1,
        }
    }

    /// The file extensions of the kind.
    pub open spec fn spec_extensions(self) -> Seq<Seq<char>> {
        match self {
            LibraryKind::Image => seq!["jpg"@, "jpeg"@, "png"@],
            LibraryKind::Music => seq!["mp3"@],
        }
    }

    /// Get the file extensions supported by the library type.
    pub fn extensions(&self) -> (r: &'static [&'static str])
        ensures
            r@.map_values(|s: &str| s@) == self.spec_extensions(),
    {
        match self {
            LibraryKind::Image => {
                let r: &'static [&'static str] = &["jpg", "jpeg", "png"];
                assert(r@.map_values(|s: &str| s@) =~= self.spec_extensions());
                r
            },
            LibraryKind::Music => {
                let r: &'static [&'static str] = &["mp3"];
                assert(r@.map_values(|s: &str| s@) =~= self.spec_extensions());
                r
            },
        }
    }

    /// Whether a file with extension `ext` belongs in a library of this kind.
    pub fn accepts_extension(&self, ext: &str) -> (r: bool)
        ensures
            r == self.spec_extensions().contains(ext@),
    {
        let exts = self.extensions();
        let n = exts.len();
        let mut i: usize = 0;
        while i < n
            invariant
                n == exts@.len(),
                i <= n,
                exts@.map_values(|s: &str| s@) == self.spec_extensions(),
                forall|k: int| 0 <= k < i ==> #[trigger] exts@[k]@ != ext@,
            decreases n - i,
        {
            if crate::media::str_equal(exts[i], ext) {
                assert(self.spec_extensions()[i as int] == ext@);
                return true;
            }
            i = i + 1;
        }
        assert forall|k: int| 0 <= k < self.spec_extensions().len() implies #[trigger] self.spec_extensions()[k]
            != ext@ by {
            assert(self.spec_extensions()[k] == exts@[k]@);
        }
        false
    }

    /// The stored code of the kind.
    pub fn code(&self) -> (r: u8)
        ensures
            r == self.spec_code(),
    {
        match self {
            LibraryKind::Image => 0,
            LibraryKind::Music => 1,
        }
    }

    /// The kind stored under `code`, if any.
    pub fn from_code(code: u8) -> (r: Result<LibraryKind, u8>)
        ensures
            r matches Ok(k) ==> k.spec_code() == code,
            r is Err <==> code > 1,
            r matches Err(c) ==> c == code,
    {
        if code == 0 {
            Ok(LibraryKind::Image)
        } else if code == 1 {
            Ok(LibraryKind::Music)
        } else {
            Err(code)
        }
    }
}

/// Configuration of a library.
#[derive(Debug, Clone)]
pub struct RawLibraryConfig {
    /// Displayed name.
    pub name: String,
    /// Library type.
    pub kind: LibraryKind,
    /// Paths used as the library's roots.
    pub paths: Vec<String>,
}

/// [`RawLibraryConfig`] with its identifier in the catalog.
#[derive(Debug, Clone)]
pub struct LibraryConfig {
    /// Identifier in the catalog.
    pub id: u64,
    /// Displayed name.
    pub name: String,
    /// Library type.
    pub kind: LibraryKind,
    /// Paths used as the library's roots.
    pub paths: Vec<String>,
}

/// Partial information about a library.
#[derive(Debug, Clone)]
pub struct PartialLibrary {
    /// Identifier in the catalog.
    pub id: u64,
    /// Displayed name.
    pub name: String,
    /// Library type.
    pub kind: LibraryKind,
}

/// Stored form of [`RawLibraryConfig`].
#[derive(Debug, Clone)]
pub struct DbRawLibraryConfig {
    /// See [`RawLibraryConfig::name`].
    pub name: String,
    /// Code of [`RawLibraryConfig::kind`].
    pub kind: i64,
    /// [`RawLibraryConfig::paths`], joined.
    pub paths: String,
}

/// Stored form of [`LibraryConfig`].
#[derive(Debug, Clone)]
pub struct DbLibraryConfig {
    /// See [`LibraryConfig::id`].
    pub id: i64,
    /// See [`LibraryConfig::name`].
    pub name: String,
    /// Code of [`LibraryConfig::kind`].
    pub kind: i64,
    /// [`LibraryConfig::paths`], joined.
    pub paths: String,
}

/// Stored form of [`PartialLibrary`].
#[derive(Debug, Clone)]
pub struct DbPartialLibrary {
    /// See [`PartialLibrary::id`].
    pub id: i64,
    /// See [`PartialLibrary::name`].
    pub name: String,
    /// Code of [`PartialLibrary::kind`].
    pub kind: i64,
}

impl RawLibraryConfig {
    /// Drops the identifier of a configuration.
    pub fn from_config(config: LibraryConfig) -> (r: RawLibraryConfig)
        ensures
            r.name@ == config.name@,
            r.kind == config.kind,
            views(r.paths@) == views(config.paths@),
    {
        RawLibraryConfig { name: config.name, kind: config.kind, paths: config.paths }
    }

    /// Reads a stored configuration.
    ///
    /// # Errors
    /// Fails with the code when the stored kind, cut to a byte, is no kind.
    pub fn try_from_db(db: DbRawLibraryConfig) -> (r: Result<RawLibraryConfig, u8>)
        ensures
            r is Err <==> (db.kind as u8) > 1,
            r matches Ok(c) ==> c.name@ == db.name@ && c.kind.spec_code() == db.kind as u8
                && views(c.paths@) == pieces(db.paths@, ':'),
            r matches Err(c) ==> c == db.kind as u8,
    {
        let kind = LibraryKind::from_code(db.kind as u8)?;
        let paths = DbRawLibraryConfig::split_paths(db.paths);
        Ok(RawLibraryConfig { name: db.name, kind, paths })
    }
}

impl PartialLibrary {
    /// Drops the paths of a configuration.
    pub fn from_config(config: LibraryConfig) -> (r: PartialLibrary)
        ensures
            r.id == config.id,
            r.name@ == config.name@,
            r.kind == config.kind,
    {
        PartialLibrary { id: config.id, name: config.name, kind: config.kind }
    }

    /// Reads a stored partial library.
    ///
    /// # Errors
    /// Fails with the code when the stored kind, cut to a byte, is no kind.
    pub fn try_from_db(db: DbPartialLibrary) -> (r: Result<PartialLibrary, u8>)
        ensures
            r is Err <==> (db.kind as u8) > 1,
            r matches Ok(c) ==> c.id == db.id as u64 && c.name@ == db.name@ && c.kind.spec_code()
                == db.kind as u8,
    {
        let kind = LibraryKind::from_code(db.kind as u8)?;
        Ok(PartialLibrary { id: db.id as u64, name: db.name, kind })
    }
}

impl LibraryConfig {
    /// Reads a stored configuration.
    ///
    /// # Errors
    /// Fails with the code when the stored kind, cut to a byte, is no kind.
    pub fn try_from_db(db: DbLibraryConfig) -> (r: Result<LibraryConfig, u8>)
        ensures
            r is Err <==> (db.kind as u8) > 1,
            r matches Ok(c) ==> c.id == db.id as u64 && c.name@ == db.name@ && c.kind.spec_code()
                == db.kind as u8 && views(c.paths@) == pieces(db.paths@, ':'),
    {
        let kind = LibraryKind::from_code(db.kind as u8)?;
        let paths = DbRawLibraryConfig::split_paths(db.paths);
        Ok(LibraryConfig { id: db.id as u64, name: db.name, kind, paths })
    }
}

impl DbRawLibraryConfig {
    /// Joins paths into one text, separated by `:`.
    ///
    /// This function is the inverse of [`Self::split_paths`].
    pub fn join_paths(paths: Vec<String>) -> (r: String)
        ensures
            r@ == joined(views(paths@), ":"@),
    {
        join(&paths, ":")
    }

    /// Splits a text into paths at each `:`.
    ///
    /// This function is the inverse of [`Self::join_paths`].
    pub fn split_paths(paths: String) -> (r: Vec<String>)
        ensures
            views(r@) == pieces(paths@, ':'),
    {
        split(paths.as_str(), ':')
    }

    /// Stores a configuration.
    pub fn from_raw(config: RawLibraryConfig) -> (r: DbRawLibraryConfig)
        ensures
            r.name@ == config.name@,
            r.kind == config.kind.spec_code() as i64,
            r.paths@ == joined(views(config.paths@), ":"@),
    {
        let kind = config.kind.code() as i64;
        DbRawLibraryConfig { name: config.name, kind, paths: Self::join_paths(config.paths) }
    }

    /// Drops the identifier of a stored configuration.
    pub fn from_db_config(db: DbLibraryConfig) -> (r: DbRawLibraryConfig)
        ensures
            r.name@ == db.name@,
            r.kind == db.kind,
            r.paths@ == db.paths@,
    {
        DbRawLibraryConfig { name: db.name, kind: db.kind, paths: db.paths }
    }
}

impl DbLibraryConfig {
    /// Stores a configuration.
    pub fn from_config(config: LibraryConfig) -> (r: DbLibraryConfig)
        ensures
            r.id == config.id as i64,
            r.name@ == config.name@,
            r.kind == config.kind.spec_code() as i64,
            r.paths@ == joined(views(config.paths@), ":"@),
    {
        let kind = config.kind.code() as i64;
        DbLibraryConfig {
            id: config.id as i64,
            name: config.name,
            kind,
            paths: DbRawLibraryConfig::join_paths(config.paths),
        }
    }
}

impl DbPartialLibrary {
    /// Stores a partial library.
    pub fn from_partial(lib: PartialLibrary) -> (r: DbPartialLibrary)
        ensures
            r.id == lib.id as i64,
            r.name@ == lib.name@,
            r.kind == lib.kind.spec_code() as i64,
    {
        let kind = lib.kind.code() as i64;
        DbPartialLibrary { id: lib.id as i64, name: lib.name, kind }
    }

    /// Drops the paths of a stored configuration.
    pub fn from_db_config(db: DbLibraryConfig) -> (r: DbPartialLibrary)
        ensures
            r.id == db.id,
            r.name@ == db.name@,
            r.kind == db.kind,
    {
        DbPartialLibrary { id: db.id, name: db.name, kind: db.kind }
    }
}

/// Common functions of media entries.
pub trait Media {
    /// Title of the entry.
    spec fn spec_title(&self) -> Seq<char>;

    /// Get the media's title.
    fn title(&self) -> (r: &str)
        ensures
            r@ == self.spec_title(),
    ;
}

/// Image entry.
#[derive(Debug, Clone)]
pub struct MediaImage {
    /// Identifier in the catalog.
    pub id: u64,
    /// Image title.
    pub title: String,
}

impl Media for MediaImage {
    open spec fn spec_title(&self) -> Seq<char> {
        self.title@
    }

    fn title(&self) -> (r: &str) {
        self.title.as_str()
    }
}

/// Music track entry.
#[derive(Debug, Clone)]
pub struct MediaMusic {
    /// Identifier in the catalog.
    pub id: u64,
    /// Track title.
    pub title: String,
    /// Track artist.
    pub artist: Option<String>,
    /// Track album.
    pub album: Option<String>,
    /// Track number.
    pub track: Option<u16>,
}

impl Media for MediaMusic {
    open spec fn spec_title(&self) -> Seq<char> {
        self.title@
    }

    fn title(&self) -> (r: &str) {
        self.title.as_str()
    }
}

/// Full data of a library: its partial information and its media.
#[derive(Debug, Clone)]
pub struct Library<M: Media> {
    /// Identifier in the catalog.
    pub id: u64,
    /// Displayed name.
    pub name: String,
    /// Library type.
    pub kind: LibraryKind,
    /// Media contained in the library.
    pub media: Vec<M>,
}

impl<M: Media> Library<M> {
    /// Construct a new instance from a [`PartialLibrary`] and its media.
    pub fn new(lib: PartialLibrary, media: Vec<M>) -> (r: Library<M>)
        ensures
            r.id == lib.id,
            r.name@ == lib.name@,
            r.kind == lib.kind,
            r.media@ == media@,
    {
        Library { id: lib.id, name: lib.name, kind: lib.kind, media }
    }
}

/// Stored form of [`MediaImage`].
#[derive(Debug, Clone)]
pub struct DbMediaImage {
    /// See [`MediaImage::id`].
    pub id: i64,
    /// See [`MediaImage::title`].
    pub title: String,
}

/// Stored form of [`MediaMusic`].
#[derive(Debug, Clone)]
pub struct DbMediaMusic {
    /// See [`MediaMusic::id`].
    pub id: i64,
    /// See [`MediaMusic::title`].
    pub title: String,
    /// See [`MediaMusic::artist`].
    pub artist: Option<String>,
    /// See [`MediaMusic::album`].
    pub album: Option<String>,
    /// See [`MediaMusic::track`].
    pub track: Option<i64>,
}

impl DbMediaImage {
    /// Stores an image entry.
    pub fn from_media(media: MediaImage) -> (r: DbMediaImage)
        ensures
            r.id == media.id as i64,
            r.title@ == media.title@,
    {
        DbMediaImage { id: media.id as i64, title: media.title }
    }
}

impl MediaImage {
    /// Reads a stored image entry.
    pub fn from_db(db: DbMediaImage) -> (r: MediaImage)
        ensures
            r.id == db.id as u64,
            r.title@ == db.title@,
    {
        MediaImage { id: db.id as u64, title: db.title }
    }
}

impl DbMediaMusic {
    /// Stores a music track entry.
    pub fn from_media(media: MediaMusic) -> (r: DbMediaMusic)
        ensures
            r.id == media.id as i64,
            r.title@ == media.title@,
            r.artist == media.artist,
            r.album == media.album,
            r.track == (match media.track {
                Some(n) => Some(n as i64),
                None => None,
            }),
    {
        let track = match media.track {
            Some(n) => Some(n as i64),
            None => None,
        };
        DbMediaMusic {
            id: media.id as i64,
            title: media.title,
            artist: media.artist,
            album: media.album,
            track,
        }
    }
}

impl MediaMusic {
    /// Reads a stored music track entry; the track number is cut to 16 bits.
    pub fn from_db(db: DbMediaMusic) -> (r: MediaMusic)
        ensures
            r.id == db.id as u64,
            r.title@ == db.title@,
            r.artist == db.artist,
            r.album == db.album,
            r.track == (match db.track {
                Some(n) => Some(n as u16),
                None => None,
            }),
    {
        let track = match db.track {
            Some(n) => Some(n as u16),
            None => None,
        };
        MediaMusic { id: db.id as u64, title: db.title, artist: db.artist, album: db.album, track }
    }
}

/// Storing a configuration and reading it back gives it back, when it has at
/// least one path and no path holds `:`.
pub proof fn lemma_config_round_trip(config: RawLibraryConfig)
    requires
        config.paths@.len() >= 1,
        forall|i: int|
            0 <= i < config.paths@.len() ==> crate::text::free_of(
                #[trigger] config.paths@[i]@,
                ':',
            ),
    ensures
        pieces(joined(views(config.paths@), ":"@), ':') == views(config.paths@),
        ((config.kind.spec_code() as i64) as u8) == config.kind.spec_code(),
{
    assert(":"@ =~= seq![':']) by {
        reveal_strlit(":");
    }
    assert forall|i: int| 0 <= i < views(config.paths@).len() implies crate::text::free_of(
        #[trigger] views(config.paths@)[i],
        ':',
    ) by {
        assert(views(config.paths@)[i] == config.paths@[i]@);
    }
    crate::text::lemma_split_joined(views(config.paths@), ':');
}

} // verus!
