//! Playlists as the downloader sees them: what `m3u8_rs` reads from the
//! fetched bytes, reduced to the addresses and key descriptors that the
//! phases work on, and the choice of the media playlist to download.

use crate::address::{join_url, url_join};
use crate::key::KeyDescriptor;
use crate::types::{DownloadError, DownloadInfoContext};
use vstd::prelude::*;

verus! {

/// One entry of a media playlist.
#[derive(Debug)]
pub struct MediaSegment {
    pub uri: String,
    pub key: Option<KeyDescriptor>,
}

/// A playlist: a master playlist by the addresses of its variants, or a
/// media playlist by its segments.
#[derive(Debug)]
pub enum Playlist {
    MasterPlaylist(Vec<String>),
    MediaPlaylist(Vec<MediaSegment>),
}

/// A key descriptor as a value of the model.
pub struct KeyDescriptorView {
    pub method: Seq<char>,
    pub uri: Option<Seq<char>>,
    pub iv: Option<Seq<char>>,
}

/// A segment as a value of the model.
pub struct MediaSegmentView {
    pub uri: Seq<char>,
    pub key: Option<KeyDescriptorView>,
}

/// A playlist as a value of the model.
pub enum PlaylistView {
    MasterPlaylist(Seq<Seq<char>>),
    MediaPlaylist(Seq<MediaSegmentView>),
}

/// The text of an optional string.
pub open spec fn text_view(t: Option<String>) -> Option<Seq<char>> {
    match t {
        Some(s) => Some(s@),
        None => None,
    }
}

impl View for KeyDescriptor {
    type V = KeyDescriptorView;

    open spec fn view(&self) -> KeyDescriptorView {
        KeyDescriptorView { method: self.method@, uri: text_view(self.uri), iv: text_view(self.iv) }
    }
}

impl View for MediaSegment {
    type V = MediaSegmentView;

    open spec fn view(&self) -> MediaSegmentView {
        MediaSegmentView {
            uri: self.uri@,
            key: match self.key {
                Some(k) => Some(k@),
                None => None,
            },
        }
    }
}

/// The segments of a list as values of the model.
pub open spec fn segments_view(list: Seq<MediaSegment>) -> Seq<MediaSegmentView> {
    list.map_values(|s: MediaSegment| s@)
}

impl View for Playlist {
    type V = PlaylistView;

    open spec fn view(&self) -> PlaylistView {
        match self {
            Playlist::MasterPlaylist(v) => PlaylistView::MasterPlaylist(
                v@.map_values(|s: String| s@),
            ),
            Playlist::MediaPlaylist(v) => PlaylistView::MediaPlaylist(segments_view(v@)),
        }
    }
}

/// The playlist that `m3u8_rs::parse_playlist_res` reads from the given
/// bytes, or `None` where it reads none.
pub uninterp spec fn playlist_of(content: Seq<u8>) -> Option<PlaylistView>;

/// Calls `m3u8_rs::parse_playlist_res` and keeps, of a master playlist, the
/// address of each variant and, of a media playlist, the address of each
/// segment with the key descriptor attached to it (method by its playlist
/// name, key address, initialisation vector).
#[verifier::external_body]
pub(crate) fn read_playlist(content: &[u8]) -> (r: Option<Playlist>)
    ensures
        r is Some == playlist_of(content@) is Some,
        r is Some ==> r->0@ == playlist_of(content@)->0,
{
    match m3u8_rs::parse_playlist_res(content) {
        Ok(m3u8_rs::Playlist::MasterPlaylist(m)) => Some(
            Playlist::MasterPlaylist(m.variants.into_iter().map(|v| v.uri).collect()),
        ),
        Ok(m3u8_rs::Playlist::MediaPlaylist(m)) => Some(
            Playlist::MediaPlaylist(m.segments.into_iter().map(|s| MediaSegment {
                uri: s.uri,
                key: s.key.map(|k| KeyDescriptor { method: k.method.to_string(), uri: k.uri, iv: k.iv }),
            }).collect()),
        ),
        Err(_) => None,
    }
}

/// What the first fetched document leads to.
#[derive(Debug)]
pub enum PlaylistStep {
    /// It is the media playlist: these are its segments.
    Segments(Vec<MediaSegment>),
    /// It is a master playlist: its first variant is to be fetched from
    /// this address.
    FetchVariant(String),
}

/// What the first document leads to, given the playlist read from it: a
/// media playlist is taken as it is; of a master playlist the first variant
/// is followed.
pub open spec fn first_step(url: Seq<char>, doc: Option<PlaylistView>) -> Result<
    Option<Seq<char>>,
    DownloadError,
> {
    match doc {
        None => Err(DownloadError::PlaylistNotFound),
        Some(PlaylistView::MediaPlaylist(_)) => Ok(None),
        Some(PlaylistView::MasterPlaylist(variants)) => if variants.len() == 0 {
            Err(DownloadError::NoVariant)
        } else {
            match url_join(url, variants[0]) {
                None => Err(DownloadError::BadUrl),
                Some(u) => Ok(Some(u)),
            }
        },
    }
}

/// Decides what the first document leads to. When a variant is followed,
/// the context's address becomes the variant's.
pub fn resolve_playlist(ctx: &mut DownloadInfoContext, doc: Option<Playlist>) -> (r: Result<
    PlaylistStep,
    DownloadError,
>)
    ensures
        match (r, first_step(old(ctx).url@, doc_view(doc))) {
            (Ok(PlaylistStep::Segments(s)), Ok(None)) => {
                &&& doc matches Some(Playlist::MediaPlaylist(list))
                &&& s == list
                &&& *final(ctx) == *old(ctx)
            },
            (Ok(PlaylistStep::FetchVariant(u)), Ok(Some(v))) => {
                &&& u@ == v
                &&& final(ctx).url@ == v
                &&& *final(ctx) == (DownloadInfoContext { url: final(ctx).url, ..*old(ctx) })
            },
            (Err(e), Err(f)) => e == f && *final(ctx) == *old(ctx),
            _ => false,
        },
{
    match doc {
        None => Err(DownloadError::PlaylistNotFound),
        Some(Playlist::MediaPlaylist(list)) => Ok(PlaylistStep::Segments(list)),
        Some(Playlist::MasterPlaylist(variants)) => {
            if variants.len() == 0 {
                return Err(DownloadError::NoVariant);
            }
            match join_url(ctx.url.as_str(), variants[0].as_str()) {
                None => Err(DownloadError::BadUrl),
                Some(u) => {
                    ctx.url = u.clone();
                    Ok(PlaylistStep::FetchVariant(u))
                },
            }
        },
    }
}

/// The playlist of an optional document as a value of the model.
pub open spec fn doc_view(doc: Option<Playlist>) -> Option<PlaylistView> {
    match doc {
        Some(p) => Some(p@),
        None => None,
    }
}

/// Reads the first fetched document and decides what it leads to.
pub fn parse_m3u8(ctx: &mut DownloadInfoContext, content: &[u8]) -> (r: Result<
    PlaylistStep,
    DownloadError,
>)
    ensures
        match (r, first_step(old(ctx).url@, playlist_of(content@))) {
            (Ok(PlaylistStep::Segments(s)), Ok(None)) => {
                &&& playlist_of(content@) == Some(PlaylistView::MediaPlaylist(segments_view(s@)))
                &&& *final(ctx) == *old(ctx)
            },
            (Ok(PlaylistStep::FetchVariant(u)), Ok(Some(v))) => {
                &&& u@ == v
                &&& final(ctx).url@ == v
                &&& *final(ctx) == (DownloadInfoContext { url: final(ctx).url, ..*old(ctx) })
            },
            (Err(e), Err(f)) => e == f && *final(ctx) == *old(ctx),
            _ => false,
        },
{
    let doc = read_playlist(content);
    resolve_playlist(ctx, doc)
}

/// What the document fetched for a variant leads to: its segments, where
/// it is a media playlist. One level of indirection is followed and no more.
pub open spec fn variant_step(doc: Option<PlaylistView>) -> Result<
    Seq<MediaSegmentView>,
    DownloadError,
> {
    match doc {
        None => Err(DownloadError::PlaylistNotFound),
        Some(PlaylistView::MasterPlaylist(_)) => Err(DownloadError::NestedMaster),
        Some(PlaylistView::MediaPlaylist(s)) => Ok(s),
    }
}

/// Takes the segments of a variant's playlist; a variant that is itself a
/// master playlist is refused.
pub fn resolve_variant(doc: Option<Playlist>) -> (r: Result<Vec<MediaSegment>, DownloadError>)
    ensures
        match (r, variant_step(doc_view(doc))) {
            (Ok(s), Ok(v)) => segments_view(s@) == v && doc == Some(Playlist::MediaPlaylist(s)),
            (Err(e), Err(f)) => e == f,
            _ => false,
        },
{
    match doc {
        None => Err(DownloadError::PlaylistNotFound),
        Some(Playlist::MasterPlaylist(_)) => Err(DownloadError::NestedMaster),
        Some(Playlist::MediaPlaylist(list)) => Ok(list),
    }
}

/// Reads the document fetched for a variant.
pub fn parse_variant(content: &[u8]) -> (r: Result<Vec<MediaSegment>, DownloadError>)
    ensures
        match (r, variant_step(playlist_of(content@))) {
            (Ok(s), Ok(v)) => segments_view(s@) == v,
            (Err(e), Err(f)) => e == f,
            _ => false,
        },
{
    resolve_variant(read_playlist(content))
}

} // verus!
