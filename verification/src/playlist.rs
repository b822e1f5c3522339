//! Getting hold of the playlist text: from the cache while it is fresh, else
//! from the network, in a bounded number of transfers.
//!
//! The engine decides; its caller reads the cache, performs the transfers and
//! reports how each one ended.

use crate::error::CatalogError;
use crate::MAX_TRIES;
use std::ops::Deref;
use std::path::PathBuf;
use std::rc::Rc;
use vstd::prelude::*;
use vstd::utf8::{decode_utf8, valid_utf8};

verus! {

/// For how many seconds a cached playlist stays fresh: three days.
pub const FRESHNESS_WINDOW_SECS: u64 = 259200;

/// What the caller does next.
#[derive(Clone, Copy, Debug, PartialEq, Eq, Structural)]
pub enum Next {
    /// Transfer the playlist once, and report how the transfer ended.
    Fetch,
    /// The playlist is at hand; it came from the cache.
    Cached,
    /// The playlist is at hand; it was fetched. Store it in the cache, and do
    /// not mind if that fails.
    Fetched,
    /// The playlist cannot be had.
    Failed(CatalogError),
}

/// The playlist text and the state of getting it.
pub struct Playlist {
    /// The text as it was last read or fetched.
    pub content: String,
    /// Where the text is cached.
    pub path_to_playlist: Rc<PathBuf>,
    /// From where the text is fetched; `None` where there is no network.
    pub url: Option<Rc<String>>,
    /// How many transfers have failed since the last download began.
    pub failures: u8,
}

/// What a `Playlist` holds, as mathematical values.
pub ghost struct PlaylistState {
    pub content: Seq<char>,
    pub online: bool,
    pub failures: nat,
}

impl View for Playlist {
    type V = PlaylistState;

    open spec fn view(&self) -> PlaylistState {
        PlaylistState {
            content: self.content@,
            online: self.url is Some,
            failures: self.failures as nat,
        }
    }
}

/// Whether a cached playlist of the given age must be fetched again. An age
/// that could not be determined counts as too old.
pub open spec fn stale(age_secs: Option<u64>) -> bool {
    match age_secs {
        Some(age) => age > FRESHNESS_WINDOW_SECS,
        None => true,
    }
}

/// What the cache gives: its text if the text could be read and is fresh.
pub open spec fn usable<T>(age_secs: Option<u64>, saved: Option<T>) -> Option<T> {
    if stale(age_secs) {
        None
    } else {
        saved
    }
}

/// The text that a transfer brought, if it ended well and brought valid UTF-8.
pub open spec fn fetched_text(outcome: Result<Vec<u8>, CatalogError>) -> Option<Seq<char>> {
    match outcome {
        Ok(bytes) => if valid_utf8(bytes@) {
            Some(decode_utf8(bytes@))
        } else {
            None
        },
        Err(_) => None,
    }
}

/// The state at the beginning of a download, and what to do first.
pub open spec fn begin(state: PlaylistState) -> (PlaylistState, Next) {
    if state.online {
        (PlaylistState { failures: 0, ..state }, Next::Fetch)
    } else {
        (state, Next::Failed(CatalogError::UnsupportedInOfflineMode))
    }
}

/// The state after one transfer, and what to do next. `text` is what the
/// transfer brought, if it brought a text.
pub open spec fn after(state: PlaylistState, text: Option<Seq<char>>) -> (PlaylistState, Next) {
    if !state.online {
        (state, Next::Failed(CatalogError::UnsupportedInOfflineMode))
    } else if state.failures >= MAX_TRIES {
        (state, Next::Failed(CatalogError::Exhausted))
    } else {
        match text {
            Some(content) => (PlaylistState { content, ..state }, Next::Fetched),
            None => (
                PlaylistState { failures: state.failures + 1, ..state },
                if state.failures + 1 >= MAX_TRIES {
                    Next::Failed(CatalogError::Exhausted)
                } else {
                    Next::Fetch
                },
            ),
        }
    }
}

/// The text that `bytes` encode, if they are valid UTF-8.
///
/// Trusted: the body calls `String::from_utf8`, which fails exactly on bytes
/// that are not valid UTF-8 and otherwise hands the bytes back as a `String`.
#[verifier::external_body]
fn text_of_bytes(bytes: Vec<u8>) -> (r: Option<String>)
    ensures
        match r {
            Some(text) => valid_utf8(bytes@) && text@ == decode_utf8(bytes@),
            None => !valid_utf8(bytes@),
        },
{
    String::from_utf8(bytes).ok()
}

impl Playlist {
    /// A playlist that is cached at `path_to_playlist` and fetched from `url`,
    /// with no text yet.
    pub fn new(path_to_playlist: Rc<PathBuf>, url: Rc<String>) -> (r: Self)
        ensures
            r@ == (PlaylistState { content: Seq::empty(), online: true, failures: 0 }),
            r.path_to_playlist == path_to_playlist,
            r.url == Some(url),
    {
        Self { content: String::new(), path_to_playlist, url: Some(url), failures: 0 }
    }

    /// Whether a cached playlist of the given age must be fetched again.
    /// `None` stands for an age that could not be determined: a missing file,
    /// unreadable metadata, a clock that went backwards.
    pub fn should_update(age_secs: Option<u64>) -> (r: bool)
        ensures
            r == stale(age_secs),
    {
        match age_secs {
            Some(age) => age > FRESHNESS_WINDOW_SECS,
            None => true,
        }
    }

    /// The cached text, if it is fresh. `saved` is what the cache holds, if it
    /// could be read.
    pub fn get_saved(age_secs: Option<u64>, saved: Option<String>) -> (r: Option<String>)
        ensures
            r == usable(age_secs, saved),
    {
        if Self::should_update(age_secs) {
            None
        } else {
            saved
        }
    }

    /// Takes the text from the cache if it is fresh, and begins a download if
    /// not.
    pub fn get_saved_or_download(&mut self, age_secs: Option<u64>, saved: Option<String>) -> (next:
        Next)
        ensures
            final(self).path_to_playlist == old(self).path_to_playlist,
            final(self).url == old(self).url,
            match usable(age_secs, saved) {
                Some(content) => next == Next::Cached && final(self)@ == (PlaylistState {
                    content: content@,
                    ..old(self)@
                }),
                None => (final(self)@, next) == begin(old(self)@),
            },
    {
        match Self::get_saved(age_secs, saved) {
            Some(content) => {
                self.content = content;
                Next::Cached
            },
            None => self.download(),
        }
    }

    /// Begins a download: the first transfer is due, and none has failed yet.
    /// Without a place to fetch from there is nothing to download.
    pub fn download(&mut self) -> (next: Next)
        ensures
            final(self).path_to_playlist == old(self).path_to_playlist,
            final(self).url == old(self).url,
            (final(self)@, next) == begin(old(self)@),
            next != Next::Fetch ==> *final(self) == *old(self),
    {
        if self.url.is_none() {
            return Next::Failed(CatalogError::UnsupportedInOfflineMode);
        }
        self.failures = 0;
        Next::Fetch
    }

    /// Takes in how a transfer ended. A transfer that brought a text ends the
    /// download. One that failed, or brought bytes that are no text, is tried
    /// again until `MAX_TRIES` transfers have failed; then the download has
    /// failed, and the text stays as it was.
    pub fn fetched(&mut self, outcome: Result<Vec<u8>, CatalogError>) -> (next: Next)
        ensures
            final(self).path_to_playlist == old(self).path_to_playlist,
            final(self).url == old(self).url,
            (final(self)@, next) == after(old(self)@, fetched_text(outcome)),
            !old(self)@.online || old(self)@.failures >= MAX_TRIES ==> *final(self) == *old(self),
            next != Next::Fetched ==> final(self).content == old(self).content,
    {
        if self.url.is_none() {
            return Next::Failed(CatalogError::UnsupportedInOfflineMode);
        }
        if self.failures >= MAX_TRIES {
            return Next::Failed(CatalogError::Exhausted);
        }
        let text = match outcome {
            Ok(bytes) => text_of_bytes(bytes),
            Err(_) => None,
        };
        match text {
            Some(content) => {
                self.content = content;
                Next::Fetched
            },
            None => {
                self.failures = self.failures + 1;
                if self.failures >= MAX_TRIES {
                    Next::Failed(CatalogError::Exhausted)
                } else {
                    Next::Fetch
                }
            },
        }
    }
}

impl Deref for Playlist {
    type Target = String;

    fn deref(&self) -> (r: &String)
        ensures
            *r == self.content,
    {
        &self.content
    }
}

/// What becomes of a download whose transfers bring what `texts` tells, one
/// after another: the state and the verdict when the download has ended, or
/// when `texts` has run out, and the number of transfers that were made.
pub open spec fn run(state: PlaylistState, texts: Seq<Option<Seq<char>>>) -> (
    PlaylistState,
    Next,
    nat,
)
    decreases texts.len(),
{
    if texts.len() == 0 {
        (state, Next::Fetch, 0)
    } else {
        let (then, next) = after(state, texts[0]);
        if next == Next::Fetch {
            let (end, verdict, made) = run(then, texts.drop_first());
            (end, verdict, made + 1)
        } else {
            (then, next, 1)
        }
    }
}

/// A download in which `k` transfers fail and the next one brings a text.
proof fn lemma_fails_then_succeeds(state: PlaylistState, texts: Seq<Option<Seq<char>>>, k: nat)
    requires
        state.online,
        state.failures < MAX_TRIES,
        k < texts.len(),
        forall|i: int| 0 <= i < k ==> texts[i] is None,
        texts[k as int] is Some,
    ensures
        state.failures + k < MAX_TRIES ==> run(state, texts) == (
            PlaylistState {
                content: texts[k as int].unwrap(),
                failures: state.failures + k,
                ..state
            },
            Next::Fetched,
            k + 1,
        ),
        state.failures + k >= MAX_TRIES ==> run(state, texts) == (
            PlaylistState { failures: MAX_TRIES as nat, ..state },
            Next::Failed(CatalogError::Exhausted),
            (MAX_TRIES - state.failures) as nat,
        ),
    decreases k,
{
    if k > 0 {
        let (then, next) = after(state, texts[0]);
        if next == Next::Fetch {
            let rest = texts.drop_first();
            assert(forall|i: int| 0 <= i < k - 1 ==> rest[i] == texts[i + 1]);
            lemma_fails_then_succeeds(then, rest, (k - 1) as nat);
        }
    }
}

/// A download in which every transfer fails.
proof fn lemma_always_fails(state: PlaylistState, texts: Seq<Option<Seq<char>>>)
    requires
        state.online,
        state.failures < MAX_TRIES,
        texts.len() >= MAX_TRIES - state.failures,
        forall|i: int| 0 <= i < texts.len() ==> texts[i] is None,
    ensures
        run(state, texts) == (
            PlaylistState { failures: MAX_TRIES as nat, ..state },
            Next::Failed(CatalogError::Exhausted),
            (MAX_TRIES - state.failures) as nat,
        ),
    decreases texts.len(),
{
    let (then, next) = after(state, texts[0]);
    if next == Next::Fetch {
        let rest = texts.drop_first();
        assert(forall|i: int| 0 <= i < rest.len() ==> rest[i] == texts[i + 1]);
        lemma_always_fails(then, rest);
    }
}

/// The retry ceiling, for transfers that fail and then succeed. Where the
/// first `k` transfers of a download fail and the next one brings a text, the
/// download succeeds exactly if `k` is less than `MAX_TRIES`. It has then made
/// `k + 1` transfers and holds the text that the last one brought. Otherwise
/// it fails as exhausted after `MAX_TRIES` transfers and keeps the text it had.
pub proof fn law_fails_then_succeeds(state: PlaylistState, texts: Seq<Option<Seq<char>>>, k: nat)
    requires
        state.online,
        k < texts.len(),
        forall|i: int| 0 <= i < k ==> texts[i] is None,
        texts[k as int] is Some,
    ensures
        run(begin(state).0, texts).1 == Next::Fetched <==> k < MAX_TRIES,
        k < MAX_TRIES ==> run(begin(state).0, texts).2 == k + 1 && run(
            begin(state).0,
            texts,
        ).0.content == texts[k as int].unwrap(),
        k >= MAX_TRIES ==> run(begin(state).0, texts).1 == Next::Failed(CatalogError::Exhausted) && run(
            begin(state).0,
            texts,
        ).2 == MAX_TRIES && run(begin(state).0, texts).0.content == state.content,
{
    lemma_fails_then_succeeds(begin(state).0, texts, k);
}

/// The retry ceiling, for transfers that all fail: the download fails as
/// exhausted after exactly `MAX_TRIES` transfers, and keeps the text it had.
pub proof fn law_always_fails(state: PlaylistState, texts: Seq<Option<Seq<char>>>)
    requires
        state.online,
        texts.len() >= MAX_TRIES,
        forall|i: int| 0 <= i < texts.len() ==> texts[i] is None,
    ensures
        run(begin(state).0, texts).1 == Next::Failed(CatalogError::Exhausted),
        run(begin(state).0, texts).2 == MAX_TRIES,
        run(begin(state).0, texts).0.content == state.content,
{
    lemma_always_fails(begin(state).0, texts);
}

} // verus!
