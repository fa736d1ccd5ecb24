//! A cache of preview images, kept by a handler and, in case the handler loses them, in files.

use crate::digest::{cache_filename, image_name};
use crate::memory::{MemoryCacheHandler, MemoryConfig};
use crate::recency::within_address_space;
use crate::text::ends_with;
use vstd::prelude::*;

verus! {

/// For how many seconds the handler is to keep an image: ten years.
pub const OG_TTL_SECS: u64 = 315_360_000;

/// Where the images are kept in production.
pub const PRODUCTION_DIR: &'static str = "/tmp/rari-og-cache";

/// The directory of the images. `P` is the type of the project's path.
#[derive(Debug)]
pub enum CacheDir<P> {
    /// This one.
    Fixed(&'static str),
    /// The one that these names lead to from the project's own, one after another.
    Under(P, [&'static str; 2]),
}

impl<P> CacheDir<P> {
    /// Whether this is the directory to use for a project, given what the environment says of
    /// where the program runs: a fixed one in production, else one in the project.
    pub open spec fn suits(self, project_path: P, node_env: Option<&str>) -> bool {
        let in_production = node_env matches Some(place) && place@ == "production"@;
        match self {
            CacheDir::Fixed(path) => in_production && path@ == PRODUCTION_DIR@,
            CacheDir::Under(base, names) => !in_production && base == project_path && names[0]@
                == ".cache"@ && names[1]@ == "og"@,
        }
    }
}

/// The directory of the images: a fixed one in production, else one in the project. `node_env` is
/// what the environment says of where the program runs.
pub fn resolve_cache_dir<P>(project_path: P, node_env: Option<&str>) -> (dir: CacheDir<P>)
    ensures
        dir.suits(project_path, node_env),
        dir is Fixed <==> (node_env matches Some(place) && place@ == "production"@),
        dir matches CacheDir::Under(base, _) ==> base == project_path,
{
    let is_production = match node_env {
        Some(place) => place.to_owned() == "production".to_owned(),
        None => false,
    };
    if is_production {
        CacheDir::Fixed(PRODUCTION_DIR)
    } else {
        CacheDir::Under(project_path, [".cache", "og"])
    }
}

/// A cache of preview images. `H` is the type of its handler, `P` that of the project's path.
#[derive(Debug)]
pub struct OgImageCache<H, P> {
    /// The handler that keeps the images at hand.
    pub handler: H,
    /// The directory of the files.
    pub cache_dir: CacheDir<P>,
}

impl<P> OgImageCache<MemoryCacheHandler, P> {
    /// A cache that keeps up to `memory_capacity` images in memory, and at least one.
    pub fn new(memory_capacity: usize, project_path: P, node_env: Option<&str>) -> (cache: Self)
        requires
            within_address_space(memory_capacity as nat),
        ensures
            cache.handler.wf(),
            cache.handler.started_by_clock(),
            cache.handler@.entries.is_empty(),
            cache.handler@.max_entries == if memory_capacity == 0 {
                1
            } else {
                memory_capacity as nat
            },
            cache.cache_dir.suits(project_path, node_env),
    {
        let max_entries: usize = if memory_capacity == 0 {
            1
        } else {
            memory_capacity
        };
        let handler = MemoryCacheHandler::with_config(MemoryConfig { max_entries, default_ttl: 0 });
        OgImageCache::with_handler(handler, project_path, node_env)
    }
}

/// What is asked of the cache. `T` is the type of texts, `B` that of bytes.
pub enum ImageRequest<T, B> {
    /// The image for a key.
    Get { key: T },
    /// That an image be kept for a key.
    Insert { key: T, value: B },
    /// That the image for a key be dropped.
    Remove { key: T },
    /// That every image be dropped.
    Clear,
}

/// What is to be done next.
pub enum ImageAction<T, B> {
    /// Ask the handler for what it has under a key.
    AskHandler(T),
    /// Have the handler store something.
    StoreInHandler { key: T, value: B, ttl_secs: u64 },
    /// Have the handler drop a key.
    DropFromHandler(T),
    /// Have the handler drop everything.
    ClearHandler,
    /// Make the directory of the files, and those that it lies in.
    CreateDir,
    /// Read the file of this name in the directory.
    ReadFile(T),
    /// Write the file of this name in the directory.
    WriteFile(T, B),
    /// Remove the file of this name from the directory.
    RemoveFile(T),
    /// Begin to walk the directory.
    ListDir,
    /// Take the next entry of the directory.
    NextEntry,
    /// Remove the entry that was taken last.
    RemoveEntry,
    /// Nothing more: the request has ended, with an image if one was found.
    Finish(Option<B>),
}

/// What came of an action.
pub enum ImageEvent<T, B> {
    /// It was done.
    Done,
    /// Bytes were found or read.
    Bytes(B),
    /// There is nothing there, or the walk is over.
    Nothing,
    /// The walk came to an entry of this name.
    Entry(T),
    /// It failed.
    Failed,
}

/// How far a request has come: which action it waits for.
pub enum ImageState<B> {
    /// The handler's answer.
    Asking,
    /// The file.
    Reading,
    /// That the handler stores what was read.
    StoringRead(B),
    /// The directory.
    MakingDir,
    /// The file that is written.
    Writing,
    /// That the handler stores what is inserted.
    Storing,
    /// That the handler drops the key; it had this under it.
    Dropping(Option<B>),
    /// That the file is removed; the handler had this under its key.
    RemovingFile(Option<B>),
    /// That the handler drops everything.
    Clearing,
    /// The walk.
    Listing,
    /// The next entry.
    Walking,
    /// That the entry is removed.
    RemovingEntry,
    /// Nothing.
    Over,
}

/// A request under way.
pub struct ImageRun<T, B> {
    /// What is asked.
    pub request: ImageRequest<T, B>,
    /// How far the request has come.
    pub state: ImageState<B>,
}

/// What is asked of the cache.
pub type OgRequest = ImageRequest<String, Vec<u8>>;

/// What is to be done next.
pub type OgAction = ImageAction<String, Vec<u8>>;

/// What came of an action.
pub type OgEvent = ImageEvent<String, Vec<u8>>;

/// A request under way.
pub type OgRun = ImageRun<String, Vec<u8>>;

/// What is asked, as the contracts see it.
pub type RequestView = ImageRequest<Seq<char>, Seq<u8>>;

/// What is to be done next, as the contracts see it.
pub type ActionView = ImageAction<Seq<char>, Seq<u8>>;

/// What came of an action, as the contracts see it.
pub type EventView = ImageEvent<Seq<char>, Seq<u8>>;

/// How far a request has come, as the contracts see it.
pub type StateView = ImageState<Seq<u8>>;

/// A request under way, as the contracts see it.
pub type RunView = ImageRun<Seq<char>, Seq<u8>>;

/// Bytes that may be there, as the contracts see them.
pub open spec fn bytes_view(bytes: Option<Vec<u8>>) -> Option<Seq<u8>> {
    match bytes {
        Some(bytes) => Some(bytes@),
        None => None,
    }
}

impl View for OgRequest {
    type V = RequestView;

    open spec fn view(&self) -> RequestView {
        match self {
            ImageRequest::Get { key } => ImageRequest::Get { key: key@ },
            ImageRequest::Insert { key, value } => ImageRequest::Insert {
                key: key@,
                value: value@,
            },
            ImageRequest::Remove { key } => ImageRequest::Remove { key: key@ },
            ImageRequest::Clear => ImageRequest::Clear,
        }
    }
}

impl View for OgAction {
    type V = ActionView;

    open spec fn view(&self) -> ActionView {
        match self {
            ImageAction::AskHandler(key) => ImageAction::AskHandler(key@),
            ImageAction::StoreInHandler { key, value, ttl_secs } => ImageAction::StoreInHandler {
                key: key@,
                value: value@,
                ttl_secs: *ttl_secs,
            },
            ImageAction::DropFromHandler(key) => ImageAction::DropFromHandler(key@),
            ImageAction::ClearHandler => ImageAction::ClearHandler,
            ImageAction::CreateDir => ImageAction::CreateDir,
            ImageAction::ReadFile(name) => ImageAction::ReadFile(name@),
            ImageAction::WriteFile(name, value) => ImageAction::WriteFile(name@, value@),
            ImageAction::RemoveFile(name) => ImageAction::RemoveFile(name@),
            ImageAction::ListDir => ImageAction::ListDir,
            ImageAction::NextEntry => ImageAction::NextEntry,
            ImageAction::RemoveEntry => ImageAction::RemoveEntry,
            ImageAction::Finish(found) => ImageAction::Finish(bytes_view(*found)),
        }
    }
}

impl View for OgEvent {
    type V = EventView;

    open spec fn view(&self) -> EventView {
        match self {
            ImageEvent::Done => ImageEvent::Done,
            ImageEvent::Bytes(bytes) => ImageEvent::Bytes(bytes@),
            ImageEvent::Nothing => ImageEvent::Nothing,
            ImageEvent::Entry(name) => ImageEvent::Entry(name@),
            ImageEvent::Failed => ImageEvent::Failed,
        }
    }
}

impl View for ImageState<Vec<u8>> {
    type V = StateView;

    open spec fn view(&self) -> StateView {
        match self {
            ImageState::Asking => ImageState::Asking,
            ImageState::Reading => ImageState::Reading,
            ImageState::StoringRead(bytes) => ImageState::StoringRead(bytes@),
            ImageState::MakingDir => ImageState::MakingDir,
            ImageState::Writing => ImageState::Writing,
            ImageState::Storing => ImageState::Storing,
            ImageState::Dropping(found) => ImageState::Dropping(bytes_view(*found)),
            ImageState::RemovingFile(found) => ImageState::RemovingFile(bytes_view(*found)),
            ImageState::Clearing => ImageState::Clearing,
            ImageState::Listing => ImageState::Listing,
            ImageState::Walking => ImageState::Walking,
            ImageState::RemovingEntry => ImageState::RemovingEntry,
            ImageState::Over => ImageState::Over,
        }
    }
}

impl View for OgRun {
    type V = RunView;

    open spec fn view(&self) -> RunView {
        ImageRun { request: self.request@, state: self.state@ }
    }
}

/// Whether a file of this name holds an image: its extension says so. A name that is nothing but
/// an extension has none.
pub open spec fn is_image(name: Seq<char>) -> bool {
    ".webp"@.is_suffix_of(name) && name.len() > 5
}

/// Whether a file of this name holds an image.
fn names_image(name: &str) -> (image: bool)
    ensures
        image == is_image(name@),
{
    ends_with(name, ".webp") && name.unicode_len() > 5
}

impl RequestView {
    /// The key that a request is about; none in the case of all.
    pub open spec fn key(self) -> Seq<char> {
        match self {
            ImageRequest::Get { key } => key,
            ImageRequest::Insert { key, .. } => key,
            ImageRequest::Remove { key } => key,
            ImageRequest::Clear => Seq::empty(),
        }
    }

    /// The image that is to be kept; none where nothing is.
    pub open spec fn value(self) -> Seq<u8> {
        match self {
            ImageRequest::Insert { value, .. } => value,
            _ => Seq::empty(),
        }
    }

    /// The first step.
    pub open spec fn first(self) -> (StateView, ActionView) {
        match self {
            ImageRequest::Get { key } => (ImageState::Asking, ImageAction::AskHandler(key)),
            ImageRequest::Insert { .. } => (ImageState::MakingDir, ImageAction::CreateDir),
            ImageRequest::Remove { key } => (ImageState::Asking, ImageAction::AskHandler(key)),
            ImageRequest::Clear => (ImageState::Clearing, ImageAction::ClearHandler),
        }
    }
}

/// The last step, with an image if one was found.
pub open spec fn finished(found: Option<Seq<u8>>) -> (StateView, ActionView) {
    (ImageState::Over, ImageAction::Finish(found))
}

impl RunView {
    /// The step that follows what came of the last one. A failure stops a walk and nothing else:
    /// what fails is passed over.
    pub open spec fn next(self, event: EventView) -> (StateView, ActionView) {
        let key = self.request.key();
        match (self.state, event) {
            (ImageState::Asking, _) => {
                let found = match event {
                    ImageEvent::Bytes(bytes) => Some(bytes),
                    _ => None,
                };
                if self.request is Remove {
                    (ImageState::Dropping(found), ImageAction::DropFromHandler(key))
                } else if found is Some {
                    finished(found)
                } else {
                    (ImageState::Reading, ImageAction::ReadFile(image_name(key)))
                }
            },
            (ImageState::Reading, ImageEvent::Bytes(bytes)) => (
                ImageState::StoringRead(bytes),
                ImageAction::StoreInHandler { key, value: bytes, ttl_secs: OG_TTL_SECS },
            ),
            (ImageState::Reading, _) => finished(None),
            (ImageState::StoringRead(bytes), _) => finished(Some(bytes)),
            (ImageState::MakingDir, _) => (
                ImageState::Writing,
                ImageAction::WriteFile(image_name(key), self.request.value()),
            ),
            (ImageState::Writing, _) => (
                ImageState::Storing,
                ImageAction::StoreInHandler {
                    key,
                    value: self.request.value(),
                    ttl_secs: OG_TTL_SECS,
                },
            ),
            (ImageState::Storing, _) => finished(None),
            (ImageState::Dropping(found), _) => (
                ImageState::RemovingFile(found),
                ImageAction::RemoveFile(image_name(key)),
            ),
            (ImageState::RemovingFile(found), _) => finished(found),
            (ImageState::Clearing, _) => (ImageState::Listing, ImageAction::ListDir),
            (ImageState::Listing, ImageEvent::Failed) => finished(None),
            (ImageState::Listing, _) => (ImageState::Walking, ImageAction::NextEntry),
            (ImageState::Walking, ImageEvent::Entry(name)) => if is_image(name) {
                (ImageState::RemovingEntry, ImageAction::RemoveEntry)
            } else {
                (ImageState::Walking, ImageAction::NextEntry)
            },
            (ImageState::Walking, _) => finished(None),
            (ImageState::RemovingEntry, _) => (ImageState::Walking, ImageAction::NextEntry),
            (ImageState::Over, _) => finished(None),
        }
    }
}

impl<H, P> OgImageCache<H, P> {
    /// A cache around a handler.
    pub fn with_handler(handler: H, project_path: P, node_env: Option<&str>) -> (cache: Self)
        ensures
            cache.handler == handler,
            cache.cache_dir.suits(project_path, node_env),
    {
        let cache_dir = resolve_cache_dir(project_path, node_env);
        OgImageCache { handler, cache_dir }
    }

    /// Asks for the image for `key`: the request, and its first action.
    pub fn get(&self, key: &str) -> (started: (OgRun, OgAction))
        ensures
            started.0@.request == (RequestView::Get { key: key@ }),
            (started.0@.state, started.1@) == started.0@.request.first(),
    {
        let key = key.to_owned();
        let action = ImageAction::AskHandler(key.clone());
        (ImageRun { request: ImageRequest::Get { key }, state: ImageState::Asking }, action)
    }

    /// Asks that `value` be kept for `key`: the request, and its first action.
    pub fn insert(&self, key: String, value: Vec<u8>) -> (started: (OgRun, OgAction))
        ensures
            started.0@.request == (RequestView::Insert { key: key@, value: value@ }),
            (started.0@.state, started.1@) == started.0@.request.first(),
    {
        (
            ImageRun {
                request: ImageRequest::Insert { key, value },
                state: ImageState::MakingDir,
            },
            ImageAction::CreateDir,
        )
    }

    /// Asks that the image for `key` be dropped: the request, and its first action.
    pub fn remove(&self, key: &str) -> (started: (OgRun, OgAction))
        ensures
            started.0@.request == (RequestView::Remove { key: key@ }),
            (started.0@.state, started.1@) == started.0@.request.first(),
    {
        let key = key.to_owned();
        let action = ImageAction::AskHandler(key.clone());
        (ImageRun { request: ImageRequest::Remove { key }, state: ImageState::Asking }, action)
    }

    /// Asks that every image be dropped: the request, and its first action.
    pub fn clear(&self) -> (started: (OgRun, OgAction))
        ensures
            started.0@.request == RequestView::Clear,
            (started.0@.state, started.1@) == started.0@.request.first(),
    {
        (
            ImageRun { request: ImageRequest::Clear, state: ImageState::Clearing },
            ImageAction::ClearHandler,
        )
    }
}

impl OgRequest {
    /// The key that a request is about.
    fn about(&self) -> (key: String)
        ensures
            key@ == self@.key(),
    {
        match self {
            ImageRequest::Get { key } => key.clone(),
            ImageRequest::Insert { key, .. } => key.clone(),
            ImageRequest::Remove { key } => key.clone(),
            ImageRequest::Clear => {
                let none = String::new();
                assert(none@ =~= Seq::empty());
                none
            },
        }
    }

    /// The image that is to be kept.
    fn image(&self) -> (value: Vec<u8>)
        ensures
            value@ == self@.value(),
    {
        match self {
            ImageRequest::Insert { value, .. } => value.clone(),
            _ => Vec::new(),
        }
    }
}

impl OgRun {
    /// Takes in what came of the last action: the request as it then stands, and its next action.
    pub fn step(self, event: OgEvent) -> (next: (OgRun, OgAction))
        ensures
            next.0@.request == self@.request,
            (next.0@.state, next.1@) == self@.next(event@),
    {
        let ImageRun { request, state } = self;
        let (state, action) = match (state, event) {
            (ImageState::Asking, event) => {
                let found = match event {
                    ImageEvent::Bytes(bytes) => Some(bytes),
                    _ => None,
                };
                match (&request, found) {
                    (ImageRequest::Remove { key }, found) => (
                        ImageState::Dropping(found),
                        ImageAction::DropFromHandler(key.clone()),
                    ),
                    (_, Some(bytes)) => (ImageState::Over, ImageAction::Finish(Some(bytes))),
                    (_, None) => (
                        ImageState::Reading,
                        ImageAction::ReadFile(cache_filename(request.about().as_str())),
                    ),
                }
            },
            (ImageState::Reading, ImageEvent::Bytes(bytes)) => {
                let value = bytes.clone();
                (
                    ImageState::StoringRead(bytes),
                    ImageAction::StoreInHandler {
                        key: request.about(),
                        value,
                        ttl_secs: OG_TTL_SECS,
                    },
                )
            },
            (ImageState::Reading, _) => (ImageState::Over, ImageAction::Finish(None)),
            (ImageState::StoringRead(bytes), _) => (
                ImageState::Over,
                ImageAction::Finish(Some(bytes)),
            ),
            (ImageState::MakingDir, _) => (
                ImageState::Writing,
                ImageAction::WriteFile(cache_filename(request.about().as_str()), request.image()),
            ),
            (ImageState::Writing, _) => (
                ImageState::Storing,
                ImageAction::StoreInHandler {
                    key: request.about(),
                    value: request.image(),
                    ttl_secs: OG_TTL_SECS,
                },
            ),
            (ImageState::Storing, _) => (ImageState::Over, ImageAction::Finish(None)),
            (ImageState::Dropping(found), _) => (
                ImageState::RemovingFile(found),
                ImageAction::RemoveFile(cache_filename(request.about().as_str())),
            ),
            (ImageState::RemovingFile(found), _) => (ImageState::Over, ImageAction::Finish(found)),
            (ImageState::Clearing, _) => (ImageState::Listing, ImageAction::ListDir),
            (ImageState::Listing, ImageEvent::Failed) => (
                ImageState::Over,
                ImageAction::Finish(None),
            ),
            (ImageState::Listing, _) => (ImageState::Walking, ImageAction::NextEntry),
            (ImageState::Walking, ImageEvent::Entry(name)) => {
                if names_image(name.as_str()) {
                    (ImageState::RemovingEntry, ImageAction::RemoveEntry)
                } else {
                    (ImageState::Walking, ImageAction::NextEntry)
                }
            },
            (ImageState::Walking, _) => (ImageState::Over, ImageAction::Finish(None)),
            (ImageState::RemovingEntry, _) => (ImageState::Walking, ImageAction::NextEntry),
            (ImageState::Over, _) => (ImageState::Over, ImageAction::Finish(None)),
        };
        (ImageRun { request, state }, action)
    }
}

} // verus!
