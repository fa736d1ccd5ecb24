//! What whole requests do to the handler and the files of an image cache.

use crate::digest::{
    hash_of, image_name, law_names_differ_with_hashes, law_names_stay_in_the_directory,
};
use crate::og_cache::{
    is_image, ActionView, CacheDir, EventView, ImageAction, ImageEvent, ImageRequest, ImageRun,
    ImageState, OgAction, OgEvent, OgRequest, OgRun, RequestView, RunView,
};
use vstd::prelude::*;

verus! {

/// A handler and a directory, as the actions on them see them.
pub struct World {
    /// What the handler has; none where it fails at everything.
    pub handler: Option<Map<Seq<char>, Seq<u8>>>,
    /// The files; none where the disk fails at everything.
    pub files: Option<Map<Seq<char>, Seq<u8>>>,
    /// Whether the directory of the files has been made: without it none can be written or listed.
    pub made: bool,
    /// The names that the walk of the directory has yet to come to.
    pub ahead: Seq<Seq<char>>,
    /// The name that the walk came to last.
    pub at: Seq<char>,
}

/// What is looked up in a map.
pub open spec fn bytes_at(map: Map<Seq<char>, Seq<u8>>, key: Seq<char>) -> EventView {
    if map.contains_key(key) {
        ImageEvent::Bytes(map[key])
    } else {
        ImageEvent::Nothing
    }
}

impl World {
    /// What an action does, and what comes of it. `listing` is the order in which the directory is
    /// walked.
    pub open spec fn perform(self, action: ActionView, listing: Seq<Seq<char>>) -> (
        World,
        EventView,
    ) {
        match (action, self.handler, self.files) {
            (ImageAction::AskHandler(key), Some(held), _) => (self, bytes_at(held, key)),
            (ImageAction::StoreInHandler { key, value, .. }, Some(held), _) => (
                World { handler: Some(held.insert(key, value)), ..self },
                ImageEvent::Done,
            ),
            (ImageAction::DropFromHandler(key), Some(held), _) => (
                World { handler: Some(held.remove(key)), ..self },
                ImageEvent::Done,
            ),
            (ImageAction::ClearHandler, Some(held), _) => (
                World { handler: Some(Map::empty()), ..self },
                ImageEvent::Done,
            ),
            (ImageAction::CreateDir, _, Some(_)) => (World { made: true, ..self }, ImageEvent::Done),
            (ImageAction::ReadFile(name), _, Some(files)) => (self, bytes_at(files, name)),
            (ImageAction::WriteFile(name, value), _, Some(files)) => if self.made {
                (World { files: Some(files.insert(name, value)), ..self }, ImageEvent::Done)
            } else {
                (self, ImageEvent::Failed)
            },
            (ImageAction::RemoveFile(name), _, Some(files)) => (
                World { files: Some(files.remove(name)), ..self },
                ImageEvent::Done,
            ),
            (ImageAction::ListDir, _, Some(_)) => if self.made {
                (World { ahead: listing, ..self }, ImageEvent::Done)
            } else {
                (self, ImageEvent::Failed)
            },
            (ImageAction::NextEntry, _, Some(_)) => if self.ahead.len() > 0 {
                (
                    World { ahead: self.ahead.drop_first(), at: self.ahead.first(), ..self },
                    ImageEvent::Entry(self.ahead.first()),
                )
            } else {
                (self, ImageEvent::Nothing)
            },
            (ImageAction::RemoveEntry, _, Some(files)) => (
                World { files: Some(files.remove(self.at)), ..self },
                ImageEvent::Done,
            ),
            _ => (self, ImageEvent::Failed),
        }
    }

    /// Whether `listing` names every file, and each of them once. There is none without the
    /// directory.
    pub open spec fn listed_by(self, listing: Seq<Seq<char>>) -> bool {
        self.files matches Some(files) ==> listing.no_duplicates() && listing.to_set()
            == files.dom() && (self.made || listing.len() == 0)
    }
}

/// What a request finds, and the world that it leaves, once all its actions have been performed
/// one after another; nothing if that takes more than `fuel` of them.
pub open spec fn drive(
    run: RunView,
    action: ActionView,
    world: World,
    listing: Seq<Seq<char>>,
    fuel: nat,
) -> Option<(Option<Seq<u8>>, World)>
    decreases fuel,
{
    if let ImageAction::Finish(found) = action {
        Some((found, world))
    } else if fuel == 0 {
        None
    } else {
        let (world, event) = world.perform(action, listing);
        let (state, action) = run.next(event);
        drive(ImageRun { state, ..run }, action, world, listing, (fuel - 1) as nat)
    }
}

/// What a whole request finds, and what it leaves in the handler and in the files.
pub open spec fn outcome(request: RequestView, world: World, listing: Seq<Seq<char>>) -> Option<
    (Option<Seq<u8>>, World),
> {
    let (state, action) = request.first();
    drive(ImageRun { request, state }, action, world, listing, 2 * listing.len() + 5)
}

/// Whether the handler has `value` under `key`.
pub open spec fn in_handler(world: World, key: Seq<char>, value: Seq<u8>) -> bool {
    world.handler matches Some(held) && held.contains_key(key) && held[key] == value
}

/// Whether the handler has nothing to offer under `key`.
pub open spec fn not_in_handler(world: World, key: Seq<char>) -> bool {
    world.handler matches Some(held) ==> !held.contains_key(key)
}

/// Whether `value` lies in the file for `key`.
pub open spec fn on_disk(world: World, key: Seq<char>, value: Seq<u8>) -> bool {
    world.files matches Some(files) && files.contains_key(image_name(key))
        && files[image_name(key)] == value
}

/// Whether the files have nothing to offer for `key`.
pub open spec fn not_on_disk(world: World, key: Seq<char>) -> bool {
    world.files matches Some(files) ==> !files.contains_key(image_name(key))
}

/// What the handler has is found there, and nothing changes.
pub proof fn law_get_from_handler(
    key: Seq<char>,
    value: Seq<u8>,
    world: World,
    listing: Seq<Seq<char>>,
)
    requires
        in_handler(world, key, value),
    ensures
        outcome(RequestView::Get { key }, world, listing) == Some((Some(value), world)),
{
    reveal_with_fuel(drive, 2);
}

/// What the handler does not have is found in its file, and the handler has it from then on; the
/// files stay as they are.
pub proof fn law_get_from_file(
    key: Seq<char>,
    value: Seq<u8>,
    world: World,
    listing: Seq<Seq<char>>,
)
    requires
        not_in_handler(world, key),
        on_disk(world, key, value),
    ensures
        outcome(RequestView::Get { key }, world, listing) == Some(
            (
                Some(value),
                World {
                    handler: match world.handler {
                        Some(held) => Some(held.insert(key, value)),
                        None => None,
                    },
                    ..world
                },
            ),
        ),
{
    reveal_with_fuel(drive, 4);
}

/// What is nowhere is not found, and nothing changes.
pub proof fn law_get_nothing(key: Seq<char>, world: World, listing: Seq<Seq<char>>)
    requires
        not_in_handler(world, key),
        not_on_disk(world, key),
    ensures
        outcome(RequestView::Get { key }, world, listing) == Some((None::<Seq<u8>>, world)),
{
    reveal_with_fuel(drive, 3);
}

/// What is inserted is in the handler and in its file, as far as each of them works; every other
/// key of the handler and every other file stays as it is.
pub proof fn law_insert(key: Seq<char>, value: Seq<u8>, world: World, listing: Seq<Seq<char>>)
    ensures
        outcome(RequestView::Insert { key, value }, world, listing) == Some(
            (
                None::<Seq<u8>>,
                World {
                    handler: match world.handler {
                        Some(held) => Some(held.insert(key, value)),
                        None => None,
                    },
                    files: match world.files {
                        Some(files) => Some(files.insert(image_name(key), value)),
                        None => None,
                    },
                    made: world.made || world.files is Some,
                    ..world
                },
            ),
        ),
{
    reveal_with_fuel(drive, 4);
}

/// What has been inserted is found, so long as the handler or the disk works: the handler may
/// have lost it, and anything else, in the meantime.
pub proof fn law_inserted_is_found(
    key: Seq<char>,
    value: Seq<u8>,
    world: World,
    later: World,
    listing: Seq<Seq<char>>,
)
    requires
        outcome(RequestView::Insert { key, value }, world, listing) matches Some((_, left))
            && later.files == left.files && (in_handler(later, key, value) || (not_in_handler(
            later,
            key,
        ) && world.files is Some)),
    ensures
        outcome(RequestView::Get { key }, later, listing) matches Some((found, _)) && found == Some(
            value,
        ),
{
    law_insert(key, value, world, listing);
    if in_handler(later, key, value) {
        law_get_from_handler(key, value, later, listing);
    } else {
        law_get_from_file(key, value, later, listing);
    }
}

/// A later insertion under another key does not make an image be lost, even where the handler
/// keeps one image only, unless the two keys share a hash.
pub proof fn law_insertions_keep_each_other(
    first: Seq<char>,
    image: Seq<u8>,
    second: Seq<char>,
    other: Seq<u8>,
    world: World,
    later: World,
    listing: Seq<Seq<char>>,
)
    requires
        hash_of(first) != hash_of(second),
        on_disk(world, first, image),
        outcome(RequestView::Insert { key: second, value: other }, world, listing) matches Some(
            (_, left),
        ) && later.files == left.files,
        not_in_handler(later, first) || in_handler(later, first, image),
    ensures
        outcome(RequestView::Get { key: first }, later, listing) matches Some((found, _)) && found
            == Some(image),
{
    law_insert(second, other, world, listing);
    law_names_differ_with_hashes(first, second);
    if in_handler(later, first, image) {
        law_get_from_handler(first, image, later, listing);
    } else {
        law_get_from_file(first, image, later, listing);
    }
}

/// What is removed is what the handler had; it is then neither in the handler nor in its file,
/// as far as each of them works, and everything else stays as it is.
pub proof fn law_remove(key: Seq<char>, world: World, listing: Seq<Seq<char>>)
    ensures
        outcome(RequestView::Remove { key }, world, listing) == Some(
            (
                match world.handler {
                    Some(held) => if held.contains_key(key) {
                        Some(held[key])
                    } else {
                        None
                    },
                    None => None,
                },
                World {
                    handler: match world.handler {
                        Some(held) => Some(held.remove(key)),
                        None => None,
                    },
                    files: match world.files {
                        Some(files) => Some(files.remove(image_name(key))),
                        None => None,
                    },
                    ..world
                },
            ),
        ),
{
    reveal_with_fuel(drive, 4);
}

/// What has been removed is not found.
pub proof fn law_removed_is_not_found(key: Seq<char>, world: World, listing: Seq<Seq<char>>)
    ensures
        outcome(RequestView::Remove { key }, world, listing) matches Some((_, left)) && outcome(
            RequestView::Get { key },
            left,
            listing,
        ) == Some((None::<Seq<u8>>, left)),
{
    law_remove(key, world, listing);
    let left = outcome(RequestView::Remove { key }, world, listing).unwrap().1;
    law_get_nothing(key, left, listing);
}

/// The names in a sequence that name images.
pub open spec fn images() -> Set<Seq<char>> {
    Set::new(|name: Seq<char>| is_image(name))
}

/// A walk removes the images that it has yet to come to.
proof fn lemma_walk(run: RunView, world: World, listing: Seq<Seq<char>>, fuel: nat)
    requires
        run.request is Clear,
        run.state is Walking,
        world.files is Some,
        fuel >= 2 * world.ahead.len() + 1,
    ensures
        drive(run, ImageAction::NextEntry, world, listing, fuel) matches Some((found, left))
            && found is None && left.handler == world.handler && left.files == Some(
            world.files.unwrap().remove_keys(images().intersect(world.ahead.to_set())),
        ),
    decreases world.ahead.len(),
{
    let files = world.files.unwrap();
    let gone = images().intersect(world.ahead.to_set());
    if world.ahead.len() == 0 {
        reveal_with_fuel(drive, 2);
        assert(files.remove_keys(gone) =~= files);
    } else {
        reveal_with_fuel(drive, 3);
        let name = world.ahead.first();
        let rest = world.ahead.drop_first();
        let walked = World { ahead: rest, at: name, ..world };
        let left = images().intersect(rest.to_set());
        assert forall|k: Seq<char>| world.ahead.contains(k) <==> k == name || rest.contains(k) by {
            if rest.contains(k) {
                let i = rest.index_of(k);
                assert(world.ahead[i + 1] == k);
            }
            if world.ahead.contains(k) && k != name {
                let i = world.ahead.index_of(k);
                assert(rest[i - 1] == k);
            }
            assert(world.ahead[0] == name);
        }
        if is_image(name) {
            let removed = World { files: Some(files.remove(name)), ..walked };
            lemma_walk(run, removed, listing, (fuel - 2) as nat);
            assert(files.remove(name).remove_keys(left) =~= files.remove_keys(gone));
        } else {
            lemma_walk(run, walked, listing, (fuel - 1) as nat);
            assert(left =~= gone);
        }
    }
}

/// Clearing empties the handler and removes the images from the directory, and no other file.
pub proof fn law_clear(world: World, listing: Seq<Seq<char>>)
    requires
        world.listed_by(listing),
    ensures
        outcome(RequestView::Clear, world, listing) matches Some((found, left)) && found is None
            && left.handler == (match world.handler {
            Some(_) => Some(Map::<Seq<char>, Seq<u8>>::empty()),
            None => None,
        }) && left.files == match world.files {
            Some(files) => Some(files.remove_keys(images())),
            None => None,
        },
{
    reveal_with_fuel(drive, 3);
    if let Some(files) = world.files {
        let run = ImageRun { request: RequestView::Clear, state: ImageState::Walking };
        let cleared = World {
            handler: match world.handler {
                Some(_) => Some(Map::empty()),
                None => None,
            },
            ahead: listing,
            ..world
        };
        if world.made {
            lemma_walk(run, cleared, listing, (2 * listing.len() + 3) as nat);
        } else {
            assert(listing.to_set() =~= Set::empty());
            assert(files.remove_keys(images()) =~= files);
        }
        assert(files.remove_keys(images().intersect(listing.to_set())) =~= files.remove_keys(
            images(),
        ));
    }
}

/// A file holds an image exactly if its name ends in ".webp" and is longer than that.
pub proof fn law_images_are_named_so(name: Seq<char>)
    ensures
        is_image(name) <==> name.len() > 5 && name[name.len() - 5] == '.' && name[name.len() - 4]
            == 'w' && name[name.len() - 3] == 'e' && name[name.len() - 2] == 'b' && name[name.len()
            - 1] == 'p',
{
    reveal_strlit(".webp");
    if name.len() > 5 {
        let end = name.skip(name.len() - 5);
        assert(end.len() == 5);
        if name[name.len() - 5] == '.' && name[name.len() - 4] == 'w' && name[name.len() - 3] == 'e'
            && name[name.len() - 2] == 'b' && name[name.len() - 1] == 'p' {
            assert(".webp"@ =~= name.subrange(name.len() - 5, name.len() as int));
        }
        if is_image(name) {
            assert(".webp"@ =~= name.subrange(name.len() - 5, name.len() as int));
            assert(".webp"@[0] == name[name.len() - 5]);
            assert(".webp"@[1] == name[name.len() - 4]);
            assert(".webp"@[2] == name[name.len() - 3]);
            assert(".webp"@[3] == name[name.len() - 2]);
            assert(".webp"@[4] == name[name.len() - 1]);
        }
    }
}

/// Clearing removes the files whose names end in ".webp" and are longer than that, and leaves every
/// other file byte for byte; the handler has no key then.
pub proof fn law_clear_leaves_other_files(
    world: World,
    listing: Seq<Seq<char>>,
    name: Seq<char>,
    key: Seq<char>,
)
    requires
        world.listed_by(listing),
    ensures
        outcome(RequestView::Clear, world, listing) matches Some((None, left)) && {
            &&& world.files matches Some(files) ==> (left.files matches Some(kept) && {
                let goes = name.len() > 5 && name[name.len() - 5] == '.' && name[name.len() - 4]
                    == 'w' && name[name.len() - 3] == 'e' && name[name.len() - 2] == 'b'
                    && name[name.len() - 1] == 'p';
                &&& kept.contains_key(name) <==> files.contains_key(name) && !goes
                &&& kept.contains_key(name) ==> kept[name] == files[name]
            })
            &&& world.handler is Some ==> (left.handler matches Some(held) && !held.contains_key(key))
        },
{
    law_clear(world, listing);
    law_images_are_named_so(name);
    assert(images().contains(name) <==> is_image(name));
}

/// Whatever is handed to the handler is to be kept for ten years, and is handed over under the key
/// that the request is about.
pub proof fn law_images_are_kept_ten_years(run: RunView, event: EventView)
    ensures
        run.next(event).1 matches ImageAction::StoreInHandler { key, value, ttl_secs } ==> {
            &&& ttl_secs == 60 * 60 * 24 * 365 * 10
            &&& match run.request {
                ImageRequest::Get { key: asked } => key == asked,
                ImageRequest::Insert { key: asked, .. } => key == asked,
                ImageRequest::Remove { key: asked } => key == asked,
                ImageRequest::Clear => true,
            }
        },
{
}

/// A request with what came of its last action.
pub open spec fn went_on(run: RunView, event: EventView) -> RunView {
    ImageRun { state: run.next(event).0, ..run }
}

/// Inserting makes the directory, writes the image to the file of its key and hands it to the
/// handler under its key, whatever comes of each of these.
pub proof fn law_insert_does_everything(
    key: Seq<char>,
    value: Seq<u8>,
    made: EventView,
    written: EventView,
    stored: EventView,
)
    ensures
        ({
            let request = RequestView::Insert { key, value };
            let run = ImageRun { request, state: request.first().0 };
            let run2 = went_on(run, made);
            let run3 = went_on(run2, written);
            &&& request.first().1 is CreateDir
            &&& run.next(made).1 matches ImageAction::WriteFile(name, bytes) && name == image_name(
                key,
            ) && bytes == value
            &&& run2.next(written).1 matches ImageAction::StoreInHandler { key: k, value: v, .. }
                && k == key && v == value
            &&& run3.next(stored).1 matches ImageAction::Finish(None)
        }),
{
}

/// Removing asks the handler first, then has it drop the key and removes the file of the key,
/// whatever comes of each of these, and gives what the handler had.
pub proof fn law_remove_does_everything(
    key: Seq<char>,
    asked: EventView,
    dropped: EventView,
    removed: EventView,
)
    ensures
        ({
            let request = RequestView::Remove { key };
            let run = ImageRun { request, state: request.first().0 };
            let run2 = went_on(run, asked);
            let run3 = went_on(run2, dropped);
            &&& request.first().1 matches ImageAction::AskHandler(k) && k == key
            &&& run.next(asked).1 matches ImageAction::DropFromHandler(k) && k == key
            &&& run2.next(dropped).1 matches ImageAction::RemoveFile(name) && name == image_name(key)
            &&& run3.next(removed).1 matches ImageAction::Finish(found) && match asked {
                ImageEvent::Bytes(bytes) => found == Some(bytes),
                _ => found is None,
            }
        }),
{
}

/// Looking for an image asks the handler first. What it has is given at once, byte for byte; else
/// the file of the key is read, and what it holds is handed to the handler and given, byte for
/// byte, whatever comes of the former.
pub proof fn law_get_asks_handler_then_file(
    key: Seq<char>,
    asked: EventView,
    read: EventView,
    stored: EventView,
)
    ensures
        ({
            let request = RequestView::Get { key };
            let run = ImageRun { request, state: request.first().0 };
            let run2 = went_on(run, asked);
            let run3 = went_on(run2, read);
            &&& request.first().1 matches ImageAction::AskHandler(k) && k == key
            &&& match asked {
                ImageEvent::Bytes(bytes) => run.next(asked).1 matches ImageAction::Finish(
                    Some(found),
                ) && found == bytes,
                _ => {
                    &&& run.next(asked).1 matches ImageAction::ReadFile(name) && name == image_name(
                        key,
                    )
                    &&& match read {
                        ImageEvent::Bytes(bytes) => {
                            &&& run2.next(read).1 matches ImageAction::StoreInHandler {
                                key: k,
                                value: v,
                                ..
                            } && k == key && v == bytes
                            &&& run3.next(stored).1 matches ImageAction::Finish(Some(found))
                                && found == bytes
                        },
                        _ => run2.next(read).1 matches ImageAction::Finish(None),
                    }
                },
            }
        }),
{
}

/// Clearing goes on to the directory whatever the handler answers, and on to the next entry
/// whatever comes of removing one; it ends where the directory cannot be listed, at its end, and
/// where an entry cannot be read.
pub proof fn law_clear_goes_on(
    cleared: EventView,
    listed: EventView,
    entry: EventView,
    removed: EventView,
)
    ensures
        ({
            let request = RequestView::Clear;
            let run = ImageRun { request, state: request.first().0 };
            let run2 = went_on(run, cleared);
            let run3 = went_on(run2, listed);
            let run4 = went_on(run3, entry);
            &&& request.first().1 is ClearHandler
            &&& run.next(cleared).1 is ListDir
            &&& listed is Failed ==> (run2.next(listed).1 matches ImageAction::Finish(None))
            &&& !(listed is Failed) ==> {
                &&& run2.next(listed).1 is NextEntry
                &&& entry matches ImageEvent::Entry(name) ==> {
                    &&& is_image(name) ==> run3.next(entry).1 is RemoveEntry && run4.next(removed).1
                        is NextEntry && went_on(run4, removed).state == run3.state
                    &&& !is_image(name) ==> run3.next(entry).1 is NextEntry && run4.state
                        == run3.state
                }
                &&& !(entry is Entry) ==> (run3.next(entry).1 matches ImageAction::Finish(None))
            }
        }),
{
}

/// Images lie in a fixed directory in production, and else in two directories in the project.
pub proof fn law_images_lie_in_the_project<P>(
    dir: CacheDir<P>,
    project_path: P,
    node_env: Option<&str>,
)
    requires
        dir.suits(project_path, node_env),
    ensures
        dir is Fixed <==> (node_env matches Some(place) && place@ == "production"@),
        dir matches CacheDir::Fixed(path) ==> path@ == "/tmp/rari-og-cache"@,
        dir matches CacheDir::Under(base, names) ==> base == project_path && names[0]@ == ".cache"@
            && names[1]@ == "og"@,
{
}

/// What the contracts see of a request, an action and an event is all that it holds.
pub proof fn law_requests_are_seen_whole(
    request: OgRequest,
    action: OgAction,
    event: OgEvent,
    run: OgRun,
)
    ensures
        match request {
            ImageRequest::Get { key } => request@ matches ImageRequest::Get { key: k } && k == key@,
            ImageRequest::Insert { key, value } => request@ matches ImageRequest::Insert {
                key: k,
                value: v,
            } && k == key@ && v == value@,
            ImageRequest::Remove { key } => request@ matches ImageRequest::Remove { key: k } && k
                == key@,
            ImageRequest::Clear => request@ is Clear,
        },
        match action {
            ImageAction::AskHandler(key) => action@ matches ImageAction::AskHandler(k) && k == key@,
            ImageAction::StoreInHandler { key, value, ttl_secs } => action@ matches
                ImageAction::StoreInHandler { key: k, value: v, ttl_secs: t } && k == key@ && v
                == value@ && t == ttl_secs,
            ImageAction::DropFromHandler(key) => action@ matches ImageAction::DropFromHandler(k)
                && k == key@,
            ImageAction::ClearHandler => action@ is ClearHandler,
            ImageAction::CreateDir => action@ is CreateDir,
            ImageAction::ReadFile(name) => action@ matches ImageAction::ReadFile(n) && n == name@,
            ImageAction::WriteFile(name, value) => action@ matches ImageAction::WriteFile(n, v) && n
                == name@ && v == value@,
            ImageAction::RemoveFile(name) => action@ matches ImageAction::RemoveFile(n) && n
                == name@,
            ImageAction::ListDir => action@ is ListDir,
            ImageAction::NextEntry => action@ is NextEntry,
            ImageAction::RemoveEntry => action@ is RemoveEntry,
            ImageAction::Finish(Some(found)) => action@ matches ImageAction::Finish(Some(f)) && f
                == found@,
            ImageAction::Finish(None) => action@ matches ImageAction::Finish(None),
        },
        match event {
            ImageEvent::Done => event@ is Done,
            ImageEvent::Bytes(bytes) => event@ matches ImageEvent::Bytes(b) && b == bytes@,
            ImageEvent::Nothing => event@ is Nothing,
            ImageEvent::Entry(name) => event@ matches ImageEvent::Entry(n) && n == name@,
            ImageEvent::Failed => event@ is Failed,
        },
        run@.request == run.request@,
{
}

/// After clearing, no key finds anything.
pub proof fn law_cleared_is_not_found(key: Seq<char>, world: World, listing: Seq<Seq<char>>)
    requires
        world.listed_by(listing),
    ensures
        outcome(RequestView::Clear, world, listing) matches Some((_, left)) && outcome(
            RequestView::Get { key },
            left,
            listing,
        ) == Some((None::<Seq<u8>>, left)),
{
    law_clear(world, listing);
    reveal_strlit(".webp");
    law_names_stay_in_the_directory(key);
    assert(".webp"@.is_suffix_of(image_name(key)));
    let left = outcome(RequestView::Clear, world, listing).unwrap().1;
    assert(images().contains(image_name(key)));
    law_get_nothing(key, left, listing);
}

} // verus!
