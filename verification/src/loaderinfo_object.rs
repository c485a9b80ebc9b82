//! The object that tells a script how far a movie has loaded.

use vstd::prelude::*;
use crate::value::Atom;
use crate::value::ObjectId;
use crate::value::Value;

verus! {

/// What the loader knows of a movie.
#[derive(Clone, Copy, Debug, PartialEq, Eq, Structural)]
pub struct SwfMovie {
    /// Whether the movie runs on the newer of the two virtual machines.
    pub is_action_script_3: bool,
    /// The length of the movie as it was sent.
    pub compressed_len: u32,
    /// The version of the file format.
    pub version: u8,
    pub url: Atom,
    /// The URL of the movie that loaded this one, if it is known.
    pub loader_url: Option<Atom>,
    /// The object of the movie's domain, if it has one.
    pub avm2_domain: Option<ObjectId>,
}

/// What the loader knows of the root of a loaded movie on the stage.
#[derive(Clone, Copy, Debug, PartialEq, Eq, Structural)]
pub struct DisplayRoot {
    /// The script object of the root.
    pub object2: Value,
    /// How much has loaded and how much there is to load, if the root is a
    /// movie clip.
    pub movie_clip: Option<LoadProgress>,
}

/// The progress of a movie clip's loading.
#[derive(Clone, Copy, Debug, PartialEq, Eq, Structural)]
pub struct LoadProgress {
    /// The bytes of the file that have arrived.
    pub compressed_loaded_bytes: u32,
    /// The bytes of the movie that were processed.
    pub loaded_bytes: u32,
    /// The bytes of the movie in all.
    pub total_bytes: i32,
}

/// What a loader info object stands for.
#[derive(Clone, Copy, Debug, PartialEq, Eq, Structural)]
pub enum LoaderStream {
    /// A movie that has not loaded yet, with its root if there is one
    /// already, and with whether it is the stage's own movie.
    NotYetLoaded(SwfMovie, Option<DisplayRoot>, bool),
    /// A loaded movie and its root.
    Swf(SwfMovie, DisplayRoot),
}

/// An event that a loader info object has to dispatch.
#[derive(Clone, Copy, Debug, PartialEq, Eq, Structural)]
pub enum LoaderEvent {
    /// The event `init`.
    Init,
    /// The event `httpStatus`, with the status and whether the request was
    /// redirected.
    HttpStatus { status: u16, redirected: bool },
    /// The event `complete`.
    Complete,
}

/// The state of a loader info object.
#[derive(Clone, Copy, Debug, PartialEq, Eq, Structural)]
pub struct LoaderInfoObject {
    pub loaded_stream: Option<LoaderStream>,
    /// The loader that made this object, if one did.
    pub loader: Option<ObjectId>,
    pub init_event_fired: bool,
    pub complete_event_fired: bool,
    /// The dispatcher of the events that cross security boundaries.
    pub shared_events: ObjectId,
    /// The dispatcher of the events for uncaught errors.
    pub uncaught_error_events: ObjectId,
}

impl LoaderInfoObject {
    /// The loader info of the loaded movie `movie` with the root `root`.
    pub fn from_movie(
        movie: SwfMovie,
        root: DisplayRoot,
        loader: Option<ObjectId>,
        shared_events: ObjectId,
        uncaught_error_events: ObjectId,
    ) -> (r: LoaderInfoObject)
        ensures
            r == (LoaderInfoObject {
                loaded_stream: Some(LoaderStream::Swf(movie, root)),
                loader,
                init_event_fired: false,
                complete_event_fired: false,
                shared_events,
                uncaught_error_events,
            }),
    {
        LoaderInfoObject {
            loaded_stream: Some(LoaderStream::Swf(movie, root)),
            loader,
            init_event_fired: false,
            complete_event_fired: false,
            shared_events,
            uncaught_error_events,
        }
    }

    /// The loader info of the movie `movie`, which has not loaded yet.
    pub fn not_yet_loaded(
        movie: SwfMovie,
        loader: Option<ObjectId>,
        root_clip: Option<DisplayRoot>,
        is_stage: bool,
        shared_events: ObjectId,
        uncaught_error_events: ObjectId,
    ) -> (r: LoaderInfoObject)
        ensures
            r == (LoaderInfoObject {
                loaded_stream: Some(LoaderStream::NotYetLoaded(movie, root_clip, is_stage)),
                loader,
                init_event_fired: false,
                complete_event_fired: false,
                shared_events,
                uncaught_error_events,
            }),
    {
        LoaderInfoObject {
            loaded_stream: Some(LoaderStream::NotYetLoaded(movie, root_clip, is_stage)),
            loader,
            init_event_fired: false,
            complete_event_fired: false,
            shared_events,
            uncaught_error_events,
        }
    }

    /// The loader that made this object, if one did.
    pub fn loader(&self) -> (r: Option<ObjectId>)
        ensures
            r == self.loader,
    {
        self.loader
    }

    /// The dispatcher of the events that cross security boundaries.
    pub fn shared_events(&self) -> (r: ObjectId)
        ensures
            r == self.shared_events,
    {
        self.shared_events
    }

    /// The dispatcher of the events for uncaught errors.
    pub fn uncaught_error_events(&self) -> (r: ObjectId)
        ensures
            r == self.uncaught_error_events,
    {
        self.uncaught_error_events
    }

    /// What the object stands for, if anything.
    pub fn as_loader_stream(&self) -> (r: Option<LoaderStream>)
        ensures
            r == self.loaded_stream,
    {
        self.loaded_stream
    }

    /// Makes the object stand for `stream`.
    pub fn set_loader_stream(&mut self, stream: LoaderStream)
        ensures
            *final(self) == (LoaderInfoObject { loaded_stream: Some(stream), ..*old(self) }),
    {
        self.loaded_stream = Some(stream);
    }

    /// Makes the object stand for `empty_swf`, a movie without content that
    /// has not loaded.
    pub fn unload(&mut self, empty_swf: SwfMovie)
        ensures
            *final(self) == (LoaderInfoObject {
                loaded_stream: Some(LoaderStream::NotYetLoaded(empty_swf, None, false)),
                ..*old(self)
            }),
    {
        self.set_loader_stream(LoaderStream::NotYetLoaded(empty_swf, None, false));
    }

    /// Whether the movie has loaded in full: a loaded movie whose root has
    /// processed all its bytes, or whose root is no movie clip.
    pub open spec fn should_complete(&self) -> bool {
        match self.loaded_stream {
            Some(LoaderStream::Swf(_, root)) => match root.movie_clip {
                Some(mc) => mc.loaded_bytes as i32 >= mc.total_bytes,
                None => true,
            },
            _ => false,
        }
    }

    /// The events that are due, in the order of their dispatch: `init` if it
    /// was not fired yet; then, if the movie has loaded in full and
    /// `complete` was not fired yet, `httpStatus` and `complete`.
    pub open spec fn due_events(&self, status: u16, redirected: bool) -> Seq<LoaderEvent> {
        let init = if self.init_event_fired {
            Seq::<LoaderEvent>::empty()
        } else {
            seq![LoaderEvent::Init]
        };
        if !self.complete_event_fired && self.should_complete() {
            init + seq![LoaderEvent::HttpStatus { status, redirected }, LoaderEvent::Complete]
        } else {
            init
        }
    }

    /// Records as fired, and returns, the events that are due at the end of
    /// a frame. Each of `init` and `complete` is fired once.
    pub fn fire_init_and_complete_events(&mut self, status: u16, redirected: bool) -> (r: Vec<
        LoaderEvent,
    >)
        ensures
            r@ == old(self).due_events(status, redirected),
            *final(self) == (LoaderInfoObject {
                init_event_fired: true,
                complete_event_fired: old(self).complete_event_fired || old(self).should_complete(),
                ..*old(self)
            }),
    {
        let mut events: Vec<LoaderEvent> = Vec::new();
        if !self.init_event_fired {
            self.init_event_fired = true;
            events.push(LoaderEvent::Init);
        }
        if !self.complete_event_fired {
            let should_complete = match self.loaded_stream {
                Some(LoaderStream::Swf(_, root)) => match root.movie_clip {
                    Some(mc) => mc.loaded_bytes as i32 >= mc.total_bytes,
                    None => true,
                },
                _ => false,
            };
            if should_complete {
                events.push(LoaderEvent::HttpStatus { status, redirected });
                self.complete_event_fired = true;
                events.push(LoaderEvent::Complete);
            }
        }
        assert(events@ =~= old(self).due_events(status, redirected));
        events
    }
}

} // verus!
