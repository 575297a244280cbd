use vstd::prelude::*;

use crate::error::Failure;

verus! {

/// A button of the pointer device.
#[derive(Clone, Copy, Debug, PartialEq, Eq, Structural)]
pub enum MouseButton {
    Left,
    Right,
}

/// One call into the raw-input driver, for the host to perform.
#[derive(Clone, Copy, Debug, PartialEq, Eq, Structural)]
pub enum Action {
    /// Move the cursor to the absolute pixel position `(x, y)`.
    SetCursor(i32, i32),
    /// Press and release a mouse button.
    Click(MouseButton),
    /// Press a mouse button and hold it.
    MouseDown(MouseButton),
    /// Release a held mouse button.
    MouseUp(MouseButton),
    /// Press a key and hold it.
    KeyDown(u16),
    /// Release a held key.
    KeyUp(u16),
}

/// What the host polled at the start of a tick.
pub struct Input {
    /// The clock, in microseconds since an arbitrary start; it never
    /// runs backwards.
    pub now: u64,
    /// Identifiers of the raw keys and buttons that are down.
    pub down: Vec<u16>,
    /// Position of the cursor, or `None` where the driver could not tell.
    pub cursor: Option<(i32, i32)>,
}

/// Mathematical model of [`Input`].
pub struct InputView {
    pub now: u64,
    pub down: Seq<u16>,
    pub cursor: Option<(i32, i32)>,
}

impl View for Input {
    type V = InputView;

    open spec fn view(&self) -> InputView {
        InputView { now: self.now, down: self.down@, cursor: self.cursor }
    }
}

/// A storage operation for the host to perform. Its outcome goes back
/// to the engine as a [`Reply`].
#[derive(Debug, PartialEq, Eq)]
pub enum Request {
    /// Read the click sequence of the recipe stored at `path`.
    Load { path: String },
    /// Store a new recipe called `name`: the text `clicks` as its click
    /// file, with the thumbnail and the icon cut from the two latest
    /// screenshots.
    Save { name: String, clicks: String },
    /// Remove the recipe stored at `path` with all it holds.
    Remove { path: String },
    /// Move the recipe stored at `from` to `to`.
    Rename { from: String, to: String },
}

/// Mathematical model of [`Request`].
pub enum RequestView {
    Load { path: Seq<char> },
    Save { name: Seq<char>, clicks: Seq<char> },
    Remove { path: Seq<char> },
    Rename { from: Seq<char>, to: Seq<char> },
}

impl View for Request {
    type V = RequestView;

    open spec fn view(&self) -> RequestView {
        match self {
            Request::Load { path } => RequestView::Load { path: path@ },
            Request::Save { name, clicks } => RequestView::Save { name: name@, clicks: clicks@ },
            Request::Remove { path } => RequestView::Remove { path: path@ },
            Request::Rename { from, to } => RequestView::Rename { from: from@, to: to@ },
        }
    }
}

/// The model of a request that may be absent.
pub open spec fn request_view(request: Option<Request>) -> Option<RequestView> {
    match request {
        Some(r) => Some(r@),
        None => None,
    }
}

/// The texts that `names` hold, in the same order.
pub open spec fn string_views(names: Seq<String>) -> Seq<Seq<char>> {
    names.map_values(|name: String| name@)
}

/// How a storage operation ended.
#[derive(Debug, PartialEq, Eq)]
pub enum Reply {
    /// The click file was read; this is its text.
    Clicks(String),
    /// The recipe was stored, removed or moved; these are the names
    /// found in the recipe folder afterwards.
    Listing(Vec<String>),
    /// The operation failed.
    Failed(Failure),
}

/// Mathematical model of [`Reply`].
pub enum ReplyView {
    Clicks(Seq<char>),
    Listing(Seq<Seq<char>>),
    Failed(Failure),
}

impl View for Reply {
    type V = ReplyView;

    open spec fn view(&self) -> ReplyView {
        match self {
            Reply::Clicks(clicks) => ReplyView::Clicks(clicks@),
            Reply::Listing(names) => ReplyView::Listing(string_views(names@)),
            Reply::Failed(e) => ReplyView::Failed(*e),
        }
    }
}

/// The user's request that an error report belongs to.
#[derive(Clone, Copy, Debug, PartialEq, Eq, Structural)]
pub enum Context {
    CreateRecipe,
    DeleteRecipe,
    RenameRecipe,
}

/// An error that the host shows to the user; the engine goes on.
#[derive(Clone, Copy, Debug, PartialEq, Eq, Structural)]
pub struct Report {
    pub context: Context,
    pub error: Failure,
}

/// What the host has to do after a tick, in the order of the fields.
#[derive(Debug)]
pub struct Output {
    /// Driver calls, to be made in this order.
    pub actions: Vec<Action>,
    /// The selection or the repository changed: the thumbnail and the
    /// icon of the selected recipe have to be loaded anew.
    pub reload_textures: bool,
    /// An error to show.
    pub report: Option<Report>,
    /// A storage operation to perform and to answer.
    pub request: Option<Request>,
}

/// Mathematical model of [`Output`].
pub struct OutputView {
    pub actions: Seq<Action>,
    pub reload_textures: bool,
    pub report: Option<Report>,
    pub request: Option<RequestView>,
}

impl View for Output {
    type V = OutputView;

    open spec fn view(&self) -> OutputView {
        OutputView {
            actions: self.actions@,
            reload_textures: self.reload_textures,
            report: self.report,
            request: request_view(self.request),
        }
    }
}

impl OutputView {
    /// Nothing to do.
    pub open spec fn empty() -> OutputView {
        OutputView {
            actions: Seq::empty(),
            reload_textures: false,
            report: None,
            request: None,
        }
    }
}

} // verus!
