use vstd::prelude::*;
use crate::bytes::{seqs_of, texts_of};
use crate::path::FsPath;
use crate::tree::{entries_of, listing_of};

verus! {

/// Outside work that a build step asks for. Lines printed before it are
/// carried by the [`Request`].
pub enum Op {
    /// Read a file as text; answered by `Event::Text` (`None` where it cannot be read).
    ReadText(FsPath),
    /// Write the text to the file; a failure ends the build step.
    WriteText(FsPath, String),
    /// Write a stamp; a failure is ignored.
    WriteStamp(FsPath, String),
    /// Whether the path exists; answered by `Event::Flag`.
    Exists(FsPath),
    /// List the directory: each entry's name and whether its path is a
    /// directory; answered by `Event::Listing` (`None` where it cannot be read).
    ListDir(FsPath),
    /// Read a file's bytes; answered by `Event::Bytes`.
    ReadBytes(FsPath),
    /// Whether the environment variable is set; answered by `Event::Flag`.
    EnvSet(String),
    /// The directory that cargo gives the build script; answered by `Event::Path`.
    OutDir,
    /// The modification time of the path; answered by `Event::Time`.
    Modified(FsPath),
    /// Run npm with these arguments, in the directory where one is given; a
    /// failure ends the build step.
    Npm(Option<FsPath>, Vec<String>),
    /// The build step is over.
    Finish,
}

/// What a step asks for.
pub struct Request {
    /// Lines to print, in order, before the work is done.
    pub lines: Vec<Vec<u8>>,
    pub op: Op,
}

/// The answer to the last request.
pub enum Event {
    Start,
    Done,
    Flag(bool),
    Text(Option<String>),
    Bytes(Option<Vec<u8>>),
    Listing(Option<Vec<(Vec<u8>, bool)>>),
    Path(FsPath),
    /// A modification time, in nanoseconds from the Unix epoch (negative before it).
    Time(Option<i128>),
}

pub enum OpView {
    ReadText(Seq<u8>),
    WriteText(Seq<u8>, Seq<char>),
    WriteStamp(Seq<u8>, Seq<char>),
    Exists(Seq<u8>),
    ListDir(Seq<u8>),
    ReadBytes(Seq<u8>),
    EnvSet(Seq<char>),
    OutDir,
    Modified(Seq<u8>),
    Npm(Option<Seq<u8>>, Seq<Seq<char>>),
    Finish,
}

pub struct RequestView {
    pub lines: Seq<Seq<u8>>,
    pub op: OpView,
}

pub enum EventView {
    Start,
    Done,
    Flag(bool),
    Text(Option<Seq<char>>),
    Bytes(Option<Seq<u8>>),
    Listing(Option<Seq<(Seq<u8>, bool)>>),
    Path(Seq<u8>),
    Time(Option<i128>),
}

pub open spec fn file_of(f: (Vec<u8>, Vec<u8>)) -> (Seq<u8>, Seq<u8>) {
    (f.0@, f.1@)
}

pub open spec fn files_of(v: Seq<(Vec<u8>, Vec<u8>)>) -> Seq<(Seq<u8>, Seq<u8>)> {
    v.map_values(|f: (Vec<u8>, Vec<u8>)| file_of(f))
}

impl View for Op {
    type V = OpView;

    open spec fn view(&self) -> OpView {
        match self {
            Op::ReadText(p) => OpView::ReadText(p@),
            Op::WriteText(p, t) => OpView::WriteText(p@, t@),
            Op::WriteStamp(p, t) => OpView::WriteStamp(p@, t@),
            Op::Exists(p) => OpView::Exists(p@),
            Op::ListDir(p) => OpView::ListDir(p@),
            Op::ReadBytes(p) => OpView::ReadBytes(p@),
            Op::EnvSet(v) => OpView::EnvSet(v@),
            Op::OutDir => OpView::OutDir,
            Op::Modified(p) => OpView::Modified(p@),
            Op::Npm(d, args) => OpView::Npm(
                match d {
                    Some(p) => Some(p@),
                    None => None,
                },
                texts_of(args@),
            ),
            Op::Finish => OpView::Finish,
        }
    }
}

impl View for Request {
    type V = RequestView;

    open spec fn view(&self) -> RequestView {
        RequestView { lines: seqs_of(self.lines@), op: self.op@ }
    }
}

impl View for Event {
    type V = EventView;

    open spec fn view(&self) -> EventView {
        match self {
            Event::Start => EventView::Start,
            Event::Done => EventView::Done,
            Event::Flag(b) => EventView::Flag(*b),
            Event::Text(t) => EventView::Text(
                match t {
                    Some(s) => Some(s@),
                    None => None,
                },
            ),
            Event::Bytes(b) => EventView::Bytes(
                match b {
                    Some(v) => Some(v@),
                    None => None,
                },
            ),
            Event::Listing(l) => EventView::Listing(
                match l {
                    Some(v) => Some(entries_of(v@)),
                    None => None,
                },
            ),
            Event::Path(p) => EventView::Path(p@),
            Event::Time(t) => EventView::Time(*t),
        }
    }
}

/// The flag an event carries; `false` for any other event.
pub open spec fn flag_of(e: EventView) -> bool {
    match e {
        EventView::Flag(b) => b,
        _ => false,
    }
}

/// The text an event carries, the empty text where there is none.
pub open spec fn text_or_empty(e: EventView) -> Seq<char> {
    match e {
        EventView::Text(Some(t)) => t,
        _ => Seq::empty(),
    }
}

/// The bytes an event carries, if any.
pub open spec fn bytes_of(e: EventView) -> Option<Seq<u8>> {
    match e {
        EventView::Bytes(b) => b,
        _ => None,
    }
}

/// The entries a listing carries; none where there is no listing.
pub open spec fn listing_in(e: EventView) -> Seq<(Seq<u8>, bool)> {
    match e {
        EventView::Listing(Some(l)) => l,
        _ => Seq::empty(),
    }
}

/// The path an event carries; the empty path for any other event.
pub open spec fn path_in(e: EventView) -> Seq<u8> {
    match e {
        EventView::Path(p) => p,
        _ => Seq::empty(),
    }
}

/// The time an event carries, if any.
pub open spec fn time_of(e: EventView) -> Option<i128> {
    match e {
        EventView::Time(t) => t,
        _ => None,
    }
}

impl Event {
    pub fn flag(&self) -> (r: bool)
        ensures
            r == flag_of(self@),
    {
        match self {
            Event::Flag(b) => *b,
            _ => false,
        }
    }

    /// The text carried, or the empty string.
    pub fn take_text(self) -> (r: String)
        ensures
            r@ == text_or_empty(self@),
    {
        match self {
            Event::Text(Some(t)) => t,
            _ => String::new(),
        }
    }

    pub fn take_bytes(self) -> (r: Option<Vec<u8>>)
        ensures
            match r {
                Some(v) => bytes_of(self@) == Some(v@),
                None => bytes_of(self@) is None,
            },
    {
        match self {
            Event::Bytes(b) => b,
            _ => None,
        }
    }

    pub fn take_listing(self) -> (r: Option<Vec<(Vec<u8>, bool)>>)
        ensures
            listing_of(r) == listing_in(self@),
    {
        match self {
            Event::Listing(l) => l,
            _ => None,
        }
    }

    pub fn take_path(self) -> (r: FsPath)
        ensures
            r@ == path_in(self@),
    {
        match self {
            Event::Path(p) => p,
            _ => FsPath::from_bytes(Vec::new()),
        }
    }

    pub fn time(&self) -> (r: Option<i128>)
        ensures
            r == time_of(self@),
    {
        match self {
            Event::Time(t) => *t,
            _ => None,
        }
    }
}

} // verus!
