//! The archive producer: which files go into an archive, and in what order.
//!
//! The walker names one action at a time. The caller reads the directory or
//! stores the file it is told to, and hands a directory's listing back with
//! the next call.

use vstd::prelude::*;
use crate::paths::{lemma_starts_with_order, path_starts_with, starts_with};
use crate::profile_config::{
    any_same_path, any_starts_with, lies_under, names_file, texts, ProfileConfig,
};

verus! {

/// How many bytes of a file are read and stored at a time.
pub const CHUNK_SIZE: usize = 0x2000;

/// What a directory holds under one name.
#[derive(Debug)]
pub struct Entry {
    /// The path of the entry, the directory's path included.
    pub path: String,
    pub is_dir: bool,
    pub is_file: bool,
}

/// What the caller is to do next.
#[derive(Debug, PartialEq, Eq)]
pub enum Action {
    /// Read the directory and hand its entries to the next call.
    ReadDir(String),
    /// Store the file in the archive, under its path as the entry's name.
    Archive(String),
    /// Nothing is left: close the archive.
    Done,
}

/// A directory that is being walked: its entries, and how many of them have
/// been dealt with.
#[derive(Debug)]
struct Frame {
    dir: String,
    entries: Vec<Entry>,
    next: usize,
}

/// The state of one walk through what a profile includes.
#[derive(Debug)]
pub struct Walker {
    dirs_to_include: Vec<String>,
    files_to_include: Vec<String>,
    files_to_exclude: Vec<String>,
    dirs_to_exclude: Vec<String>,
    next_root: usize,
    frames: Vec<Frame>,
    awaiting: Option<String>,
    next_file: usize,
}

/// An entry, over the text of its path.
pub struct EntryView {
    pub path: Seq<char>,
    pub is_dir: bool,
    pub is_file: bool,
}

/// An action, over the text of its path.
pub enum ActionView {
    ReadDir(Seq<char>),
    Archive(Seq<char>),
    Done,
}

/// A directory that is being walked.
pub struct FrameView {
    pub dir: Seq<char>,
    pub entries: Seq<EntryView>,
    pub next: nat,
}

/// What a walker is: the lists of the profile, how far the included
/// directories and files have been taken up, the directories that are open,
/// innermost last, and the directory whose listing is awaited.
pub struct WalkerView {
    pub dirs_to_include: Seq<Seq<char>>,
    pub files_to_include: Seq<Seq<char>>,
    pub files_to_exclude: Seq<Seq<char>>,
    pub dirs_to_exclude: Seq<Seq<char>>,
    pub next_root: nat,
    pub frames: Seq<FrameView>,
    pub awaiting: Option<Seq<char>>,
    pub next_file: nat,
}

impl View for Entry {
    type V = EntryView;

    open spec fn view(&self) -> EntryView {
        EntryView { path: self.path@, is_dir: self.is_dir, is_file: self.is_file }
    }
}

impl View for Action {
    type V = ActionView;

    open spec fn view(&self) -> ActionView {
        match *self {
            Action::ReadDir(path) => ActionView::ReadDir(path@),
            Action::Archive(path) => ActionView::Archive(path@),
            Action::Done => ActionView::Done,
        }
    }
}

/// The views of a list of entries.
pub open spec fn entry_views(entries: Seq<Entry>) -> Seq<EntryView> {
    Seq::new(entries.len(), |i: int| entries[i]@)
}

/// The view of a listing that was handed over, if one was.
pub open spec fn listing_view(listing: Option<Vec<Entry>>) -> Option<Seq<EntryView>> {
    match listing {
        Some(entries) => Some(entry_views(entries@)),
        None => None,
    }
}

impl View for Frame {
    type V = FrameView;

    closed spec fn view(&self) -> FrameView {
        FrameView { dir: self.dir@, entries: entry_views(self.entries@), next: self.next as nat }
    }
}

/// The views of a list of frames.
spec fn frame_views(frames: Seq<Frame>) -> Seq<FrameView> {
    Seq::new(frames.len(), |i: int| frames[i]@)
}

impl View for Walker {
    type V = WalkerView;

    closed spec fn view(&self) -> WalkerView {
        WalkerView {
            dirs_to_include: texts(self.dirs_to_include@),
            files_to_include: texts(self.files_to_include@),
            files_to_exclude: texts(self.files_to_exclude@),
            dirs_to_exclude: texts(self.dirs_to_exclude@),
            next_root: self.next_root as nat,
            frames: frame_views(self.frames@),
            awaiting: match self.awaiting {
                Some(dir) => Some(dir@),
                None => None,
            },
            next_file: self.next_file as nat,
        }
    }
}

impl FrameView {
    /// How many entries are left.
    pub open spec fn left(self) -> nat {
        if self.next < self.entries.len() {
            (self.entries.len() - self.next) as nat
        } else {
            0
        }
    }
}

impl WalkerView {
    /// Whether `path` is left out of the walk.
    pub open spec fn excluded(self, path: Seq<char>) -> bool {
        names_file(self.files_to_exclude, path) || lies_under(self.dirs_to_exclude, path)
    }

    /// Whether `path` lies in one of the included directories.
    pub open spec fn covered(self, path: Seq<char>) -> bool {
        lies_under(self.dirs_to_include, path)
    }

    /// Whether `path` may go into the archive: it is one of the included
    /// files, or it lies in an included directory and is not left out.
    pub open spec fn may_archive(self, path: Seq<char>) -> bool {
        self.files_to_include.contains(path) || (self.covered(path) && !self.excluded(path))
    }

    /// A walk that has not begun.
    pub open spec fn fresh(self) -> bool {
        self.next_root == 0 && self.frames.len() == 0 && self.awaiting is None && self.next_file
            == 0
    }

    /// Every open directory, and the awaited one, lies in an included
    /// directory.
    pub open spec fn wf(self) -> bool {
        &&& forall|i: int| 0 <= i < self.frames.len() ==> self.covered(#[trigger] self.frames[i].dir)
        &&& self.awaiting matches Some(dir) ==> self.covered(dir)
    }

    /// How many included directories and files have not been taken up.
    pub open spec fn roots_left(self) -> nat {
        (if self.next_root < self.dirs_to_include.len() {
            (self.dirs_to_include.len() - self.next_root) as nat
        } else {
            0
        }) + (if self.next_file < self.files_to_include.len() {
            (self.files_to_include.len() - self.next_file) as nat
        } else {
            0
        })
    }

    /// How many entries the innermost open directory has left.
    pub open spec fn top_left(self) -> nat {
        if self.frames.len() > 0 {
            self.frames.last().left()
        } else {
            0
        }
    }

    /// Takes in the listing of the awaited directory, if there is one of each:
    /// the directory is then open.
    pub open spec fn receive(self, listing: Option<Seq<EntryView>>) -> WalkerView {
        match (self.awaiting, listing) {
            (Some(dir), Some(entries)) => WalkerView {
                frames: self.frames.push(FrameView { dir, entries, next: 0 }),
                awaiting: None,
                ..self
            },
            _ => WalkerView { awaiting: None, ..self },
        }
    }

    /// Goes on to the next action.
    ///
    /// The innermost open directory comes first: its next entry is passed over
    /// if its path does not lie in the directory or is left out; a directory
    /// is read, a file stored, anything else passed over; a directory without
    /// entries left is closed. With no directory open, the next included
    /// directory is read. Last come the included files, one by one: a file
    /// that lies in an included directory and is not left out was stored on
    /// the way and is passed over, any other is stored, left out or not.
    pub open spec fn advance(self) -> (WalkerView, ActionView)
        decreases self.roots_left(), self.frames.len(), self.top_left(),
    {
        if self.frames.len() > 0 {
            let frame = self.frames.last();
            if frame.next >= frame.entries.len() {
                (WalkerView { frames: self.frames.drop_last(), ..self }).advance()
            } else {
                let entry = frame.entries[frame.next as int];
                let moved = WalkerView {
                    frames: self.frames.drop_last().push(
                        FrameView { next: frame.next + 1, ..frame },
                    ),
                    ..self
                };
                if !starts_with(entry.path, frame.dir) || self.excluded(entry.path) {
                    moved.advance()
                } else if entry.is_dir {
                    (
                        WalkerView { awaiting: Some(entry.path), ..moved },
                        ActionView::ReadDir(entry.path),
                    )
                } else if entry.is_file {
                    (moved, ActionView::Archive(entry.path))
                } else {
                    moved.advance()
                }
            }
        } else if self.next_root < self.dirs_to_include.len() {
            let root = self.dirs_to_include[self.next_root as int];
            (
                WalkerView { next_root: self.next_root + 1, awaiting: Some(root), ..self },
                ActionView::ReadDir(root),
            )
        } else if self.next_file < self.files_to_include.len() {
            let file = self.files_to_include[self.next_file as int];
            let moved = WalkerView { next_file: self.next_file + 1, ..self };
            if self.covered(file) && !self.excluded(file) {
                moved.advance()
            } else {
                (moved, ActionView::Archive(file))
            }
        } else {
            (self, ActionView::Done)
        }
    }

    /// One call of the walker: takes in the listing, then goes on to the next
    /// action.
    pub open spec fn step(self, listing: Option<Seq<EntryView>>) -> (WalkerView, ActionView) {
        self.receive(listing).advance()
    }

    /// Whether `other` walks for the same lists.
    pub open spec fn same_lists(self, other: WalkerView) -> bool {
        &&& self.dirs_to_include == other.dirs_to_include
        &&& self.files_to_include == other.files_to_include
        &&& self.files_to_exclude == other.files_to_exclude
        &&& self.dirs_to_exclude == other.dirs_to_exclude
    }

    /// Whatever the walker has stored may go into the archive, and whatever
    /// it has read lies in an included directory.
    pub proof fn lemma_advance(self)
        requires
            self.wf(),
        ensures
            self.advance().0.wf(),
            self.advance().0.same_lists(self),
            self.advance().1 matches ActionView::Archive(path) ==> self.may_archive(path),
            self.advance().1 matches ActionView::ReadDir(path) ==> self.covered(path),
        decreases self.roots_left(), self.frames.len(), self.top_left(),
    {
        if self.frames.len() > 0 {
            let frame = self.frames.last();
            if frame.next >= frame.entries.len() {
                let popped = WalkerView { frames: self.frames.drop_last(), ..self };
                popped.lemma_advance();
            } else {
                let entry = frame.entries[frame.next as int];
                let moved = WalkerView {
                    frames: self.frames.drop_last().push(
                        FrameView { next: frame.next + 1, ..frame },
                    ),
                    ..self
                };
                assert(moved.wf()) by {
                    assert forall|i: int| 0 <= i < moved.frames.len() implies moved.covered(
                        #[trigger] moved.frames[i].dir,
                    ) by {
                        assert(moved.frames[i].dir == self.frames[i].dir);
                    }
                }
                if starts_with(entry.path, frame.dir) {
                    assert(self.covered(entry.path)) by {
                        let k = choose|k: int|
                            0 <= k < self.dirs_to_include.len() && starts_with(
                                frame.dir,
                                #[trigger] self.dirs_to_include[k],
                            );
                        lemma_starts_with_order(entry.path, frame.dir, self.dirs_to_include[k]);
                    }
                }
                if !starts_with(entry.path, frame.dir) || self.excluded(entry.path) {
                    moved.lemma_advance();
                } else if entry.is_dir {
                } else if entry.is_file {
                } else {
                    moved.lemma_advance();
                }
            }
        } else if self.next_root < self.dirs_to_include.len() {
            let root = self.dirs_to_include[self.next_root as int];
            lemma_starts_with_order(root, root, root);
        } else if self.next_file < self.files_to_include.len() {
            let file = self.files_to_include[self.next_file as int];
            let moved = WalkerView { next_file: self.next_file + 1, ..self };
            if self.covered(file) && !self.excluded(file) {
                moved.lemma_advance();
            }
        }
    }

    /// Every file that a call of the walker has stored may go into the
    /// archive: it is one of the included files, or it lies in an included
    /// directory and is not left out.
    pub proof fn lemma_step(self, listing: Option<Seq<EntryView>>)
        requires
            self.wf(),
        ensures
            self.step(listing).0.wf(),
            self.step(listing).0.same_lists(self),
            self.step(listing).1 matches ActionView::Archive(path) ==> self.may_archive(path),
            self.step(listing).1 matches ActionView::ReadDir(path) ==> self.covered(path),
    {
        let received = self.receive(listing);
        assert(received.wf()) by {
            assert forall|i: int| 0 <= i < received.frames.len() implies received.covered(
                #[trigger] received.frames[i].dir,
            ) by {
                if i < self.frames.len() {
                    assert(received.frames[i].dir == self.frames[i].dir);
                }
            }
        }
        received.lemma_advance();
    }

    /// The walker after the calls that were answered with `listings`, one
    /// after the other.
    pub open spec fn after(self, listings: Seq<Option<Seq<EntryView>>>) -> WalkerView
        decreases listings.len(),
    {
        if listings.len() == 0 {
            self
        } else {
            self.after(listings.drop_last()).step(listings.last()).0
        }
    }

    /// Whatever listings a walk is answered with, from its beginning on, what
    /// it has stored next may go into the archive: it is one of the included
    /// files, or it lies in an included directory and is not left out.
    pub proof fn lemma_walk(
        self,
        listings: Seq<Option<Seq<EntryView>>>,
        listing: Option<Seq<EntryView>>,
    )
        requires
            self.wf(),
        ensures
            self.after(listings).wf(),
            self.after(listings).same_lists(self),
            self.after(listings).step(listing).1 matches ActionView::Archive(path)
                ==> self.may_archive(path),
            self.after(listings).step(listing).1 matches ActionView::ReadDir(path)
                ==> self.covered(path),
        decreases listings.len(),
    {
        if listings.len() > 0 {
            self.lemma_walk(listings.drop_last(), listings.last());
            self.after(listings.drop_last()).lemma_step(listings.last());
        }
        self.after(listings).lemma_step(listing);
    }
}

/// A list with the texts of `list`.
fn copy_texts(list: &Vec<String>) -> (r: Vec<String>)
    ensures
        texts(r@) == texts(list@),
{
    let mut out: Vec<String> = Vec::new();
    let mut i: usize = 0;
    while i < list.len()
        invariant
            i <= list.len(),
            out@.len() == i,
            texts(out@) == texts(list@).subrange(0, i as int),
        decreases list.len() - i,
    {
        let text = list[i].clone();
        let ghost before = out@;
        out.push(text);
        i += 1;
        assert forall|k: int| 0 <= k < i implies texts(out@)[k] == texts(list@)[k] by {
            if k < i - 1 {
                assert(texts(before)[k] == texts(list@).subrange(0, i - 1)[k]);
            }
        }
        assert(texts(out@) =~= texts(list@).subrange(0, i as int));
    }
    assert(texts(list@).subrange(0, list@.len() as int) =~= texts(list@));
    out
}

impl Walker {
    /// A walk through what `profile` includes, not yet begun.
    pub fn new(profile: &ProfileConfig) -> (r: Walker)
        ensures
            r@.fresh(),
            r@.wf(),
            r@.dirs_to_include == profile@.dirs_to_include,
            r@.files_to_include == profile@.files_to_include,
            r@.files_to_exclude == profile@.files_to_exclude,
            r@.dirs_to_exclude == profile@.dirs_to_exclude,
    {
        let walker = Walker {
            dirs_to_include: copy_texts(&profile.dirs_to_include),
            files_to_include: copy_texts(&profile.files_to_include),
            files_to_exclude: copy_texts(&profile.files_to_exclude),
            dirs_to_exclude: copy_texts(&profile.dirs_to_exclude),
            next_root: 0,
            frames: Vec::new(),
            awaiting: None,
            next_file: 0,
        };
        assert(walker@.frames =~= Seq::empty());
        walker
    }

    /// Whether `path` is left out of the walk.
    fn excluded(&self, path: &str) -> (r: bool)
        ensures
            r == self@.excluded(path@),
    {
        any_same_path(&self.files_to_exclude, path) || any_starts_with(&self.dirs_to_exclude, path)
    }

    /// Whether `path` lies in one of the included directories.
    fn covered(&self, path: &str) -> (r: bool)
        ensures
            r == self@.covered(path@),
    {
        any_starts_with(&self.dirs_to_include, path)
    }

    /// Takes in the listing of the directory that the last action asked for
    /// (nothing, if it could not be read or none was asked for) and names the
    /// next action.
    pub fn next(&mut self, listing: Option<Vec<Entry>>) -> (r: Action)
        ensures
            (final(self)@, r@) == old(self)@.step(listing_view(listing)),
    {
        let ghost begun = self@;
        let awaited = self.awaiting.take();
        match (awaited, listing) {
            (Some(dir), Some(entries)) => {
                self.frames.push(Frame { dir, entries, next: 0 });
            },
            _ => {},
        }
        let ghost received = self@;
        assert(received.frames =~= begun.receive(listing_view(listing)).frames);
        assert(received == begun.receive(listing_view(listing)));
        loop
            invariant
                self@.advance() == received.advance(),
                received.advance() == old(self)@.step(listing_view(listing)),
            decreases self@.roots_left(), self@.frames.len(), self@.top_left(),
        {
            let ghost now = self@;
            if self.frames.len() > 0 {
                let mut frame = self.frames.pop().unwrap();
                let ghost top = frame@;
                assert(top == now.frames.last());
                assert(self@.frames =~= now.frames.drop_last());
                if frame.next >= frame.entries.len() {
                    continue;
                }
                let at = frame.next;
                let path = frame.entries[at].path.clone();
                let is_dir = frame.entries[at].is_dir;
                let is_file = frame.entries[at].is_file;
                assert(top.entries[at as int] == frame.entries@[at as int]@);
                let inside = path_starts_with(path.as_str(), frame.dir.as_str());
                frame.next = at + 1;
                self.frames.push(frame);
                let ghost moved = WalkerView {
                    frames: now.frames.drop_last().push(FrameView { next: top.next + 1, ..top }),
                    ..now
                };
                assert(self@.frames =~= moved.frames);
                assert(self@ == moved);
                if !inside || self.excluded(path.as_str()) {
                    continue;
                }
                if is_dir {
                    self.awaiting = Some(path.clone());
                    return Action::ReadDir(path);
                }
                if is_file {
                    return Action::Archive(path);
                }
            } else if self.next_root < self.dirs_to_include.len() {
                let root = self.dirs_to_include[self.next_root].clone();
                self.next_root = self.next_root + 1;
                self.awaiting = Some(root.clone());
                return Action::ReadDir(root);
            } else if self.next_file < self.files_to_include.len() {
                let file = self.files_to_include[self.next_file].clone();
                let passed = self.covered(file.as_str()) && !self.excluded(file.as_str());
                self.next_file = self.next_file + 1;
                if !passed {
                    return Action::Archive(file);
                }
            } else {
                return Action::Done;
            }
        }
    }
}

/// What a prompt for the target directory came back with.
#[derive(Debug, Clone, Copy, PartialEq, Eq, Structural)]
pub enum PromptOutcome {
    /// Look again.
    Retry,
    /// Give up.
    Cancel,
}

/// What to do about the target directory.
#[derive(Debug, Clone, Copy, PartialEq, Eq, Structural)]
pub enum Gate {
    /// The directory is there: go on.
    Proceed,
    /// The directory is not there: ask whether to look again.
    Prompt,
    /// The last prompt was cancelled: the target is unavailable.
    GiveUp,
}

/// Whether a directory can serve as target: it exists, is a directory and,
/// where it has to be written to, is not read-only.
pub fn is_target_dir_available(exists: bool, is_dir: bool, readonly: bool, is_writeable: bool) -> (r:
    bool)
    ensures
        r == (exists && is_dir && (!is_writeable || !readonly)),
{
    exists && is_dir && (!is_writeable || !readonly)
}

/// What to do about the target directory, given whether it is available now
/// and what the last prompt, if there was one, came back with: a cancelled
/// prompt ends the attempt, whatever has become of the directory since.
pub fn target_gate(available: bool, last_prompt: Option<PromptOutcome>) -> (r: Gate)
    ensures
        r == (if last_prompt == Some(PromptOutcome::Cancel) {
            Gate::GiveUp
        } else if available {
            Gate::Proceed
        } else {
            Gate::Prompt
        }),
{
    match last_prompt {
        Some(PromptOutcome::Cancel) => Gate::GiveUp,
        _ => if available {
            Gate::Proceed
        } else {
            Gate::Prompt
        },
    }
}

} // verus!
