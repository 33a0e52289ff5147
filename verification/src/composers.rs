//! The open files of the app, one composer per tab, and which tab is active.
use vstd::prelude::*;

use crate::file_formats::{
    all_formats, first_with_extension, guess_file_format_from_path, path_extension_of, FileFormat,
};

verus! {

/// What opening a file comes to, decided by the format guessed from its path.
#[derive(Clone, Copy, Debug, PartialEq, Eq, Structural)]
pub enum OpenFile {
    /// No format is known for the path: nothing is opened.
    UnknownFormat,
    /// The format is known but cannot be opened in a composer: an error.
    Unsupported(FileFormat),
    /// A NEC file: it is read and shown in a new composer.
    Nec,
}

/// The format guessed from a path, as [`guess_file_format_from_path`] gives
/// it.
pub open spec fn guessed_format(path: Seq<char>) -> Option<FileFormat> {
    match path_extension_of(path) {
        Some(ext) => first_with_extension(all_formats(), ext),
        None => None,
    }
}

/// Decides what opening the file at `path` comes to: nothing for a path of
/// unknown format, reading it for a NEC file, and an error for any other
/// format.
pub fn plan_open_file(path: &str) -> (r: OpenFile)
    ensures
        r == match guessed_format(path@) {
            None => OpenFile::UnknownFormat,
            Some(FileFormat::Nec) => OpenFile::Nec,
            Some(format) => OpenFile::Unsupported(format),
        },
{
    match guess_file_format_from_path(path) {
        None => OpenFile::UnknownFormat,
        Some(FileFormat::Nec) => OpenFile::Nec,
        Some(format) => OpenFile::Unsupported(format),
    }
}

/// Open composers in tab order, and the active one.
pub struct Composers<C> {
    composers: Vec<C>,
    active: Option<usize>,
}

impl<C> Composers<C> {
    /// The open composers, in tab order.
    pub closed spec fn composers(&self) -> Seq<C> {
        self.composers@
    }

    /// The index of the active tab, if any.
    pub closed spec fn active(&self) -> Option<usize> {
        self.active
    }

    /// The invariant: an active tab is one of the open tabs.
    pub open spec fn wf(&self) -> bool {
        self.active() matches Some(i) ==> i < self.composers().len()
    }

    /// No tabs.
    pub fn new() -> (r: Self)
        ensures
            r.wf(),
            r.composers() == Seq::<C>::empty(),
            r.active() == None::<usize>,
    {
        Composers { composers: Vec::new(), active: None }
    }

    /// Opens `composer` in a new last tab and makes it active.
    pub fn open_composer(&mut self, composer: C)
        ensures
            final(self).wf(),
            final(self).composers() == old(self).composers().push(composer),
            final(self).active() == Some(old(self).composers().len() as usize),
    {
        let index = self.composers.len();
        self.composers.push(composer);
        self.active = Some(index);
    }

    /// Closes the active tab; the tab to its left becomes active, or none
    /// when it was the first. Without an active tab nothing happens.
    pub fn close_file(&mut self)
        requires
            old(self).wf(),
        ensures
            final(self).wf(),
            match old(self).active() {
                Some(i) => final(self).composers() == old(self).composers().remove(i as int)
                    && final(self).active() == (if i == 0 {
                    None
                } else {
                    Some((i - 1) as usize)
                }),
                None => final(self).composers() == old(self).composers() && final(self).active()
                    == old(self).active(),
            },
    {
        if let Some(index) = self.active {
            self.active = index.checked_sub(1);
            self.composers.remove(index);
        }
    }

    /// Whether a file is open.
    pub fn has_file_open(&self) -> (r: bool)
        ensures
            r == (self.composers().len() > 0),
    {
        !self.composers.is_empty()
    }

    /// Makes the tab at `index` active (a click on the tab).
    pub fn select(&mut self, index: usize)
        requires
            index < old(self).composers().len(),
        ensures
            final(self).wf(),
            final(self).composers() == old(self).composers(),
            final(self).active() == Some(index),
    {
        self.active = Some(index);
    }

    /// The active tab's composer; what is written through it is what the tab
    /// holds afterwards.
    pub fn active_mut(&mut self) -> (r: Option<&mut C>)
        requires
            old(self).wf(),
        ensures
            final(self).wf(),
            final(self).active() == old(self).active(),
            match old(self).active() {
                Some(i) => r matches Some(composer) && *composer == old(self).composers()[i as int]
                    && final(self).composers() == old(self).composers().update(i as int, *final(composer)),
                None => r is None && final(self).composers() == old(self).composers(),
            },
    {
        match self.active {
            Some(index) => Some(&mut self.composers[index]),
            None => None,
        }
    }
}

/// Opening a tab and closing it right away gives back the tabs that were
/// open.
pub proof fn law_open_then_close<C>(tabs: Seq<C>, composer: C)
    ensures
        tabs.push(composer).remove(tabs.len() as int) == tabs,
{
    assert(tabs.push(composer).remove(tabs.len() as int) =~= tabs);
}

} // verus!
