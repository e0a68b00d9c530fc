//! Domain records produced by the extraction pipeline and shared with the
//! presentation side: class entries with their parsed section schedule, class
//! page items, and keyed slots for the data a client keeps.

use vstd::prelude::*;
use std::collections::HashMap;
use crate::{ClassID, ClassItemID, DueDate};

verus! {

/// A value paired with a refresh counter; replacing the value bumps the key so
/// observers can tell one refresh from the next.
#[derive(Clone, Debug, PartialEq)]
pub struct Keyed<T>(T, usize);

impl<T> Keyed<T> {
    /// The held value.
    pub closed spec fn spec_value(&self) -> T {
        self.0
    }

    /// The refresh counter.
    pub closed spec fn spec_key(&self) -> usize {
        self.1
    }

    /// Pair a value with an explicit refresh counter.
    pub fn new(value: T, key: usize) -> (r: Self)
        ensures
            r.spec_value() == value,
            r.spec_key() == key,
    {
        Keyed(value, key)
    }

    /// Replace the value, bumping the refresh counter.
    pub fn new_inc(&self, new_val: T) -> (r: Self)
        requires
            self.spec_key() < usize::MAX,
        ensures
            r.spec_value() == new_val,
            r.spec_key() == self.spec_key() + 1,
    {
        Keyed(new_val, self.1 + 1)
    }

    /// Take the held value.
    pub fn value(self) -> (r: T)
        ensures
            r == self.spec_value(),
    {
        self.0
    }

    /// Read the refresh counter.
    pub fn key(&self) -> (r: usize)
        ensures
            r == self.spec_key(),
    {
        self.1
    }
}

impl<T: Clone> Keyed<T> {
    /// Keep the value (cloned) but bump the refresh counter.
    pub fn new_inc_clone(&self) -> (r: Self)
        requires
            self.spec_key() < usize::MAX,
        ensures
            r.spec_key() == self.spec_key() + 1,
    {
        Keyed(self.0.clone(), self.1 + 1)
    }
}

/// Parsed form of a section schedule string.
///
/// `Good` holds the class period and a seven-slot week (index 0 is Sunday;
/// only indices 1 through 5 are ever set by the parser). `Bad` keeps the
/// original string untouched when it does not match the schedule grammar.
#[derive(Clone, Debug, PartialEq, Eq)]
pub enum SectionDataGuts {
    Bad(String),
    Good { days: [bool; 7], period: u64 },
}

/// A section schedule as carried inside a class entry.
#[derive(Clone, Debug, PartialEq, Eq)]
pub struct SectionData {
    pub guts: SectionDataGuts,
}

/// One class in the active-courses listing.
#[derive(Clone, Debug, PartialEq, Eq)]
pub struct ClassEntry {
    pub name: String,
    pub section: SectionData,
    pub picture: Vec<u8>,
    pub id: ClassID,
}

/// The kind of a single materials-page record.
#[derive(Clone, Copy, Debug, PartialEq, Eq, Structural)]
pub enum MaterialKind {
    Assignment,
    Discussion,
    File,
    Link,
    TestQuiz,
    Folder,
    Other,
}

/// One record extracted from a class materials page. `body` starts empty and
/// is filled by the per-item enrichment fetch; `due` defaults to a literal
/// placeholder when the source row carries no due date.
#[derive(Clone, Debug, PartialEq, Eq)]
pub struct MaterialEntry {
    pub id: String,
    pub kind: MaterialKind,
    pub title: String,
    pub body: String,
    pub due: String,
}

/// Contents of one class page item, by item kind.
#[derive(Clone, Debug, PartialEq, Eq)]
pub enum ClassItemEntryContents {
    Assignment { preview_text: String, due: DueDate },
    Discussion { preview_text: String },
    TestQuiz { due: DueDate },
    File {},
    Folder { contained: Option<Vec<ClassItemID>> },
    Other {},
}

/// One named item on a class page.
#[derive(Clone, Debug, PartialEq, Eq)]
pub struct ClassItemEntryData {
    pub name: String,
    pub contents: ClassItemEntryContents,
}

/// Everything known about one class page, keyed by item id.
#[derive(Clone, Debug)]
pub struct ClassPageData {
    pub id: ClassID,
    pub entry_id_map: HashMap<u64, ClassItemEntryData>,
    pub hierarchy: Vec<ClassItemEntryData>,
}

/// The data a client holds: the class listing and the materials of the class
/// being viewed, each behind a refresh counter.
#[derive(Clone, Debug, PartialEq)]
pub struct FrontendData {
    pub classes: Keyed<Option<Vec<ClassEntry>>>,
    pub curr_class_data: Keyed<Option<Vec<MaterialEntry>>>,
}

impl FrontendData {
    /// Both slots empty, refresh counters at zero.
    pub fn empty() -> (r: Self)
        ensures
            r.classes.spec_value() is None,
            r.classes.spec_key() == 0,
            r.curr_class_data.spec_value() is None,
            r.curr_class_data.spec_key() == 0,
    {
        FrontendData { classes: Keyed::new(None, 0), curr_class_data: Keyed::new(None, 0) }
    }
}

} // verus!
