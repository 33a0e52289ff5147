//! Small utilities: a shared buffer that is reused when nobody else holds it,
//! path display relative to the home directory, and values that are either
//! borrowed or owned.
use std::ops::{Deref, DerefMut};
use std::sync::Arc;

use vstd::prelude::*;
use vstd::string::*;

verus! {

/// Calls `Arc::get_mut`: access to the value when no other `Arc` or `Weak`
/// shares the allocation, `None` otherwise. Which of the two comes back
/// depends on the program's state, not on the value, so it is not stated;
/// when access is given, writes through it are writes to the `Arc`'s value.
#[verifier::external_body]
fn arc_get_mut<T>(arc: &mut Arc<T>) -> (r: Option<&mut T>)
    ensures
        match r {
            Some(value) => *value == **old(arc) && **final(arc) == *final(value),
            None => *final(arc) == *old(arc),
        },
{
    Arc::get_mut(arc)
}

/// Calls `Arc::try_unwrap`: the value itself when no other `Arc` shares the
/// allocation, the `Arc` handed back otherwise. Which of the two comes back
/// depends on the program's state, not on the value, so it is not stated;
/// either way the value is the one the `Arc` held.
#[verifier::external_body]
fn arc_try_unwrap<T>(arc: Arc<T>) -> (r: Result<T, Arc<T>>)
    ensures
        match r {
            Ok(value) => value == *arc,
            Err(back) => *back == *arc,
        },
{
    Arc::try_unwrap(arc)
}

/// Puts `value` into a new `Arc` (`Arc::new`) held by `slot` and hands back
/// write access to it (`Arc::get_mut`, which gives access to an `Arc` that no
/// other `Arc` or `Weak` shares, as one just made is). Writes through the
/// result are writes to the new `Arc`'s value.
#[verifier::external_body]
fn arc_new_mut<T>(slot: &mut Option<Arc<T>>, value: T) -> (r: &mut T)
    ensures
        *r == value,
        match *final(slot) {
            Some(arc) => *arc == *final(r),
            None => false,
        },
{
    Arc::get_mut(slot.insert(Arc::new(value))).expect("a new Arc is shared with nobody")
}

/// Calls `Arc::clone`: another pointer to the same value.
#[verifier::external_body]
fn arc_share<T>(arc: &Arc<T>) -> (r: Arc<T>)
    ensures
        *r == **arc,
{
    Arc::clone(arc)
}

/// A value that is handed out as shared and reused for writing when no
/// handed out copy is still alive; otherwise a fresh value is allocated for
/// writing.
#[derive(Debug)]
pub struct ReusableSharedBuffer<T> {
    value: Option<Arc<T>>,
}

impl<T> ReusableSharedBuffer<T> {
    /// The buffer's invariant: it always holds a value.
    pub closed spec fn wf(&self) -> bool {
        self.value is Some
    }

    /// The current value.
    pub closed spec fn contents(&self) -> T {
        *self.value->0
    }

    /// A buffer holding `value`.
    pub fn new(value: T) -> (r: Self)
        ensures
            r.wf(),
            r.contents() == value,
    {
        ReusableSharedBuffer { value: Some(Arc::new(value)) }
    }

    /// A shared handle on the current value.
    pub fn get(&self) -> (r: Arc<T>)
        requires
            self.wf(),
        ensures
            *r == self.contents(),
    {
        arc_share(self.value.as_ref().unwrap())
    }

    /// Write access to the buffer's value. When another `Arc` or `Weak`
    /// shares the value (a handle from [`ReusableSharedBuffer::get`] is still
    /// alive), the value is replaced by `allocate()` first and the guard says
    /// it was reallocated; otherwise the current value itself is written (it
    /// is moved into a new `Arc`, its own allocations kept) and `allocate` is
    /// not called.
    pub fn write<F: FnOnce() -> T>(&mut self, allocate: F) -> (r: ReusableSharedBufferGuard<'_, T>)
        requires
            old(self).wf(),
            allocate.requires(()),
        ensures
            if r.reallocated() {
                allocate.ensures((), r.value())
            } else {
                r.value() == old(self).contents()
            },
            final(self).wf(),
            final(self).contents() == *final(r.value_ref()),
    {
        let mut current = self.value.take().unwrap();
        if arc_get_mut(&mut current).is_some() {
            match arc_try_unwrap(current) {
                Ok(value) => {
                    let value = arc_new_mut(&mut self.value, value);
                    return ReusableSharedBufferGuard { value, reallocated: false };
                },
                Err(_shared) => {},
            }
        }
        let value = arc_new_mut(&mut self.value, allocate());
        ReusableSharedBufferGuard { value, reallocated: true }
    }
}

impl<T: Default> Default for ReusableSharedBuffer<T> {
    fn default() -> (r: Self)
        ensures
            r.wf(),
    {
        ReusableSharedBuffer::new(T::default())
    }
}

/// Write access to a [`ReusableSharedBuffer`]'s value.
#[derive(Debug)]
pub struct ReusableSharedBufferGuard<'a, T> {
    value: &'a mut T,
    reallocated: bool,
}

impl<'a, T> ReusableSharedBufferGuard<'a, T> {
    /// The value being written.
    pub closed spec fn value(&self) -> T {
        *self.value
    }

    /// The borrow of the value.
    pub closed spec fn value_ref(&self) -> &'a mut T {
        self.value
    }

    pub closed spec fn reallocated_spec(&self) -> bool {
        self.reallocated
    }

    /// Whether the value was freshly allocated rather than reused.
    #[verifier::when_used_as_spec(reallocated_spec)]
    pub fn reallocated(&self) -> (r: bool)
        ensures
            r == self.reallocated_spec(),
    {
        self.reallocated
    }
}

impl<'a, T> Deref for ReusableSharedBufferGuard<'a, T> {
    type Target = T;

    fn deref(&self) -> (r: &T)
        ensures
            *r == self.value(),
    {
        &*self.value
    }
}

impl<'a, T> DerefMut for ReusableSharedBufferGuard<'a, T> {
    fn deref_mut(&mut self) -> (r: &mut T)
        ensures
            *r == old(self).value(),
            final(self).value() == *final(r),
    {
        &mut *self.value
    }
}

/// What `std::path::Path::strip_prefix` gives for `path` and `base`: the
/// rest of `path` after the components of `base`, if `path` starts with them.
pub uninterp spec fn path_without_prefix(path: Seq<char>, base: Seq<char>) -> Option<Seq<char>>;

/// Calls `std::path::Path::strip_prefix` and views the rest as a `str`
/// (`Path::to_str`, which cannot fail for a part of a `str`).
#[verifier::external_body]
fn strip_path_prefix<'p>(path: &'p str, base: &str) -> (r: Option<&'p str>)
    ensures
        match r {
            Some(rest) => path_without_prefix(path@, base@) == Some(rest@),
            None => path_without_prefix(path@, base@) is None,
        },
{
    match std::path::Path::new(path).strip_prefix(base) {
        Ok(rest) => rest.to_str(),
        Err(_) => None,
    }
}

/// How a path is shown: below the home directory as `~/` and the rest of the
/// path, otherwise as it is.
pub open spec fn displayed_path(path: Seq<char>, home: Option<Seq<char>>) -> Seq<char> {
    match home {
        Some(h) => match path_without_prefix(path, h) {
            Some(rest) => "~/"@ + rest,
            None => path,
        },
        None => path,
    }
}

/// A path to be shown to users.
#[derive(Clone, Copy, Debug)]
pub struct FormatPath<P> {
    pub path: P,
}

/// Wraps `path` for display.
pub fn format_path<P>(path: P) -> (r: FormatPath<P>)
    ensures
        r.path == path,
{
    FormatPath { path }
}

impl<'p> FormatPath<&'p str> {
    /// The path as shown to users, given the home directory (if known).
    pub fn display_with_home(&self, home: Option<&str>) -> (r: String)
        ensures
            r@ == displayed_path(self.path@, match home {
                Some(h) => Some(h@),
                None => None,
            }),
    {
        if let Some(home) = home {
            if let Some(rest) = strip_path_prefix(self.path, home) {
                let mut shown = String::from_str("~/");
                proof {
                    reveal_strlit("~/");
                }
                shown.append(rest);
                return shown;
            }
        }
        String::from_str(self.path)
    }
}

/// A value that is either borrowed or owned.
#[derive(Clone, Copy, Debug)]
pub enum Boo<'a, T> {
    Borrowed(&'a T),
    Owned(T),
}

impl<'a, T> Boo<'a, T> {
    /// The value, however it is held.
    pub open spec fn value(&self) -> T {
        match self {
            Boo::Borrowed(value) => **value,
            Boo::Owned(value) => *value,
        }
    }

    /// A reference to the value.
    pub fn as_ref(&self) -> (r: &T)
        ensures
            *r == self.value(),
    {
        match self {
            Boo::Borrowed(value) => value,
            Boo::Owned(value) => value,
        }
    }
}

impl<'a, T> Deref for Boo<'a, T> {
    type Target = T;

    fn deref(&self) -> (r: &T)
        ensures
            *r == self.value(),
    {
        self.as_ref()
    }
}

impl<'a, T> From<&'a T> for Boo<'a, T> {
    fn from(value: &'a T) -> (r: Self)
        ensures
            r == Boo::Borrowed(value),
    {
        Boo::Borrowed(value)
    }
}

impl<'a, T> vstd::std_specs::convert::FromSpecImpl<&'a T> for Boo<'a, T> {
    open spec fn obeys_from_spec() -> bool {
        true
    }

    open spec fn from_spec(value: &'a T) -> Self {
        Boo::Borrowed(value)
    }
}

impl<'a, T> From<T> for Boo<'a, T> {
    fn from(value: T) -> (r: Self)
        ensures
            r == Boo::<'a, T>::Owned(value),
    {
        Boo::Owned(value)
    }
}

impl<'a, T> vstd::std_specs::convert::FromSpecImpl<T> for Boo<'a, T> {
    open spec fn obeys_from_spec() -> bool {
        true
    }

    open spec fn from_spec(value: T) -> Self {
        Boo::Owned(value)
    }
}

impl<'a, T: Default> Default for Boo<'a, T> {
    fn default() -> (r: Self)
        ensures
            r matches Boo::Owned(value) && call_ensures(T::default, (), value),
    {
        Boo::Owned(T::default())
    }
}

/// A value that is either mutably borrowed or owned.
#[derive(Debug)]
pub enum Moo<'a, T> {
    Mut(&'a mut T),
    Owned(T),
}

impl<'a, T> Moo<'a, T> {
    /// The value, however it is held.
    pub open spec fn value(&self) -> T {
        match self {
            Moo::Mut(value) => **value,
            Moo::Owned(value) => *value,
        }
    }

    /// A reference to the value.
    pub fn as_ref(&self) -> (r: &T)
        ensures
            *r == self.value(),
    {
        match self {
            Moo::Mut(value) => value,
            Moo::Owned(value) => value,
        }
    }

    /// A mutable reference to the value; what is written through it is the
    /// value afterwards.
    pub fn as_mut(&mut self) -> (r: &mut T)
        ensures
            *r == old(self).value(),
            final(self).value() == *final(r),
    {
        match self {
            Moo::Mut(value) => value,
            Moo::Owned(value) => value,
        }
    }
}

impl<'a, T> Deref for Moo<'a, T> {
    type Target = T;

    fn deref(&self) -> (r: &T)
        ensures
            *r == self.value(),
    {
        self.as_ref()
    }
}

impl<'a, T> DerefMut for Moo<'a, T> {
    fn deref_mut(&mut self) -> (r: &mut T)
        ensures
            *r == old(self).value(),
            final(self).value() == *final(r),
    {
        self.as_mut()
    }
}

impl<'a, T> From<&'a mut T> for Moo<'a, T> {
    fn from(value: &'a mut T) -> (r: Self)
        ensures
            r matches Moo::Mut(inner) && *inner == *old(value) && *final(inner) == *final(value),
    {
        Moo::Mut(value)
    }
}

impl<'a, T> vstd::std_specs::convert::FromSpecImpl<&'a mut T> for Moo<'a, T> {
    /// Equality of mutable borrows says more than the conversion promises;
    /// `from`'s own contract says what it does.
    open spec fn obeys_from_spec() -> bool {
        false
    }

    open spec fn from_spec(value: &'a mut T) -> Self {
        Moo::Mut(value)
    }
}

impl<'a, T> From<T> for Moo<'a, T> {
    fn from(value: T) -> (r: Self)
        ensures
            r == Moo::<'a, T>::Owned(value),
    {
        Moo::Owned(value)
    }
}

impl<'a, T> vstd::std_specs::convert::FromSpecImpl<T> for Moo<'a, T> {
    open spec fn obeys_from_spec() -> bool {
        true
    }

    open spec fn from_spec(value: T) -> Self {
        Moo::Owned(value)
    }
}

impl<'a, T: Default> Default for Moo<'a, T> {
    fn default() -> (r: Self)
        ensures
            r matches Moo::Owned(value) && call_ensures(T::default, (), value),
    {
        Moo::Owned(T::default())
    }
}

} // verus!
