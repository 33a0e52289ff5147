//! The clipboard's local buffer: the most recently copied items, newest first,
//! with an optional bound on how many are kept.
use std::collections::VecDeque;

use vstd::prelude::*;
use vstd::std_specs::convert::IntoSpec;

verus! {

/// Something that was copied.
#[derive(Clone, Debug)]
pub enum ClipboardItem {
    Text { text: String },
    Entities {},
}

impl From<String> for ClipboardItem {
    fn from(value: String) -> (r: Self)
        ensures
            r.text_view() == Some(value@),
    {
        ClipboardItem::Text { text: value }
    }
}

impl vstd::std_specs::convert::FromSpecImpl<String> for ClipboardItem {
    open spec fn obeys_from_spec() -> bool {
        true
    }

    open spec fn from_spec(value: String) -> Self {
        ClipboardItem::Text { text: value }
    }
}

impl<'a> From<&'a str> for ClipboardItem {
    fn from(value: &'a str) -> (r: Self)
        ensures
            r.text_view() == Some(value@),
    {
        ClipboardItem::Text { text: value.to_owned() }
    }
}

impl<'a> vstd::std_specs::convert::FromSpecImpl<&'a str> for ClipboardItem {
    /// The item owns a copy of the text, a `String` that no spec expression
    /// builds from a `str`; `from`'s own contract says what the item holds.
    open spec fn obeys_from_spec() -> bool {
        false
    }

    open spec fn from_spec(value: &'a str) -> Self {
        ClipboardItem::Entities {}
    }
}

impl ClipboardItem {
    /// The text of a text item.
    pub open spec fn text_view(self) -> Option<Seq<char>> {
        match self {
            ClipboardItem::Text { text } => Some(text@),
            ClipboardItem::Entities {} => None,
        }
    }
}

/// What is kept after `item` is pushed in front of `items`: the newest
/// `limit` items when there is a limit, all of them otherwise.
pub open spec fn pushed(items: Seq<ClipboardItem>, item: ClipboardItem, limit: Option<usize>) -> Seq<
    ClipboardItem,
> {
    let all = seq![item] + items;
    match limit {
        Some(l) => if all.len() > l {
            all.take(l as int)
        } else {
            all
        },
        None => all,
    }
}

/// Items that can only be pasted inside the app, newest first.
#[derive(Clone, Debug)]
pub struct LocalBuffer {
    buffer: VecDeque<ClipboardItem>,
    limit: Option<usize>,
}

impl LocalBuffer {
    /// The buffered items, newest first.
    pub closed spec fn items(&self) -> Seq<ClipboardItem> {
        self.buffer@
    }

    /// The most items the buffer keeps, if bounded.
    pub closed spec fn limit(&self) -> Option<usize> {
        self.limit
    }

    /// The buffer's invariant: a bounded buffer holds at most its limit.
    pub open spec fn wf(&self) -> bool {
        self.limit() matches Some(l) ==> self.items().len() <= l
    }

    /// An empty buffer that keeps at most `limit` items, if given.
    pub fn new(limit: Option<usize>) -> (r: Self)
        ensures
            r.wf(),
            r.items() == Seq::<ClipboardItem>::empty(),
            r.limit() == limit,
    {
        LocalBuffer { buffer: VecDeque::new(), limit }
    }

    /// Puts `item` in front; when the limit is exceeded, the oldest items are
    /// dropped.
    pub fn push(&mut self, item: ClipboardItem)
        ensures
            final(self).wf(),
            final(self).limit() == old(self).limit(),
            final(self).items() == pushed(old(self).items(), item, old(self).limit()),
    {
        self.buffer.push_front(item);
        let ghost all = self.buffer@;
        if let Some(limit) = self.limit {
            while self.buffer.len() > limit
                invariant
                    self.limit == Some(limit),
                    all.len() > limit ==> self.buffer@.len() >= limit,
                    all.len() <= limit ==> self.buffer@.len() == all.len(),
                    self.buffer@ == all.take(self.buffer@.len() as int),
                    all.len() >= self.buffer@.len(),
                decreases self.buffer@.len(),
            {
                let dropped = self.buffer.pop_back();
                assert(dropped.is_some());
            }
            assert(self.buffer@ =~= pushed(old(self).items(), item, old(self).limit()));
        }
    }

    /// The newest item, if any.
    pub fn top(&self) -> (r: Option<&ClipboardItem>)
        ensures
            match r {
                Some(item) => self.items().len() > 0 && *item == self.items()[0],
                None => self.items().len() == 0,
            },
    {
        if self.buffer.len() > 0 {
            Some(&self.buffer[0])
        } else {
            None
        }
    }
}

impl Default for LocalBuffer {
    fn default() -> (r: Self)
        ensures
            r.wf(),
            r.items() == Seq::<ClipboardItem>::empty(),
            r.limit() == None::<usize>,
    {
        LocalBuffer::new(None)
    }
}

/// The app's clipboard. Items that cannot leave the app are kept in a local
/// buffer without a limit.
#[derive(Clone, Debug)]
pub struct Clipboard {
    local_buffer: LocalBuffer,
}

impl Clipboard {
    /// The buffered items, newest first.
    pub closed spec fn items(&self) -> Seq<ClipboardItem> {
        self.local_buffer.items()
    }

    pub closed spec fn limit(&self) -> Option<usize> {
        self.local_buffer.limit()
    }

    pub open spec fn wf(&self) -> bool {
        self.limit() matches Some(l) ==> self.items().len() <= l
    }

    /// Copies `item` to the clipboard.
    pub fn push<I: Into<ClipboardItem>>(&mut self, item: I)
        ensures
            final(self).wf(),
            final(self).limit() == old(self).limit(),
            exists|pushed_item: ClipboardItem|
                #![trigger pushed(old(self).items(), pushed_item, old(self).limit())]
                final(self).items() == pushed(old(self).items(), pushed_item, old(self).limit())
                    && (I::obeys_into_spec() ==> pushed_item == item.into_spec()),
    {
        let converted: ClipboardItem = item.into();
        self.local_buffer.push(converted);
        assert(self.items() == pushed(old(self).items(), converted, old(self).limit()));
    }

    /// The most recently copied item, if any.
    pub fn top(&self) -> (r: Option<&ClipboardItem>)
        ensures
            match r {
                Some(item) => self.items().len() > 0 && *item == self.items()[0],
                None => self.items().len() == 0,
            },
    {
        self.local_buffer.top()
    }
}

impl Default for Clipboard {
    fn default() -> (r: Self)
        ensures
            r.wf(),
            r.items() == Seq::<ClipboardItem>::empty(),
            r.limit() == None::<usize>,
    {
        Clipboard { local_buffer: LocalBuffer::default() }
    }
}

/// After a push, the pushed item is on top of the buffer, unless the buffer
/// keeps no items at all.
pub proof fn law_push_then_top(items: Seq<ClipboardItem>, item: ClipboardItem, limit: Option<usize>)
    requires
        limit != Some(0usize),
    ensures
        pushed(items, item, limit).len() > 0,
        pushed(items, item, limit)[0] == item,
{
}

/// A push never leaves more items than the limit, and keeps the items that
/// were there in their order behind the new one.
pub proof fn law_push_keeps_order(items: Seq<ClipboardItem>, item: ClipboardItem, limit: Option<usize>)
    ensures
        limit matches Some(l) ==> pushed(items, item, limit).len() <= l,
        forall|i: int|
            1 <= i < pushed(items, item, limit).len() ==> #[trigger] pushed(items, item, limit)[i]
                == items[i - 1],
{
}

} // verus!
