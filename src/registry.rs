//! The table of descriptors the loop waits on, each tagged with the source
//! it belongs to.
use vstd::prelude::*;

verus! {

/// The kinds of descriptor the loop waits on.
#[derive(Debug, Clone, Copy, PartialEq, Eq, Structural)]
pub enum SourceTag {
    /// The file-change notifications of the two level files.
    LevelFiles,
    /// The display-server connection.
    Display,
    /// A descriptor of the system message bus (color management).
    SystemBus,
    /// A descriptor of the session message bus (display configuration).
    SessionBus,
}

/// The ready descriptors among the first `n`, in slot order, with their
/// tags. A descriptor is ready when its returned events are positive.
pub open spec fn ready_upto(tags: Seq<SourceTag>, revents: Seq<i16>, n: nat) -> Seq<
    (usize, SourceTag),
>
    decreases n,
{
    if n == 0 {
        Seq::empty()
    } else {
        let before = ready_upto(tags, revents, (n - 1) as nat);
        if revents[n - 1] > 0 {
            before.push((((n - 1) as nat) as usize, tags[n - 1]))
        } else {
            before
        }
    }
}

/// The descriptor slots of the loop, in the order they are waited on.
pub struct WatchRegistry {
    tags: Vec<SourceTag>,
}

impl View for WatchRegistry {
    type V = Seq<SourceTag>;

    closed spec fn view(&self) -> Seq<SourceTag> {
        self.tags@
    }
}

impl WatchRegistry {
    /// A registry with no slots.
    pub fn new() -> (r: WatchRegistry)
        ensures
            r@ == Seq::<SourceTag>::empty(),
    {
        WatchRegistry { tags: Vec::new() }
    }

    /// Adds a slot for a descriptor of `tag` and returns its index.
    pub fn register(&mut self, tag: SourceTag) -> (r: usize)
        requires
            old(self)@.len() < usize::MAX,
        ensures
            r == old(self)@.len(),
            final(self)@ == old(self)@.push(tag),
    {
        let i = self.tags.len();
        self.tags.push(tag);
        i
    }

    /// The number of slots.
    pub fn len(&self) -> (r: usize)
        ensures
            r == self@.len(),
    {
        self.tags.len()
    }

    /// The tag of slot `i`, if there is one.
    pub fn tag_at(&self, i: usize) -> (r: Option<SourceTag>)
        ensures
            r == if i < self@.len() {
                Some(self@[i as int])
            } else {
                None::<SourceTag>
            },
    {
        if i < self.tags.len() {
            Some(self.tags[i])
        } else {
            None
        }
    }

    /// The slots that a wait reported ready, given the events returned for
    /// each slot, in slot order and with their tags.
    pub fn ready_slots(&self, revents: &[i16]) -> (r: Vec<(usize, SourceTag)>)
        requires
            revents@.len() == self@.len(),
        ensures
            r@ == ready_upto(self@, revents@, self@.len()),
    {
        let mut out: Vec<(usize, SourceTag)> = Vec::new();
        let mut i: usize = 0;
        while i < self.tags.len()
            invariant
                revents@.len() == self@.len(),
                i <= self@.len(),
                out@ == ready_upto(self@, revents@, i as nat),
            decreases self@.len() - i,
        {
            if revents[i] > 0 {
                out.push((i, self.tags[i]));
            }
            i += 1;
        }
        out
    }
}

} // verus!
