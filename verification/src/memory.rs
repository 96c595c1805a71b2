//! The memory manager: segments of words behind handles, and the queue of
//! handles given up and waiting to be handed out again.

use crate::fault::Fault;
use std::collections::VecDeque;
use vstd::prelude::*;

verus! {

/// What the memory holds, as mathematics.
#[verifier::ext_equal]
pub struct Heap {
    /// The live handles and the words of the segment each one names.
    pub segments: Map<u32, Seq<u32>>,
    /// The handles given up, oldest first.
    pub retired: Seq<u32>,
    /// How many handles exist, live or retired, handle 0 included.
    pub handles: nat,
}

/// `n` words, all zero.
pub open spec fn zeros(n: nat) -> Seq<u32> {
    Seq::new(n, |i: int| 0u32)
}

impl Heap {
    /// The memory of a fresh machine: an empty program and nothing else.
    pub open spec fn initial() -> Heap {
        Heap { segments: Map::empty().insert(0u32, Seq::empty()), retired: Seq::empty(), handles: 1 }
    }

    /// The handle names a segment that can be read and written.
    #[verifier::inline]
    pub open spec fn live(self, handle: u32) -> bool {
        self.segments.dom().contains(handle)
    }

    /// An allocation can be served: a retired handle waits, or a handle
    /// that never existed still fits in 32 bits.
    pub open spec fn can_allocate(self) -> bool {
        self.retired.len() > 0 || self.handles < 0x1_0000_0000
    }

    /// The handle that the next allocation hands out: the oldest retired
    /// one, or, where none waits, the smallest that never existed.
    pub open spec fn next_handle(self) -> u32 {
        if self.retired.len() > 0 {
            self.retired[0]
        } else {
            self.handles as u32
        }
    }

    /// The heap after an allocation of `size` words: `next_handle` names a
    /// segment of `size` zeros, and no longer waits if it did.
    pub open spec fn allocate(self, size: u32) -> Heap {
        if self.retired.len() > 0 {
            Heap {
                segments: self.segments.insert(self.retired[0], zeros(size as nat)),
                retired: self.retired.drop_first(),
                handles: self.handles,
            }
        } else {
            Heap {
                segments: self.segments.insert(self.handles as u32, zeros(size as nat)),
                retired: self.retired,
                handles: self.handles + 1,
            }
        }
    }

    /// The heap after `handle` is given up: its segment is gone and the
    /// handle waits at the back of the queue.
    pub open spec fn free(self, handle: u32) -> Heap {
        Heap {
            segments: self.segments.remove(handle),
            retired: self.retired.push(handle),
            handles: self.handles,
        }
    }

    /// The heap after the segment of `handle` is replaced by `content`.
    pub open spec fn replace(self, handle: u32, content: Seq<u32>) -> Heap {
        Heap {
            segments: self.segments.insert(handle, content),
            retired: self.retired,
            handles: self.handles,
        }
    }

    /// The heap after `word` is stored at offset `index` of the segment of `handle`.
    pub open spec fn write(self, handle: u32, index: u32, word: u32) -> Heap {
        self.replace(handle, self.segments[handle].update(index as int, word))
    }

    /// Handle 0 is live; the handles that exist are exactly those below
    /// `handles`; each of them is either live or retired, never both, and
    /// no handle waits twice in the queue.
    pub open spec fn wf(self) -> bool {
        &&& 1 <= self.handles <= 0x1_0000_0000
        &&& self.live(0)
        &&& self.retired.no_duplicates()
        &&& forall|h: u32| #[trigger] self.live(h) ==> h < self.handles && !self.retired.contains(h)
        &&& forall|h: u32| #[trigger] self.retired.contains(h) ==> h < self.handles
        &&& forall|h: u32| h < self.handles && !self.retired.contains(h) ==> #[trigger] self.live(h)
    }
}

/// Allocate, abandon, allocate: where at most one handle waited before
/// the first allocation, the second allocation hands out the handle of the
/// first again, and the segment it names holds nothing but zeros, whatever
/// was stored in it before it was given up and whatever the two sizes.
pub proof fn lemma_handle_reused(heap: Heap, first: u32, content: Seq<u32>, second: u32)
    requires
        heap.wf(),
        heap.can_allocate(),
        heap.retired.len() <= 1,
    ensures
        ({
            let handle = heap.next_handle();
            let used = heap.allocate(first).replace(handle, content);
            let freed = used.free(handle);
            &&& handle != 0
            &&& used.live(handle)
            &&& freed.can_allocate()
            &&& freed.next_handle() == handle
            &&& freed.allocate(second).segments[handle] == zeros(second as nat)
        }),
{
}

/// The handle that an allocation hands out is not 0 and named no segment
/// before. Where no handle waited, it is the smallest handle that never
/// existed: every smaller one is live.
pub proof fn lemma_next_handle_is_unused(heap: Heap)
    requires
        heap.wf(),
        heap.can_allocate(),
    ensures
        heap.next_handle() != 0,
        !heap.live(heap.next_handle()),
        heap.retired.len() == 0 ==> forall|h: u32| h < heap.next_handle() ==> heap.live(h),
{
}

/// An allocation that can be served leaves a well-formed heap, in which
/// the handle handed out is live.
pub proof fn lemma_allocate_keeps_wf(heap: Heap, size: u32)
    requires
        heap.wf(),
        heap.can_allocate(),
    ensures
        heap.allocate(size).wf(),
        heap.allocate(size).live(heap.next_handle()),
{
    let after = heap.allocate(size);
    let taken = heap.next_handle();
    if heap.retired.len() > 0 {
        assert(heap.retired.contains(taken));
        // what waits afterwards is what waited before, but for the handle taken
        assert forall|h: u32| #[trigger] after.retired.contains(h) implies
            heap.retired.contains(h) && h != taken by {}
        assert forall|h: u32| heap.retired.contains(h) && h != taken implies
            #[trigger] after.retired.contains(h) by {
            let i = choose|i: int| 0 <= i < heap.retired.len() && heap.retired[i] == h;
            assert(after.retired[i - 1] == h);
        }
    }
}

/// Giving up a live handle other than 0 leaves a well-formed heap.
pub proof fn lemma_free_keeps_wf(heap: Heap, handle: u32)
    requires
        heap.wf(),
        handle != 0,
        heap.live(handle),
    ensures
        heap.free(handle).wf(),
{
    let after = heap.free(handle);
    // what waits afterwards is what waited before, and the handle given up
    assert(after.retired[heap.retired.len() as int] == handle);
    assert forall|h: u32| #[trigger] after.retired.contains(h) implies
        heap.retired.contains(h) || h == handle by {}
    assert forall|h: u32| heap.retired.contains(h) implies #[trigger] after.retired.contains(h) by {
        let i = choose|i: int| 0 <= i < heap.retired.len() && heap.retired[i] == h;
        assert(after.retired[i] == h);
    }
}

/// A new content for a live segment leaves a well-formed heap.
pub proof fn lemma_replace_keeps_wf(heap: Heap, handle: u32, content: Seq<u32>)
    requires
        heap.wf(),
        heap.live(handle),
    ensures
        heap.replace(handle, content).wf(),
{
}

/// The segments of one machine and the handles that name them.
#[derive(Debug)]
pub struct Memory {
    array0: Vec<u32>,
    arrays: Vec<Option<Vec<u32>>>,
    freelist: VecDeque<u32>,
}

impl View for Memory {
    type V = Heap;

    closed spec fn view(&self) -> Heap {
        Heap {
            segments: Map::new(
                |h: u32| h == 0 || (h < self.arrays@.len() && self.arrays@[h as int] is Some),
                |h: u32|
                    if h == 0 {
                        self.array0@
                    } else {
                        self.arrays@[h as int]->Some_0@
                    },
            ),
            retired: self.freelist@,
            handles: self.arrays@.len(),
        }
    }
}

impl Memory {
    /// The representation is sound: slot 0 of the table stands empty for
    /// the program, which is kept apart, and the heap that the memory
    /// shows is well-formed, so that the empty slots above slot 0 are
    /// exactly the handles in the queue.
    pub closed spec fn wf(&self) -> bool {
        &&& self.arrays@.len() >= 1
        &&& self.arrays@[0] is None
        &&& self@.wf()
    }

    /// A sound memory shows a well-formed heap.
    pub proof fn lemma_view_wf(&self)
        requires
            self.wf(),
        ensures
            self@.wf(),
    {
    }

    /// A memory that holds an empty program and no other segment.
    pub fn new() -> (memory: Memory)
        ensures
            memory.wf(),
            memory@ == Heap::initial(),
    {
        let mut arrays: Vec<Option<Vec<u32>>> = Vec::new();
        arrays.push(None);
        Memory { array0: Vec::new(), arrays, freelist: VecDeque::new() }
    }

    /// Tells whether a handle names a live segment.
    pub fn is_live(&self, handle: u32) -> (live: bool)
        requires
            self.wf(),
        ensures
            live == self@.live(handle),
    {
        if handle == 0 {
            true
        } else if (handle as usize) < self.arrays.len() {
            self.arrays[handle as usize].is_some()
        } else {
            false
        }
    }

    /// The words of a segment.
    ///
    /// Fails with `InvalidHandle` exactly where the handle is not live.
    pub fn segment(&self, handle: u32) -> (r: Result<&Vec<u32>, Fault>)
        requires
            self.wf(),
        ensures
            match r {
                Ok(words) => self@.live(handle) && words@ == self@.segments[handle],
                Err(fault) => !self@.live(handle) && fault == Fault::InvalidHandle,
            },
    {
        if !self.is_live(handle) {
            return Err(Fault::InvalidHandle);
        }
        Ok(self.words(handle))
    }

    /// The words of a segment, to be changed in place.
    ///
    /// Fails with `InvalidHandle` exactly where the handle is not live; the
    /// memory is then unchanged. Whatever the caller does to the words it
    /// is handed becomes the new content of that segment and of no other.
    pub fn segment_mut(&mut self, handle: u32) -> (r: Result<&mut Vec<u32>, Fault>)
        requires
            old(self).wf(),
        ensures
            match r {
                Ok(words) => {
                    &&& old(self)@.live(handle)
                    &&& words@ == old(self)@.segments[handle]
                    &&& final(self)@ =~= old(self)@.replace(handle, final(words)@)
                    &&& final(self).wf()
                },
                Err(fault) => {
                    &&& !old(self)@.live(handle)
                    &&& fault == Fault::InvalidHandle
                    &&& final(self)@ == old(self)@
                    &&& final(self).wf()
                },
            },
    {
        if !self.is_live(handle) {
            return Err(Fault::InvalidHandle);
        }
        Ok(self.words_mut(handle))
    }

    /// The words of a segment that is known to be live.
    pub(crate) fn words(&self, handle: u32) -> (words: &Vec<u32>)
        requires
            self.wf(),
            self@.live(handle),
        ensures
            words@ == self@.segments[handle],
    {
        if handle == 0 {
            &self.array0
        } else {
            self.arrays[handle as usize].as_ref().unwrap()
        }
    }

    /// The words of a segment that is known to be live, to be changed in place.
    pub(crate) fn words_mut(&mut self, handle: u32) -> (words: &mut Vec<u32>)
        requires
            old(self).wf(),
            old(self)@.live(handle),
        ensures
            words@ == old(self)@.segments[handle],
            final(self)@ =~= old(self)@.replace(handle, final(words)@),
            final(self).wf(),
    {
        if handle == 0 {
            &mut self.array0
        } else {
            self.arrays[handle as usize].as_mut().unwrap()
        }
    }

    /// Reads one word.
    ///
    /// Fails with `InvalidHandle` where the handle is not live, else with
    /// `OutOfBoundsIndex` where the offset is not inside the segment.
    pub fn read(&self, handle: u32, index: u32) -> (r: Result<u32, Fault>)
        requires
            self.wf(),
        ensures
            r == if !self@.live(handle) {
                Err(Fault::InvalidHandle)
            } else if index >= self@.segments[handle].len() {
                Err(Fault::OutOfBoundsIndex)
            } else {
                Ok(self@.segments[handle][index as int])
            },
    {
        if !self.is_live(handle) {
            return Err(Fault::InvalidHandle);
        }
        let words = self.words(handle);
        if (index as usize) < words.len() {
            Ok(words[index as usize])
        } else {
            Err(Fault::OutOfBoundsIndex)
        }
    }

    /// Stores one word.
    ///
    /// Fails with `InvalidHandle` where the handle is not live, else with
    /// `OutOfBoundsIndex` where the offset is not inside the segment; the
    /// memory is then unchanged.
    pub fn write(&mut self, handle: u32, index: u32, word: u32) -> (r: Result<(), Fault>)
        requires
            old(self).wf(),
        ensures
            final(self).wf(),
            r == if !old(self)@.live(handle) {
                Err(Fault::InvalidHandle)
            } else if index >= old(self)@.segments[handle].len() {
                Err(Fault::OutOfBoundsIndex)
            } else {
                Ok(())
            },
            final(self)@ =~= if r is Ok {
                old(self)@.write(handle, index, word)
            } else {
                old(self)@
            },
    {
        if !self.is_live(handle) {
            return Err(Fault::InvalidHandle);
        }
        let words = self.words_mut(handle);
        if (index as usize) < words.len() {
            words[index as usize] = word;
            Ok(())
        } else {
            Err(Fault::OutOfBoundsIndex)
        }
    }

    /// Replaces the whole content of a live segment.
    ///
    /// Fails with `InvalidHandle`, and changes nothing, where the handle is
    /// not live.
    pub fn replace_segment(&mut self, handle: u32, content: Vec<u32>) -> (r: Result<(), Fault>)
        requires
            old(self).wf(),
        ensures
            final(self).wf(),
            r == if old(self)@.live(handle) {
                Ok(())
            } else {
                Err(Fault::InvalidHandle)
            },
            final(self)@ =~= if r is Ok {
                old(self)@.replace(handle, content@)
            } else {
                old(self)@
            },
    {
        if !self.is_live(handle) {
            return Err(Fault::InvalidHandle);
        }
        let words = self.words_mut(handle);
        *words = content;
        Ok(())
    }

    /// Creates a segment of `size` zeros and returns its handle.
    ///
    /// The handle is the one that has waited longest in the queue of
    /// retired handles or, where the queue is empty, the smallest handle
    /// that never existed. Fails with `HandlesExhausted`, and changes
    /// nothing, only where the queue is empty and all 2^32 handles exist.
    pub fn allocate(&mut self, size: u32) -> (r: Result<u32, Fault>)
        requires
            old(self).wf(),
        ensures
            final(self).wf(),
            r == if old(self)@.can_allocate() {
                Ok(old(self)@.next_handle())
            } else {
                Err(Fault::HandlesExhausted)
            },
            final(self)@ =~= if r is Ok {
                old(self)@.allocate(size)
            } else {
                old(self)@
            },
    {
        proof {
            if old(self)@.can_allocate() {
                lemma_allocate_keeps_wf(old(self)@, size);
            }
        }
        match self.freelist.pop_front() {
            Some(handle) => {
                let words: Vec<u32> = vec![0u32; size as usize];
                assert(words@ =~= zeros(size as nat));
                self.arrays[handle as usize] = Some(words);
                assert(self@ =~= old(self)@.allocate(size));
                Ok(handle)
            },
            None => {
                let count: usize = self.arrays.len();
                if count > 0xFFFF_FFFF {
                    return Err(Fault::HandlesExhausted);
                }
                let words: Vec<u32> = vec![0u32; size as usize];
                assert(words@ =~= zeros(size as nat));
                self.arrays.push(Some(words));
                assert(self@ =~= old(self)@.allocate(size));
                Ok(count as u32)
            },
        }
    }

    /// Gives up a segment: its words are dropped and its handle joins the
    /// back of the queue of retired handles.
    ///
    /// Fails with `InvalidHandle`, and changes nothing, where the handle is
    /// 0 or not live.
    pub fn free(&mut self, handle: u32) -> (r: Result<(), Fault>)
        requires
            old(self).wf(),
        ensures
            final(self).wf(),
            r == if handle != 0 && old(self)@.live(handle) {
                Ok(())
            } else {
                Err(Fault::InvalidHandle)
            },
            final(self)@ =~= if r is Ok {
                old(self)@.free(handle)
            } else {
                old(self)@
            },
    {
        if handle == 0 || !self.is_live(handle) {
            return Err(Fault::InvalidHandle);
        }
        proof {
            lemma_free_keeps_wf(old(self)@, handle);
        }
        self.arrays[handle as usize] = None;
        self.freelist.push_back(handle);
        assert(self@ =~= old(self)@.free(handle));
        Ok(())
    }
}

} // verus!
