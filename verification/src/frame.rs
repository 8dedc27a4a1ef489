//! Frames: the unit of traffic that a relay moves.
use vstd::prelude::*;

verus! {

/// An ordered, multi-part message. The first part is the topic by which
/// subscribers filter; the relay itself looks at no part.
#[derive(Debug, PartialEq, Eq)]
pub struct Frame {
    pub parts: Vec<Vec<u8>>,
}

impl View for Frame {
    type V = Seq<Seq<u8>>;

    /// The parts of the frame, each as its bytes.
    open spec fn view(&self) -> Seq<Seq<u8>> {
        Seq::new(self.parts@.len(), |i: int| self.parts@[i]@)
    }
}

fn copy_bytes(bytes: &Vec<u8>) -> (copy: Vec<u8>)
    ensures
        copy@ == bytes@,
{
    let mut copy: Vec<u8> = Vec::new();
    let mut i: usize = 0;
    while i < bytes.len()
        invariant
            i <= bytes.len(),
            copy@ == bytes@.subrange(0, i as int),
        decreases bytes.len() - i,
    {
        copy.push(bytes[i]);
        i += 1;
    }
    copy
}

impl Clone for Frame {
    /// A frame with the same parts.
    fn clone(&self) -> (copy: Frame)
        ensures
            copy@ == self@,
    {
        let mut parts: Vec<Vec<u8>> = Vec::new();
        let mut i: usize = 0;
        while i < self.parts.len()
            invariant
                i <= self.parts.len(),
                parts@.len() == i,
                forall|j: int| 0 <= j < i ==> (#[trigger] parts@[j])@ == self.parts@[j]@,
            decreases self.parts.len() - i,
        {
            parts.push(copy_bytes(&self.parts[i]));
            i += 1;
        }
        Frame { parts }
    }
}

impl Frame {
    /// A frame made of `parts`, in their order.
    pub fn new(parts: Vec<Vec<u8>>) -> (frame: Frame)
        ensures
            frame.parts == parts,
            frame@.len() == parts@.len(),
            forall|i: int| 0 <= i < parts@.len() ==> frame@[i] == #[trigger] parts@[i]@,
    {
        Frame { parts }
    }

    /// The parts of the frame, taken out of it.
    pub fn into_parts(self) -> (parts: Vec<Vec<u8>>)
        ensures
            parts == self.parts,
    {
        self.parts
    }

    /// The topic part: the first part, where the frame has any.
    pub fn topic(&self) -> (topic: Option<&Vec<u8>>)
        ensures
            match topic {
                Some(t) => self@.len() > 0 && t@ == self@[0],
                None => self@.len() == 0,
            },
    {
        if self.parts.len() > 0 {
            Some(&self.parts[0])
        } else {
            None
        }
    }
}

} // verus!
