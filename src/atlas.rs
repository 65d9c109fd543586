//! A texture atlas: one image and the named frames cut from it.
use vstd::prelude::*;

verus! {

/// The `image` crate's `DynamicImage`, carried as an opaque value: nothing
/// here reads the pixels.
#[verifier::external_type_specification]
#[verifier::external_body]
pub struct ExDynamicImage(image::DynamicImage);

/// A named rectangle of the atlas image.
#[derive(Debug, Clone)]
pub struct Frame {
    pub name: String,
    pub x: u32,
    pub y: u32,
    pub w: u32,
    pub h: u32,
}

/// The atlas image and its frames, at most one per name.
#[derive(Debug)]
pub struct Atlas {
    /// The atlas image.
    pub image: image::DynamicImage,
    pub frames: Vec<Frame>,
    pub tile_size: u32,
    pub version: u32,
}

/// Index of the first frame named `name`, if any.
pub open spec fn index_of(frames: Seq<Frame>, name: Seq<char>) -> Option<int>
    decreases frames.len(),
{
    if frames.len() == 0 {
        None
    } else {
        match index_of(frames.drop_last(), name) {
            Some(i) => Some(i),
            None => if frames.last().name@ == name {
                Some(frames.len() - 1)
            } else {
                None
            },
        }
    }
}

proof fn lemma_index_of(frames: Seq<Frame>, name: Seq<char>)
    ensures
        index_of(frames, name) matches Some(i) ==> 0 <= i < frames.len() && frames[i].name@ == name
            && forall|j: int| 0 <= j < i ==> frames[j].name@ != name,
        index_of(frames, name) is None ==> forall|j: int| 0 <= j < frames.len() ==> frames[j].name@ != name,
    decreases frames.len(),
{
    if frames.len() > 0 {
        lemma_index_of(frames.drop_last(), name);
        assert forall|j: int| 0 <= j < frames.len() - 1 implies frames[j] == frames.drop_last()[j] by {}
    }
}

impl Atlas {
    /// No two frames share a name.
    pub open spec fn names_unique(&self) -> bool {
        forall|i: int, j: int|
            0 <= i < j < self.frames@.len() ==> (#[trigger] self.frames@[i]).name@ != (
            #[trigger] self.frames@[j]).name@
    }

    /// An atlas over `image` with no frames yet.
    pub fn new(image: image::DynamicImage, tile_size: u32, version: u32) -> (r: Atlas)
        ensures
            r.frames@.len() == 0,
            r.tile_size == tile_size,
            r.version == version,
            r.names_unique(),
    {
        Atlas { image, frames: Vec::new(), tile_size, version }
    }

    fn find(&self, name: &str) -> (r: Option<usize>)
        ensures
            r matches Some(i) ==> index_of(self.frames@, name@) == Some(i as int),
            r is None ==> index_of(self.frames@, name@) is None,
    {
        let key: String = name.to_owned();
        let mut i: usize = 0;
        while i < self.frames.len()
            invariant
                0 <= i <= self.frames@.len(),
                key@ == name@,
                index_of(self.frames@.take(i as int), name@) is None,
            decreases self.frames@.len() - i,
        {
            assert(self.frames@.take(i as int + 1).drop_last() =~= self.frames@.take(i as int));
            if self.frames[i].name == key {
                proof {
                    lemma_index_of(self.frames@, name@);
                    lemma_index_of(self.frames@.take(i as int), name@);
                    assert(index_of(self.frames@.take(i as int + 1), name@) == Some(i as int));
                    lemma_index_of(self.frames@.take(i as int + 1), name@);
                    if let Some(k) = index_of(self.frames@, name@) {
                        if k < i {
                            assert(self.frames@.take(i as int)[k] == self.frames@[k]);
                        }
                    }
                }
                return Some(i);
            }
            i += 1;
        }
        assert(self.frames@.take(self.frames@.len() as int) =~= self.frames@);
        None
    }

    /// The frame named `name`, if there is one.
    pub fn get_frame(&self, name: &str) -> (r: Option<&Frame>)
        ensures
            r matches Some(f) ==> exists|i: int|
                0 <= i < self.frames@.len() && self.frames@[i] == *f && f.name@ == name@,
            r is None <==> forall|i: int| 0 <= i < self.frames@.len() ==> self.frames@[i].name@ != name@,
    {
        proof {
            lemma_index_of(self.frames@, name@);
        }
        match self.find(name) {
            Some(i) => Some(&self.frames[i]),
            None => None,
        }
    }

    /// Whether a frame is named `name`.
    pub fn contains_frame(&self, name: &str) -> (r: bool)
        ensures
            r == exists|i: int| 0 <= i < self.frames@.len() && self.frames@[i].name@ == name@,
    {
        proof {
            lemma_index_of(self.frames@, name@);
        }
        self.find(name).is_some()
    }

    /// Number of frames.
    pub fn frame_count(&self) -> (r: usize)
        ensures
            r == self.frames@.len(),
    {
        self.frames.len()
    }

    /// The frames, in order.
    pub fn iter_frames(&self) -> (r: Vec<&Frame>)
        ensures
            r@.len() == self.frames@.len(),
            forall|i: int| 0 <= i < r@.len() ==> *r@[i] == self.frames@[i],
    {
        let mut out: Vec<&Frame> = Vec::new();
        let mut i: usize = 0;
        while i < self.frames.len()
            invariant
                0 <= i <= self.frames@.len(),
                out@.len() == i,
                forall|j: int| 0 <= j < i ==> *out@[j] == self.frames@[j],
            decreases self.frames@.len() - i,
        {
            out.push(&self.frames[i]);
            i += 1;
        }
        out
    }

    /// Adds `frame`, replacing the frame of the same name if there is one.
    pub fn insert_frame(&mut self, frame: Frame)
        requires
            old(self).names_unique(),
        ensures
            final(self).names_unique(),
            final(self).tile_size == old(self).tile_size,
            final(self).version == old(self).version,
            index_of(old(self).frames@, frame.name@) matches Some(i) ==> final(self).frames@
                == old(self).frames@.update(i, frame),
            index_of(old(self).frames@, frame.name@) is None ==> final(self).frames@
                == old(self).frames@.push(frame),
    {
        proof {
            lemma_index_of(self.frames@, frame.name@);
        }
        let ghost name = frame.name@;
        match self.find(frame.name.as_str()) {
            Some(i) => {
                self.frames.set(i, frame);
            },
            None => {
                self.frames.push(frame);
            },
        }
        assert forall|i: int, j: int|
            0 <= i < j < self.frames@.len() implies (#[trigger] self.frames@[i]).name@ != (
            #[trigger] self.frames@[j]).name@ by {
            if i < old(self).frames@.len() && j < old(self).frames@.len() && self.frames@[i]
                == old(self).frames@[i] && self.frames@[j] == old(self).frames@[j] {
            }
        }
    }
}

} // verus!
