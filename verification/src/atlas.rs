//! The description of a packed texture: which named image lies where.

use vstd::prelude::*;

verus! {

/// A rectangle in texels. The origin is the top-left corner of the texture.
#[derive(Debug, Copy, Clone, PartialEq, Eq, Structural)]
pub struct Rect {
    /// Horizontal position the rectangle begins at.
    pub x: u32,
    /// Vertical position the rectangle begins at.
    pub y: u32,
    /// Width of the rectangle.
    pub w: u32,
    /// Height of the rectangle.
    pub h: u32,
}

/// Where one packed image lies in the texture, and how it was packed.
#[derive(Debug, Copy, Clone, PartialEq, Eq, Structural)]
pub struct TextureRegionInformation {
    /// The rectangle of the texture that holds the image.
    pub frame: Rect,
    /// True if the image was turned by a quarter, clockwise, when it was packed.
    pub rotated: bool,
    /// True if the image was trimmed when it was packed.
    pub trimmed: bool,
    /// Position of the trimmed image in the image as it was, and the size of
    /// the image as it was.
    pub source: Rect,
}

/// One named image of an atlas.
pub struct Frame {
    pub name: String,
    pub info: TextureRegionInformation,
}

/// The images packed into one texture, by name.
pub struct TextureAtlas {
    /// The width of the backing texture.
    pub width: u32,
    /// The height of the backing texture.
    pub height: u32,
    /// The images in the order in which they were recorded.
    pub frames: Vec<Frame>,
}

/// The images of `frames` by name; of two with one name the later one counts.
pub open spec fn frames_by_name(frames: Seq<Frame>) -> Map<Seq<char>, TextureRegionInformation>
    decreases frames.len(),
{
    if frames.len() == 0 {
        Map::empty()
    } else {
        frames_by_name(frames.drop_last()).insert(frames.last().name@, frames.last().info)
    }
}

impl TextureAtlas {
    /// The images of the atlas by name.
    pub open spec fn regions(&self) -> Map<Seq<char>, TextureRegionInformation> {
        frames_by_name(self.frames@)
    }

    /// An atlas for a texture of the given size, with no image yet.
    pub fn new(width: u32, height: u32) -> (atlas: TextureAtlas)
        ensures
            atlas.width == width,
            atlas.height == height,
            atlas.regions() == Map::<Seq<char>, TextureRegionInformation>::empty(),
    {
        TextureAtlas { width, height, frames: Vec::new() }
    }

    /// Records where the image `name` lies. An image recorded before under
    /// the same name is replaced.
    pub fn insert(&mut self, name: String, info: TextureRegionInformation)
        ensures
            final(self).regions() == old(self).regions().insert(name@, info),
            final(self).width == old(self).width,
            final(self).height == old(self).height,
    {
        let ghost before = self.frames@;
        self.frames.push(Frame { name, info });
        assert(self.frames@.drop_last() =~= before);
    }

    /// Where the image `name` lies, if the atlas has it.
    pub fn get(&self, name: &str) -> (found: Option<TextureRegionInformation>)
        ensures
            found.is_some() == self.regions().contains_key(name@),
            found.is_some() ==> found.unwrap() == self.regions()[name@],
    {
        let mut i: usize = self.frames.len();
        assert(self.frames@.take(i as int) =~= self.frames@);
        while i > 0
            invariant
                i <= self.frames.len(),
                self.regions().contains_key(name@) == frames_by_name(
                    self.frames@.take(i as int),
                ).contains_key(name@),
                self.regions().contains_key(name@) ==> self.regions()[name@] == frames_by_name(
                    self.frames@.take(i as int),
                )[name@],
            decreases i,
        {
            i -= 1;
            proof {
                let head = self.frames@.take(i as int + 1);
                assert(head.drop_last() =~= self.frames@.take(i as int));
                assert(head.last() == self.frames@[i as int]);
            }
            if str_equal(self.frames[i].name.as_str(), name) {
                return Some(self.frames[i].info);
            }
        }
        None
    }
}

/// Whether two strings hold the same characters.
pub fn str_equal(a: &str, b: &str) -> (same: bool)
    ensures
        same == (a@ == b@),
{
    let n = a.unicode_len();
    if n != b.unicode_len() {
        return false;
    }
    let mut i: usize = 0;
    while i < n
        invariant
            i <= n,
            n == a@.len(),
            n == b@.len(),
            forall|k: int| 0 <= k < i ==> a@[k] == b@[k],
        decreases n - i,
    {
        if a.get_char(i) != b.get_char(i) {
            return false;
        }
        i += 1;
    }
    assert(a@ =~= b@);
    true
}

} // verus!
