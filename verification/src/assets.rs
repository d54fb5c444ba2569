//! Names for assets and for their place on disk.

use vstd::prelude::*;

verus! {

/// Names one asset of the asset manager. Two handles name the same asset
/// exactly when their numbers are equal.
#[derive(Debug, Copy, Clone, PartialEq, Eq, Hash, Structural)]
pub struct AssetHandle {
    pub id: u64,
}

/// The path to an asset on disk, relative to the directory of the assets.
/// The path never leaves that directory.
#[derive(Debug, Clone, PartialEq, Eq, Hash)]
pub struct AssetPath {
    segments: Vec<String>,
}

/// A pair of paths that name a packed texture: its image and its atlas.
#[derive(Debug, Clone, PartialEq, Eq, Hash)]
pub struct PartitionedTextureAtlasPaths {
    pub texture: AssetPath,
    pub atlas: AssetPath,
}

/// The segment that stands for the directory itself.
pub open spec fn current_directory() -> Seq<char> {
    seq!['.']
}

/// The segment that stands for the directory above.
pub open spec fn parent_directory() -> Seq<char> {
    seq!['.', '.']
}

/// The segments of a path once `.` and `..` are carried out: `.` is left
/// out, and `..` takes back the segment before it.
pub open spec fn normalized(segments: Seq<Seq<char>>) -> Seq<Seq<char>>
    decreases segments.len(),
{
    if segments.len() == 0 {
        seq![]
    } else {
        let before = normalized(segments.drop_last());
        if segments.last() == current_directory() {
            before
        } else if segments.last() == parent_directory() {
            before.drop_last()
        } else {
            before.push(segments.last())
        }
    }
}

/// Whether a path leaves the directory of the assets: somewhere a `..` has
/// no segment before it to take back.
pub open spec fn escapes(segments: Seq<Seq<char>>) -> bool
    decreases segments.len(),
{
    if segments.len() == 0 {
        false
    } else {
        escapes(segments.drop_last()) || (segments.last() == parent_directory() && normalized(
            segments.drop_last(),
        ).len() == 0)
    }
}

/// The segments of a path written as one string, a slash between them.
pub open spec fn joined(segments: Seq<Seq<char>>) -> Seq<char>
    decreases segments.len(),
{
    if segments.len() == 0 {
        seq![]
    } else if segments.len() == 1 {
        segments[0]
    } else {
        joined(segments.drop_last()) + seq!['/'] + segments.last()
    }
}

/// The characters of each of `segments`.
pub open spec fn segment_texts(segments: Seq<String>) -> Seq<Seq<char>> {
    segments.map_values(|s: String| s@)
}

fn is_current_directory(segment: &str) -> (is: bool)
    ensures
        is == (segment@ == current_directory()),
{
    let is = segment.unicode_len() == 1 && segment.get_char(0) == '.';
    proof {
        if is {
            assert(segment@ =~= current_directory());
        }
    }
    is
}

fn is_parent_directory(segment: &str) -> (is: bool)
    ensures
        is == (segment@ == parent_directory()),
{
    let is = segment.unicode_len() == 2 && segment.get_char(0) == '.' && segment.get_char(1)
        == '.';
    proof {
        if is {
            assert(segment@ =~= parent_directory());
        }
    }
    is
}

impl View for AssetPath {
    type V = Seq<Seq<char>>;

    closed spec fn view(&self) -> Seq<Seq<char>> {
        segment_texts(self.segments@)
    }
}

impl AssetPath {
    /// Makes a path from a list of segments, carrying out `.` and `..`.
    /// A path that would leave the directory of the assets is refused.
    pub fn try_new(segments: Vec<String>) -> (path: Option<AssetPath>)
        ensures
            path.is_some() == !escapes(segment_texts(segments@)),
            path.is_some() ==> path.unwrap()@ == normalized(segment_texts(segments@)),
    {
        let ghost texts = segment_texts(segments@);
        let mut new_segments: Vec<String> = Vec::new();
        let mut i: usize = 0;
        proof {
            assert(texts.take(0) =~= Seq::<Seq<char>>::empty());
            assert(segment_texts(new_segments@) =~= Seq::<Seq<char>>::empty());
        }
        while i < segments.len()
            invariant
                i <= segments.len(),
                texts == segment_texts(segments@),
                !escapes(texts.take(i as int)),
                segment_texts(new_segments@) == normalized(texts.take(i as int)),
            decreases segments.len() - i,
        {
            proof {
                assert(texts.take(i as int + 1).drop_last() =~= texts.take(i as int));
                assert(texts.take(i as int + 1).last() == segments@[i as int]@);
            }
            let ghost held = new_segments@;
            let segment = &segments[i];
            if is_current_directory(segment.as_str()) {
            } else if is_parent_directory(segment.as_str()) {
                if new_segments.len() == 0 {
                    proof {
                        lemma_escape_stays(texts, i as int + 1);
                    }
                    return None;
                }
                new_segments.pop();
                proof {
                    assert(segment_texts(new_segments@) =~= segment_texts(held).drop_last());
                }
            } else {
                let copy = segment.clone();
                new_segments.push(copy);
                proof {
                    assert(segment_texts(new_segments@) =~= segment_texts(held).push(copy@));
                }
            }
            i += 1;
        }
        proof {
            assert(texts.take(i as int) =~= texts);
        }
        Some(AssetPath { segments: new_segments })
    }

    /// Makes a path from a list of segments, carrying out `.` and `..`.
    pub fn new(segments: Vec<String>) -> (path: AssetPath)
        requires
            !escapes(segment_texts(segments@)),
        ensures
            path@ == normalized(segment_texts(segments@)),
    {
        match AssetPath::try_new(segments) {
            Some(path) => path,
            None => AssetPath { segments: Vec::new() },
        }
    }

    /// The path as one string, relative to the directory of the assets, with
    /// a slash between its segments.
    pub fn to_path(&self) -> (path: String)
        ensures
            path@ == joined(self@),
    {
        let mut path = String::new();
        let mut i: usize = 0;
        proof {
            assert(self@.take(0) =~= Seq::<Seq<char>>::empty());
        }
        while i < self.segments.len()
            invariant
                i <= self.segments.len(),
                path@ == joined(self@.take(i as int)),
            decreases self.segments.len() - i,
        {
            proof {
                assert(self@.take(i as int + 1).drop_last() =~= self@.take(i as int));
                assert(self@.take(i as int + 1).last() == self.segments@[i as int]@);
                reveal_strlit("/");
                assert("/"@ =~= seq!['/']);
            }
            if i > 0 {
                path.append("/");
            }
            path.append(self.segments[i].as_str());
            proof {
                if i == 0 {
                    assert(self@.take(1)[0] == self.segments@[0]@);
                    assert(Seq::<char>::empty() + self.segments@[0]@ =~= self.segments@[0]@);
                }
            }
            i += 1;
        }
        proof {
            assert(self@.take(i as int) =~= self@);
        }
        path
    }

    /// How many segments the path has.
    pub fn len(&self) -> (count: usize)
        ensures
            count == self@.len(),
    {
        self.segments.len()
    }

    /// The segment at place `index`.
    pub fn segment(&self, index: usize) -> (segment: &str)
        requires
            index < self@.len(),
        ensures
            segment@ == self@[index as int],
    {
        self.segments[index].as_str()
    }
}

proof fn lemma_escape_stays(segments: Seq<Seq<char>>, n: int)
    requires
        0 <= n <= segments.len(),
        escapes(segments.take(n)),
    ensures
        escapes(segments),
    decreases segments.len() - n,
{
    if n < segments.len() {
        assert(segments.take(n + 1).drop_last() =~= segments.take(n));
        lemma_escape_stays(segments, n + 1);
    } else {
        assert(segments.take(n) =~= segments);
    }
}

} // verus!
