//! Raster images by name.

use std::sync::Arc;
use vstd::prelude::*;

use crate::geom::error::texts;
use crate::names::{
    distinct_names, entry_at, entry_map, entry_prefix, has_name, place_of, NameMap,
};

verus! {

/// How the bytes of an image make up pixels.
#[derive(Clone, Copy, Debug, PartialEq, Eq, Structural)]
pub enum ImageFormat {
    /// Four bytes for each pixel: red, green, blue, alpha.
    Rgba8,
}

/// How the alpha of an image relates to its colours.
#[derive(Clone, Copy, Debug, PartialEq, Eq, Structural)]
pub enum ImageAlphaType {
    /// The colours are not multiplied by it.
    Alpha,
    /// The colours are multiplied by it.
    AlphaPremultiplied,
}

/// A decoded image. Copies share their pixels.
#[derive(Debug)]
pub struct Image {
    /// The pixels.
    pub data: Arc<Vec<u8>>,
    /// How the bytes make up pixels.
    pub format: ImageFormat,
    /// How alpha relates to the colours.
    pub alpha_type: ImageAlphaType,
    /// Pixels across.
    pub width: u32,
    /// Pixels down.
    pub height: u32,
}

impl Image {
    /// The same image again, sharing its pixels.
    pub fn shared(&self) -> (r: Image)
        ensures
            r == *self,
    {
        Image {
            data: self.data.clone(),
            format: self.format,
            alpha_type: self.alpha_type,
            width: self.width,
            height: self.height,
        }
    }
}

/// Images by name. An empty registry holds no memory. Copies share the pixels of
/// their images.
#[derive(Debug)]
pub struct ImageRegistry {
    images: Option<NameMap<Image>>,
}

impl View for ImageRegistry {
    type V = Map<Seq<char>, Image>;

    closed spec fn view(&self) -> Map<Seq<char>, Image> {
        match self.images {
            Some(m) => m@,
            None => Map::empty(),
        }
    }
}

impl Clone for Image {
    fn clone(&self) -> (r: Image)
        ensures
            r == *self,
    {
        self.shared()
    }
}

fn shared_images(images: &NameMap<Image>) -> (r: NameMap<Image>)
    ensures
        r@ == images@,
{
    let n: usize = images.len();
    let mut r: NameMap<Image> = NameMap::new();
    let ghost s = images.entry_seq();
    let mut i: usize = 0;
    proof {
        assert(s.take(0) =~= Seq::<(String, Image)>::empty());
        assert(entry_map(s.take(0)) =~= Map::<Seq<char>, Image>::empty());
    }
    while i < n
        invariant
            i <= n,
            n == s.len(),
            s == images.entry_seq(),
            distinct_names(s),
            r@ == entry_map(s.take(i as int)),
        decreases n - i,
    {
        proof {
            entry_prefix(s, i as int);
        }
        r.insert(images.name_at(i).clone(), images.value_at(i).shared());
        i = i + 1;
    }
    assert(s.take(n as int) =~= s);
    r
}

impl Clone for ImageRegistry {
    fn clone(&self) -> (r: ImageRegistry)
        ensures
            r@ == self@,
    {
        match &self.images {
            Some(m) => ImageRegistry { images: Some(shared_images(m)) },
            None => ImageRegistry { images: None },
        }
    }
}

impl Default for ImageRegistry {
    fn default() -> (r: ImageRegistry)
        ensures
            r@ == Map::<Seq<char>, Image>::empty(),
    {
        ImageRegistry::new()
    }
}

impl ImageRegistry {
    /// An empty registry.
    pub fn new() -> (r: ImageRegistry)
        ensures
            r@ == Map::<Seq<char>, Image>::empty(),
    {
        ImageRegistry { images: None }
    }

    /// The empty registry that every draw without images reads from. It is one
    /// and the same for the whole program.
    pub fn shared_empty() -> (r: &'static ImageRegistry)
        ensures
            r@ == Map::<Seq<char>, Image>::empty(),
    {
        &ImageRegistry { images: None }
    }

    /// Puts an image under a name and hands back what stood there before.
    pub fn insert(&mut self, name: String, image: Image) -> (r: Option<Image>)
        ensures
            final(self)@ == old(self)@.insert(name@, image),
            match r {
                Some(v) => old(self)@.contains_key(name@) && v == old(self)@[name@],
                None => !old(self)@.contains_key(name@),
            },
    {
        let mut images = match self.images.take() {
            Some(m) => m,
            None => NameMap::new(),
        };
        let displaced = images.insert(name, image);
        self.images = Some(images);
        displaced
    }

    /// The image under a name.
    pub fn get(&self, name: &str) -> (r: Option<&Image>)
        ensures
            match r {
                Some(v) => self@.contains_key(name@) && *v == self@[name@],
                None => !self@.contains_key(name@),
            },
    {
        match &self.images {
            Some(m) => m.get(name),
            None => None,
        }
    }

    /// Whether a name has an image.
    pub fn contains(&self, name: &str) -> (r: bool)
        ensures
            r == self@.contains_key(name@),
    {
        match &self.images {
            Some(m) => m.contains(name),
            None => false,
        }
    }

    /// Takes the image under a name out.
    pub fn remove(&mut self, name: &str) -> (r: Option<Image>)
        ensures
            final(self)@ == old(self)@.remove(name@),
            match r {
                Some(v) => old(self)@.contains_key(name@) && v == old(self)@[name@],
                None => !old(self)@.contains_key(name@),
            },
    {
        match self.images.take() {
            Some(m) => {
                let mut images = m;
                let taken = images.remove(name);
                self.images = Some(images);
                taken
            },
            None => {
                assert(old(self)@.remove(name@) =~= old(self)@);
                None
            },
        }
    }

    /// The names, each once, in no particular order.
    pub fn names(&self) -> (r: Vec<String>)
        ensures
            r@.len() == self@.dom().len(),
            texts(r@).no_duplicates(),
            forall|k: Seq<char>| #[trigger] texts(r@).contains(k) <==> self@.contains_key(k),
    {
        let mut r: Vec<String> = Vec::new();
        match &self.images {
            None => {
                proof {
                    assert forall|k: Seq<char>| #[trigger] texts(r@).contains(k)
                        <==> self@.contains_key(k) by {}
                }
                r
            },
            Some(m) => {
                let n: usize = m.len();
                let ghost s = m.entry_seq();
                let mut i: usize = 0;
                while i < n
                    invariant
                        i <= n,
                        n == s.len(),
                        s == m.entry_seq(),
                        r@.len() == i,
                        forall|j: int| 0 <= j < i ==> #[trigger] r@[j] == s[j].0,
                    decreases n - i,
                {
                    r.push(m.name_at(i).clone());
                    i = i + 1;
                }
                proof {
                    let t = texts(r@);
                    assert forall|a: int, b: int|
                        0 <= a < t.len() && 0 <= b < t.len() && a != b implies t[a] != t[b] by {
                        assert(r@[a] == s[a].0 && r@[b] == s[b].0);
                        if a < b {
                            assert(s[a].0@ != s[b].0@);
                        } else {
                            assert(s[b].0@ != s[a].0@);
                        }
                    }
                    assert forall|k: Seq<char>| #[trigger] t.contains(k) <==> self@.contains_key(
                        k,
                    ) by {
                        if t.contains(k) {
                            let w = choose|w: int| 0 <= w < t.len() && t[w] == k;
                            assert(r@[w] == s[w].0);
                            entry_at(s, w);
                        }
                        if self@.contains_key(k) {
                            assert(entry_map(s).contains_key(k));
                            assert(has_name(s, k));
                            let w = place_of(s, k);
                            assert(r@[w] == s[w].0);
                            assert(t[w] == k);
                        }
                    }
                }
                r
            },
        }
    }

    /// How many images there are.
    pub fn len(&self) -> (r: usize)
        ensures
            r == self@.dom().len(),
    {
        match &self.images {
            Some(m) => m.len(),
            None => 0,
        }
    }

    /// Whether there is no image.
    pub fn is_empty(&self) -> (r: bool)
        ensures
            r == (self@ == Map::<Seq<char>, Image>::empty()),
    {
        match &self.images {
            Some(m) => m.is_empty(),
            None => true,
        }
    }
}

} // verus!
