//! Nodes and arrows: the records a checkpoint is made of.

use crate::geometry::{Rect, Val};
use crate::seq_util::lemma_filter_no_duplicates;
use crate::text::{apply_key, typed, Key};
use vstd::prelude::*;

verus! {

/// A colour with straight alpha, eight bits per channel.
#[derive(Clone, Copy, Debug, PartialEq, Eq, Structural)]
pub struct Rgba {
    pub r: u8,
    pub g: u8,
    pub b: u8,
    pub a: u8,
}

/// Where a node's text sits inside the node.
#[derive(Clone, Copy, Debug, PartialEq, Eq, Structural)]
pub enum TextPos {
    Center,
    BottomRight,
    BottomLeft,
    TopRight,
    TopLeft,
}

/// The side of a node that an arrow attaches to.
#[derive(Clone, Copy, Debug, PartialEq, Eq, Structural)]
pub enum ArrowConnectPos {
    Top,
    Left,
    Bottom,
    Right,
}

/// How an arrow is drawn.
#[derive(Clone, Copy, Debug, PartialEq, Eq, Structural)]
pub enum ArrowType {
    Line,
    Arrow,
    DoubleArrow,
    ParallelLine,
    ParallelArrow,
    ParallelDoubleArrow,
}

/// One end of an arrow: a node and the side it attaches to.
#[derive(Clone, Copy, Debug, PartialEq, Eq, Structural)]
pub struct ArrowEnd {
    pub node: u64,
    pub pos: ArrowConnectPos,
}

/// A connection between two nodes.
#[derive(Clone, Copy, Debug, PartialEq, Eq, Structural)]
pub struct Arrow {
    pub id: u64,
    pub from: ArrowEnd,
    pub to: ArrowEnd,
    pub arrow_type: ArrowType,
}

/// Number of bytes per pixel of a pasted image.
pub const BYTES_PER_PIXEL: usize = 4;

/// Mathematical model of a pasted image.
pub struct ImageView {
    pub width: u32,
    pub height: u32,
    pub rgba: Seq<u8>,
}

impl ImageView {
    /// The pixel buffer covers the whole image.
    pub open spec fn wf(self) -> bool {
        BYTES_PER_PIXEL * self.width * self.height <= self.rgba.len()
    }
}

/// Pixels of a pasted image, four bytes per pixel, row by row.
#[derive(Debug)]
pub struct ImageData {
    width: u32,
    height: u32,
    rgba: Vec<u8>,
}

impl View for ImageData {
    type V = ImageView;

    closed spec fn view(&self) -> ImageView {
        ImageView { width: self.width, height: self.height, rgba: self.rgba@ }
    }
}

/// Whether a pixel buffer of `len` bytes can hold an image of the given
/// dimensions on this machine: the length of one row and the length of the
/// whole image can be counted in a `usize`, and the buffer is that long.
pub open spec fn image_fits(width: u32, height: u32, len: nat) -> bool {
    &&& BYTES_PER_PIXEL * width <= usize::MAX
    &&& BYTES_PER_PIXEL * width * height <= usize::MAX
    &&& BYTES_PER_PIXEL * width * height <= len
}

/// `image::RgbaImage::from_raw`, with the accepted image turned back into
/// its buffer by `into_raw`: the bytes are accepted exactly when they cover
/// `width * height` pixels of four bytes (where four times the width, and
/// that times the height, do not overflow the machine's `usize`), and an
/// accepted buffer is kept as it came, spare bytes included.
#[verifier::external_body]
fn rgba_from_raw(width: u32, height: u32, bytes: Vec<u8>) -> (r: Option<Vec<u8>>)
    ensures
        r is Some <==> image_fits(width, height, bytes@.len()),
        r is Some ==> r->0@ == bytes@,
{
    match image::RgbaImage::from_raw(width, height, bytes) {
        Some(img) => Some(img.into_raw()),
        None => None,
    }
}

impl ImageData {
    /// Builds an image from raw pixels; `None` when the bytes do not cover
    /// the stated dimensions.
    pub fn from_raw(width: u32, height: u32, bytes: Vec<u8>) -> (r: Option<ImageData>)
        ensures
            r is Some <==> image_fits(width, height, bytes@.len()),
            r is Some ==> r->0@ == (ImageView { width, height, rgba: bytes@ }),
            r is Some ==> r->0@.wf(),
    {
        match rgba_from_raw(width, height, bytes) {
            Some(rgba) => Some(ImageData { width, height, rgba }),
            None => None,
        }
    }

    pub fn width(&self) -> (r: u32)
        ensures
            r == self@.width,
    {
        self.width
    }

    pub fn height(&self) -> (r: u32)
        ensures
            r == self@.height,
    {
        self.height
    }

    pub fn pixels(&self) -> (r: &Vec<u8>)
        ensures
            r@ == self@.rgba,
    {
        &self.rgba
    }
}

impl Clone for ImageData {
    fn clone(&self) -> (r: Self)
        ensures
            r@ == self@,
    {
        ImageData { width: self.width, height: self.height, rgba: self.rgba.clone() }
    }
}

/// The views of a sequence of strings.
pub open spec fn strings_view(v: Seq<String>) -> Seq<Seq<char>> {
    v.map_values(|s: String| s@)
}

/// Mathematical model of a node.
pub struct NodeView {
    pub id: u64,
    pub rect: Rect,
    pub image: Option<ImageView>,
    pub text: Seq<char>,
    pub text_pos: TextPos,
    pub bg_color: Rgba,
    pub tags: Seq<Seq<char>>,
    pub z_index: i32,
}

impl NodeView {
    /// A plain node: no image, no text, no tags, white, on the base layer.
    pub open spec fn plain(id: u64, rect: Rect) -> NodeView {
        NodeView {
            id,
            rect,
            image: None,
            text: Seq::empty(),
            text_pos: TextPos::Center,
            bg_color: Rgba { r: 255, g: 255, b: 255, a: 255 },
            tags: Seq::empty(),
            z_index: 0,
        }
    }

    /// A node's image, if any, covers its dimensions, and no tag occurs
    /// twice.
    pub open spec fn wf(self) -> bool {
        &&& self.image is Some ==> self.image->0.wf()
        &&& self.tags.no_duplicates()
    }

    /// The tags with `tag` added at the end, unless it is already there.
    pub open spec fn with_tag(self, tag: Seq<char>) -> NodeView {
        if self.tags.contains(tag) {
            self
        } else {
            NodeView { tags: self.tags.push(tag), ..self }
        }
    }

    /// The tags without `tag`, the others in their order.
    pub open spec fn without_tag(self, tag: Seq<char>) -> NodeView {
        NodeView { tags: self.tags.filter(|t: Seq<char>| t != tag), ..self }
    }
}

/// A rectangle or pasted image on the canvas.
#[derive(Debug)]
pub struct Node {
    id: u64,
    rect: Rect,
    image: Option<ImageData>,
    text: String,
    text_pos: TextPos,
    bg_color: Rgba,
    tags: Vec<String>,
    z_index: i32,
}

impl View for Node {
    type V = NodeView;

    closed spec fn view(&self) -> NodeView {
        NodeView {
            id: self.id,
            rect: self.rect,
            image: match self.image {
                Some(img) => Some(img@),
                None => None,
            },
            text: self.text@,
            text_pos: self.text_pos,
            bg_color: self.bg_color,
            tags: strings_view(self.tags@),
            z_index: self.z_index,
        }
    }
}

impl Node {
    /// A plain node with the given identity and geometry.
    pub fn new(id: u64, rect: Rect) -> (r: Node)
        ensures
            r@ == NodeView::plain(id, rect),
            r@.wf(),
    {
        let r = Node {
            id,
            rect,
            image: None,
            text: String::new(),
            text_pos: TextPos::Center,
            bg_color: Rgba { r: 255, g: 255, b: 255, a: 255 },
            tags: Vec::new(),
            z_index: 0,
        };
        assert(r@.tags =~= Seq::<Seq<char>>::empty());
        r
    }

    /// A node that shows `image` at its natural size, one unit per pixel,
    /// with its lower left corner at the origin.
    pub fn with_image(id: u64, image: ImageData) -> (r: Node)
        requires
            image@.wf(),
        ensures
            r@ == (NodeView {
                image: Some(image@),
                ..NodeView::plain(id, image_rect(image@.width, image@.height))
            }),
            r@.wf(),
    {
        let w: i32 = if image.width > 0x7fff_ffff {
            0x7fff_ffff
        } else {
            image.width as i32
        };
        let h: i32 = if image.height > 0x7fff_ffff {
            0x7fff_ffff
        } else {
            image.height as i32
        };
        let rect = Rect { left: Val::Px(0), bottom: Val::Px(0), width: Val::Px(w), height: Val::Px(h) };
        let r = Node {
            id,
            rect,
            image: Some(image),
            text: String::new(),
            text_pos: TextPos::Center,
            bg_color: Rgba { r: 255, g: 255, b: 255, a: 255 },
            tags: Vec::new(),
            z_index: 0,
        };
        assert(r@.tags =~= Seq::<Seq<char>>::empty());
        r
    }

    pub fn id(&self) -> (r: u64)
        ensures
            r == self@.id,
    {
        self.id
    }

    pub fn rect(&self) -> (r: Rect)
        ensures
            r == self@.rect,
    {
        self.rect
    }

    pub fn image(&self) -> (r: &Option<ImageData>)
        ensures
            r is Some <==> self@.image is Some,
            r is Some ==> r->0@ == self@.image->0,
    {
        &self.image
    }

    pub fn text(&self) -> (r: &String)
        ensures
            r@ == self@.text,
    {
        &self.text
    }

    pub fn text_pos(&self) -> (r: TextPos)
        ensures
            r == self@.text_pos,
    {
        self.text_pos
    }

    pub fn bg_color(&self) -> (r: Rgba)
        ensures
            r == self@.bg_color,
    {
        self.bg_color
    }

    pub fn tags(&self) -> (r: &Vec<String>)
        ensures
            strings_view(r@) == self@.tags,
    {
        &self.tags
    }

    pub fn z_index(&self) -> (r: i32)
        ensures
            r == self@.z_index,
    {
        self.z_index
    }

    pub fn set_rect(&mut self, rect: Rect)
        ensures
            final(self)@ == (NodeView { rect, ..old(self)@ }),
    {
        self.rect = rect;
    }

    pub fn set_text(&mut self, text: String)
        ensures
            final(self)@ == (NodeView { text: text@, ..old(self)@ }),
    {
        self.text = text;
    }

    pub fn set_text_pos(&mut self, text_pos: TextPos)
        ensures
            final(self)@ == (NodeView { text_pos, ..old(self)@ }),
    {
        self.text_pos = text_pos;
    }

    pub fn set_bg_color(&mut self, bg_color: Rgba)
        ensures
            final(self)@ == (NodeView { bg_color, ..old(self)@ }),
    {
        self.bg_color = bg_color;
    }

    pub fn set_z_index(&mut self, z_index: i32)
        ensures
            final(self)@ == (NodeView { z_index, ..old(self)@ }),
    {
        self.z_index = z_index;
    }

    /// Applies one keystroke to the node's text.
    pub fn type_key(&mut self, key: Key)
        ensures
            final(self)@ == (NodeView { text: typed(old(self)@.text, key), ..old(self)@ }),
    {
        apply_key(&mut self.text, key);
    }

    /// Whether the node carries `tag`.
    pub fn has_tag(&self, tag: &String) -> (r: bool)
        ensures
            r == self@.tags.contains(tag@),
    {
        let mut i: usize = 0;
        while i < self.tags.len()
            invariant
                i <= self.tags@.len(),
                forall|k: int| 0 <= k < i ==> strings_view(self.tags@)[k] != tag@,
            decreases self.tags@.len() - i,
        {
            if self.tags[i] == *tag {
                assert(strings_view(self.tags@)[i as int] == tag@);
                return true;
            }
            i += 1;
        }
        false
    }

    /// Adds `tag` after the tags already there; a tag that the node carries
    /// is not added again. Returns whether the tag was added.
    pub fn add_tag(&mut self, tag: String) -> (added: bool)
        requires
            old(self)@.wf(),
        ensures
            added == !old(self)@.tags.contains(tag@),
            final(self)@ == old(self)@.with_tag(tag@),
            final(self)@.wf(),
    {
        if self.has_tag(&tag) {
            false
        } else {
            self.tags.push(tag);
            assert(strings_view(self.tags@) =~= strings_view(old(self).tags@).push(tag@));
            true
        }
    }

    /// Removes `tag`; the other tags keep their order. Returns whether the
    /// node carried it.
    pub fn remove_tag(&mut self, tag: &String) -> (removed: bool)
        requires
            old(self)@.wf(),
        ensures
            removed == old(self)@.tags.contains(tag@),
            final(self)@ == old(self)@.without_tag(tag@),
            final(self)@.wf(),
    {
        let ghost keep = |t: Seq<char>| t != tag@;
        let ghost before = strings_view(self.tags@);
        let mut kept: Vec<String> = Vec::new();
        let mut removed = false;
        let mut i: usize = 0;
        while i < self.tags.len()
            invariant
                i <= self.tags@.len(),
                self.tags@ == old(self).tags@,
                before == strings_view(self.tags@),
                keep == (|t: Seq<char>| t != tag@),
                strings_view(kept@) == before.subrange(0, i as int).filter(keep),
                removed == before.subrange(0, i as int).contains(tag@),
            decreases self.tags@.len() - i,
        {
            let ghost prefix = before.subrange(0, i as int);
            let ghost next = before.subrange(0, i as int + 1);
            proof {
                assert(next =~= prefix.push(before[i as int]));
                assert(next.drop_last() =~= prefix);
                reveal(Seq::filter);
            }
            if self.tags[i] == *tag {
                removed = true;
                assert(next.filter(keep) == prefix.filter(keep));
                assert(next[i as int] == tag@);
            } else {
                kept.push(self.tags[i].clone());
                assert(strings_view(kept@) =~= prefix.filter(keep).push(before[i as int]));
                assert(next.filter(keep) == prefix.filter(keep).push(before[i as int]));
                assert(next.contains(tag@) == prefix.contains(tag@)) by {
                    if prefix.contains(tag@) {
                        let k = choose|k: int| 0 <= k < prefix.len() && prefix[k] == tag@;
                        assert(next[k] == tag@);
                    }
                    if next.contains(tag@) {
                        let k = choose|k: int| 0 <= k < next.len() && next[k] == tag@;
                        assert(prefix[k] == tag@);
                    }
                }
            }
            i += 1;
        }
        proof {
            assert(before.subrange(0, before.len() as int) =~= before);
            lemma_filter_no_duplicates(before, keep);
        }
        self.tags = kept;
        removed
    }
}

/// The rectangle of a freshly pasted image: at the origin, one unit per
/// pixel, saturating at the largest stored length.
pub open spec fn image_rect(width: u32, height: u32) -> Rect {
    Rect {
        left: Val::Px(0),
        bottom: Val::Px(0),
        width: Val::Px(
            if width > i32::MAX {
                i32::MAX
            } else {
                width as i32
            },
        ),
        height: Val::Px(
            if height > i32::MAX {
                i32::MAX
            } else {
                height as i32
            },
        ),
    }
}

impl Clone for Node {
    fn clone(&self) -> (r: Self)
        ensures
            r@ == self@,
    {
        let mut tags: Vec<String> = Vec::new();
        let mut i: usize = 0;
        while i < self.tags.len()
            invariant
                i <= self.tags@.len(),
                tags@ == self.tags@.subrange(0, i as int),
            decreases self.tags@.len() - i,
        {
            tags.push(self.tags[i].clone());
            assert(tags@ == self.tags@.subrange(0, i as int + 1));
            i += 1;
        }
        assert(self.tags@.subrange(0, self.tags@.len() as int) == self.tags@);
        let image = match &self.image {
            Some(img) => Some(img.clone()),
            None => None,
        };
        Node {
            id: self.id,
            rect: self.rect,
            image,
            text: self.text.clone(),
            text_pos: self.text_pos,
            bg_color: self.bg_color,
            tags,
            z_index: self.z_index,
        }
    }
}

} // verus!
