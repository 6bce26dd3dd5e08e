use vstd::prelude::*;

use core::marker::PhantomData;

use crate::pixel::{lemma_offset_monotone, offset_of, ChannelData, PixelLayout, PixelStruct, PixelType};

verus! {

/// One channel of a frame buffer: where the engine finds the channel's value
/// for each pixel, and how to read it.
pub struct Binding {
    pub name: String,
    pub pixel_type: PixelType,
    /// Which backing buffer, counted in the order they were registered.
    pub buffer: usize,
    /// Byte offset, within that buffer, of the value for the first pixel.
    pub offset: usize,
    /// Bytes from one pixel to the next in a row.
    pub x_stride: usize,
    /// Bytes from one row to the next.
    pub y_stride: usize,
    pub x_sampling: i32,
    pub y_sampling: i32,
    /// Bit pattern of the double-precision value used where a source lacks
    /// this channel.
    pub fill_bits: u64,
    pub x_tile_coords: bool,
    pub y_tile_coords: bool,
}

/// A binding as contracts see it: its name as characters, its numbers as
/// mathematical integers.
pub struct BindingView {
    pub name: Seq<char>,
    pub pixel_type: PixelType,
    pub buffer: nat,
    pub offset: nat,
    pub x_stride: nat,
    pub y_stride: nat,
    pub x_sampling: int,
    pub y_sampling: int,
    pub fill_bits: u64,
    pub x_tile_coords: bool,
    pub y_tile_coords: bool,
}

impl View for Binding {
    type V = BindingView;

    open spec fn view(&self) -> BindingView {
        BindingView {
            name: self.name@,
            pixel_type: self.pixel_type,
            buffer: self.buffer as nat,
            offset: self.offset as nat,
            x_stride: self.x_stride as nat,
            y_stride: self.y_stride as nat,
            x_sampling: self.x_sampling as int,
            y_sampling: self.y_sampling as int,
            fill_bits: self.fill_bits,
            x_tile_coords: self.x_tile_coords,
            y_tile_coords: self.y_tile_coords,
        }
    }
}

/// The binding made for channel `k` of a group whose values are laid out as
/// `types`, stored pixel after pixel in buffer `buffer` of an image `width`
/// pixels wide.
pub open spec fn group_binding(
    name: Seq<char>,
    fill_bits: u64,
    types: Seq<PixelType>,
    k: int,
    buffer: nat,
    width: nat,
) -> BindingView {
    let size = offset_of(types, types.len() as int);
    BindingView {
        name,
        pixel_type: types[k],
        buffer,
        offset: offset_of(types, k),
        x_stride: size,
        y_stride: width * size,
        x_sampling: 1,
        y_sampling: 1,
        fill_bits,
        x_tile_coords: false,
        y_tile_coords: false,
    }
}

/// The bindings made for a group: one per channel name, paired in order
/// with the group's channels, as many as the shorter of the two has.
pub open spec fn group_bindings(
    channels: Seq<(&str, u64)>,
    types: Seq<PixelType>,
    buffer: nat,
    width: nat,
) -> Seq<BindingView> {
    let n = if channels.len() < types.len() {
        channels.len()
    } else {
        types.len()
    };
    Seq::new(
        n,
        |k: int| group_binding(channels[k].0@, channels[k].1, types, k, buffer, width),
    )
}

/// A buffer of `width * height` values of `elem_size` bytes each, and one
/// row of it, have a byte size that fits in `usize`.
pub open spec fn frame_fits(width: nat, height: nat, elem_size: nat) -> bool {
    width * elem_size <= usize::MAX && width * height * elem_size <= usize::MAX
}

/// Every byte that the engine touches for `b` over a `width` by `height`
/// image lies within the first `size` bytes of the binding's buffer.
pub open spec fn binding_fits(b: BindingView, width: nat, height: nat, size: nat) -> bool {
    width == 0 || height == 0 || b.offset + (height - 1) * b.y_stride + (width - 1) * b.x_stride
        + b.pixel_type.size_spec() <= size
}

/// A frame buffer as contracts see it.
pub struct FrameBufferView {
    pub width: nat,
    pub height: nat,
    pub bindings: Seq<BindingView>,
    /// Byte size of each registered backing buffer.
    pub buffer_sizes: Seq<usize>,
}

impl FrameBufferView {
    /// `b` addresses a registered buffer, at full or reduced resolution, and
    /// only within that buffer.
    pub open spec fn admissible(self, b: BindingView) -> bool {
        &&& b.buffer < self.buffer_sizes.len()
        &&& b.x_sampling >= 1
        &&& b.y_sampling >= 1
        &&& binding_fits(b, self.width, self.height, self.buffer_sizes[b.buffer as int] as nat)
    }

    pub open spec fn wf(self) -> bool {
        forall|i: int| 0 <= i < self.bindings.len() ==> self.admissible(#[trigger] self.bindings[i])
    }
}

/// A description of where the channels of a `width` by `height` image live
/// in memory, handed to a decoder to write into or to an encoder to read
/// from. It borrows every buffer that it describes for as long as it lives.
pub struct FrameBuffer<'a> {
    dimensions: (usize, usize),
    bindings: Vec<Binding>,
    buffer_sizes: Vec<usize>,
    borrowed: PhantomData<&'a mut [u8]>,
}

impl<'a> View for FrameBuffer<'a> {
    type V = FrameBufferView;

    closed spec fn view(&self) -> FrameBufferView {
        FrameBufferView {
            width: self.dimensions.0 as nat,
            height: self.dimensions.1 as nat,
            bindings: self.bindings@.map_values(|b: Binding| b@),
            buffer_sizes: self.buffer_sizes@,
        }
    }
}

/// A row of `o + z <= s` bytes-wide pixels, repeated over `h` rows of `w`
/// pixels, stays within `w * h * s` bytes.
proof fn lemma_grid_fits(o: nat, z: nat, s: nat, w: nat, h: nat)
    requires
        o + z <= s,
        w >= 1,
        h >= 1,
    ensures
        o + (h - 1) * (w * s) + (w - 1) * s + z <= w * h * s,
{
    assert(o + (h - 1) * (w * s) + (w - 1) * s + z <= w * h * s) by (nonlinear_arith)
        requires
            o + z <= s,
            w >= 1,
            h >= 1,
    ;
}

impl<'a> FrameBuffer<'a> {
    pub open spec fn wf(&self) -> bool {
        self@.wf()
    }

    /// An empty frame buffer for a `width` by `height` image.
    pub fn new(width: usize, height: usize) -> (r: FrameBuffer<'a>)
        ensures
            r.wf(),
            r@.width == width,
            r@.height == height,
            r@.bindings.len() == 0,
            r@.buffer_sizes.len() == 0,
    {
        let r = FrameBuffer {
            dimensions: (width, height),
            bindings: Vec::new(),
            buffer_sizes: Vec::new(),
            borrowed: PhantomData,
        };
        assert(r@.bindings =~= Seq::<BindingView>::empty());
        r
    }

    pub fn dimensions(&self) -> (r: (usize, usize))
        ensures
            r.0 == self@.width,
            r.1 == self@.height,
    {
        self.dimensions
    }

    /// The bindings, in the order they were inserted.
    pub fn bindings(&self) -> (r: &[Binding])
        ensures
            r@.len() == self@.bindings.len(),
            forall|i: int| 0 <= i < r@.len() ==> #[trigger] r@[i]@ == self@.bindings[i],
    {
        self.bindings.as_slice()
    }

    /// Byte size of each backing buffer, in the order they were registered.
    pub fn buffer_sizes(&self) -> (r: &[usize])
        ensures
            r@ == self@.buffer_sizes,
    {
        self.buffer_sizes.as_slice()
    }

    /// Whether `len` values of `elem_size` bytes each can back this frame
    /// buffer: one value per pixel, with byte sizes that fit in `usize`.
    pub fn backs(&self, len: usize, elem_size: usize) -> (r: bool)
        ensures
            r == (len == self@.width * self@.height && frame_fits(
                self@.width,
                self@.height,
                elem_size as nat,
            )),
    {
        let (width, height) = self.dimensions;
        match width.checked_mul(height) {
            None => false,
            Some(pixels) => {
                if len != pixels {
                    false
                } else {
                    match (width.checked_mul(elem_size), pixels.checked_mul(elem_size)) {
                        (Some(_), Some(_)) => {
                            proof {
                                vstd::arithmetic::mul::lemma_mul_is_associative(
                                    width as int,
                                    height as int,
                                    elem_size as int,
                                );
                            }
                            true
                        },
                        _ => false,
                    }
                }
            },
        }
    }

    /// Registers a backing buffer of `size` bytes and returns its index.
    fn add_buffer(&mut self, size: usize) -> (idx: usize)
        requires
            old(self).wf(),
            old(self)@.buffer_sizes.len() < usize::MAX,
        ensures
            final(self).wf(),
            idx == old(self)@.buffer_sizes.len(),
            final(self)@.width == old(self)@.width,
            final(self)@.height == old(self)@.height,
            final(self)@.bindings == old(self)@.bindings,
            final(self)@.buffer_sizes == old(self)@.buffer_sizes.push(size),
    {
        let idx = self.buffer_sizes.len();
        self.buffer_sizes.push(size);
        assert forall|i: int| 0 <= i < self@.bindings.len() implies self@.admissible(
            #[trigger] self@.bindings[i],
        ) by {
            assert(old(self)@.admissible(old(self)@.bindings[i]));
        }
        idx
    }

    /// Adds one binding, which must address only bytes of a buffer already
    /// registered.
    pub fn insert_raw(
        &mut self,
        name: &str,
        type_: PixelType,
        base: (usize, usize),
        stride: (usize, usize),
        sampling: (i32, i32),
        fill_bits: u64,
        tile_coords: (bool, bool),
    )
        requires
            old(self).wf(),
            old(self)@.admissible(
                (BindingView {
                    name: name@,
                    pixel_type: type_,
                    buffer: base.0 as nat,
                    offset: base.1 as nat,
                    x_stride: stride.0 as nat,
                    y_stride: stride.1 as nat,
                    x_sampling: sampling.0 as int,
                    y_sampling: sampling.1 as int,
                    fill_bits,
                    x_tile_coords: tile_coords.0,
                    y_tile_coords: tile_coords.1,
                }),
            ),
        ensures
            final(self).wf(),
            final(self)@.width == old(self)@.width,
            final(self)@.height == old(self)@.height,
            final(self)@.buffer_sizes == old(self)@.buffer_sizes,
            final(self)@.bindings == old(self)@.bindings.push(
                (BindingView {
                    name: name@,
                    pixel_type: type_,
                    buffer: base.0 as nat,
                    offset: base.1 as nat,
                    x_stride: stride.0 as nat,
                    y_stride: stride.1 as nat,
                    x_sampling: sampling.0 as int,
                    y_sampling: sampling.1 as int,
                    fill_bits,
                    x_tile_coords: tile_coords.0,
                    y_tile_coords: tile_coords.1,
                }),
            ),
    {
        let b = Binding {
            name: String::from_str(name),
            pixel_type: type_,
            buffer: base.0,
            offset: base.1,
            x_stride: stride.0,
            y_stride: stride.1,
            x_sampling: sampling.0,
            y_sampling: sampling.1,
            fill_bits,
            x_tile_coords: tile_coords.0,
            y_tile_coords: tile_coords.1,
        };
        self.bindings.push(b);
        assert(self@.bindings =~= old(self)@.bindings.push(b@));
    }

    /// Registers a buffer of `len` pixels whose values are laid out as
    /// `layout`, and binds channel `k` of it to `channels[k]` (a name and
    /// the bit pattern of a fill value). Where the two differ in length,
    /// the extra names or the extra channels are left unbound.
    pub fn insert_layout(&mut self, channels: &[(&str, u64)], layout: &PixelLayout, len: usize)
        requires
            old(self).wf(),
            layout.wf(),
            len == old(self)@.width * old(self)@.height,
            frame_fits(old(self)@.width, old(self)@.height, layout.size_spec()),
            old(self)@.buffer_sizes.len() < usize::MAX,
        ensures
            final(self).wf(),
            final(self)@.width == old(self)@.width,
            final(self)@.height == old(self)@.height,
            final(self)@.buffer_sizes == old(self)@.buffer_sizes.push(
                (len * layout.size_spec()) as usize,
            ),
            final(self)@.bindings == old(self)@.bindings + group_bindings(
                channels@,
                layout@,
                old(self)@.buffer_sizes.len(),
                old(self)@.width,
            ),
    {
        let ghost w = self@.width;
        let ghost h = self@.height;
        let width = self.dimensions.0;
        let size = layout.byte_size();
        proof {
            vstd::arithmetic::mul::lemma_mul_is_associative(w as int, h as int, size as int);
        }
        let idx = self.add_buffer(len * size);
        let ghost start = self@.bindings;
        let ghost group = group_bindings(channels@, layout@, idx as nat, w);
        let count = layout.channel_count();
        let n = if channels.len() < count {
            channels.len()
        } else {
            count
        };
        let mut k: usize = 0;
        while k < n
            invariant
                self.wf(),
                layout.wf(),
                k <= n,
                n == group.len(),
                n <= layout@.len(),
                n <= channels@.len(),
                size == layout.size_spec(),
                width == w,
                w * size <= usize::MAX,
                len == w * h,
                self@.width == w,
                self@.height == h,
                idx < self@.buffer_sizes.len(),
                self@.buffer_sizes[idx as int] == len * size,
                self@.buffer_sizes == old(self)@.buffer_sizes.push((len * size) as usize),
                group == group_bindings(channels@, layout@, idx as nat, w),
                self@.bindings == start + group.take(k as int),
            decreases n - k,
        {
            let (name, fill) = channels[k];
            let (ty, offset) = layout.channel(k);
            let ghost b = group[k as int];
            proof {
                lemma_offset_monotone(layout@, k as int + 1, layout@.len() as int);
                if w >= 1 && h >= 1 {
                    lemma_grid_fits(offset as nat, ty.size_spec(), size as nat, w, h);
                }
            }
            self.insert_raw(name, ty, (idx, offset), (size, width * size), (1, 1), fill, (false, false));
            assert(group.take(k as int + 1) =~= group.take(k as int).push(b));
            k = k + 1;
        }
        assert(group.take(n as int) =~= group);
    }

    /// Binds one channel named `name` to `data`, one value per pixel, row by
    /// row. `fill_bits` is the bit pattern of the channel's fill value.
    pub fn insert_channel<T: ChannelData>(&mut self, name: &str, fill_bits: u64, data: &'a mut [T])
        requires
            old(self).wf(),
            old(data)@.len() == old(self)@.width * old(self)@.height,
            frame_fits(old(self)@.width, old(self)@.height, T::tag().size_spec()),
            old(self)@.buffer_sizes.len() < usize::MAX,
        ensures
            final(self).wf(),
            final(self)@.width == old(self)@.width,
            final(self)@.height == old(self)@.height,
            final(self)@.buffer_sizes == old(self)@.buffer_sizes.push(
                (old(data)@.len() * T::tag().size_spec()) as usize,
            ),
            final(self)@.bindings == old(self)@.bindings.push(
                (BindingView {
                    name: name@,
                    pixel_type: T::tag(),
                    buffer: old(self)@.buffer_sizes.len(),
                    offset: 0,
                    x_stride: T::tag().size_spec(),
                    y_stride: old(self)@.width * T::tag().size_spec(),
                    x_sampling: 1,
                    y_sampling: 1,
                    fill_bits,
                    x_tile_coords: false,
                    y_tile_coords: false,
                }),
            ),
            final(self)@.bindings.last().x_stride == vstd::layout::size_of::<T>(),
    {
        let ghost w = self@.width;
        let ghost h = self@.height;
        let width = self.dimensions.0;
        proof {
            T::lemma_size();
        }
        let ty = T::pixel_type();
        let size = ty.byte_size();
        proof {
            vstd::arithmetic::mul::lemma_mul_is_associative(w as int, h as int, size as int);
            if w >= 1 && h >= 1 {
                lemma_grid_fits(0, size as nat, size as nat, w, h);
            }
        }
        let idx = self.add_buffer(data.len() * size);
        self.insert_raw(name, ty, (idx, 0), (size, width * size), (1, 1), fill_bits, (false, false));
    }

    /// Binds the channels of the aggregate type `T` to `data`, one aggregate
    /// per pixel, row by row: channel `k` of `T` gets the name and fill value
    /// bits of `channels[k]`. Where the two differ in length, the extra names
    /// or the extra channels are left unbound.
    pub fn insert_pixels<T: PixelStruct>(&mut self, channels: &[(&str, u64)], data: &'a mut [T])
        requires
            old(self).wf(),
            old(data)@.len() == old(self)@.width * old(self)@.height,
            frame_fits(
                old(self)@.width,
                old(self)@.height,
                offset_of(T::spec_types(), T::spec_types().len() as int),
            ),
            old(self)@.buffer_sizes.len() < usize::MAX,
        ensures
            final(self).wf(),
            final(self)@.width == old(self)@.width,
            final(self)@.height == old(self)@.height,
            final(self)@.buffer_sizes == old(self)@.buffer_sizes.push(
                (old(data)@.len() * offset_of(T::spec_types(), T::spec_types().len() as int)) as usize,
            ),
            final(self)@.bindings == old(self)@.bindings + group_bindings(
                channels@,
                T::spec_types(),
                old(self)@.buffer_sizes.len(),
                old(self)@.width,
            ),
    {
        let layout = T::layout();
        self.insert_layout(channels, &layout, data.len());
    }
}

/// Binding a group of three channels to three names makes exactly three
/// bindings, at offsets 0, the size of the first channel, and the sizes of
/// the first two, all with the size of the group as the stride from pixel
/// to pixel.
pub proof fn lemma_triple_group<A: ChannelData, B: ChannelData, C: ChannelData>(
    channels: Seq<(&str, u64)>,
    buffer: nat,
    width: nat,
)
    requires
        channels.len() == 3,
    ensures
        ({
            let g = group_bindings(channels, <(A, B, C) as PixelStruct>::spec_types(), buffer, width);
            let (a, b, c) = (A::tag().size_spec(), B::tag().size_spec(), C::tag().size_spec());
            &&& g.len() == 3
            &&& g[0].offset == 0
            &&& g[1].offset == a
            &&& g[2].offset == a + b
            &&& forall|k: int| 0 <= k < 3 ==> (#[trigger] g[k]).x_stride == a + b + c
            &&& forall|k: int| 0 <= k < 3 ==> (#[trigger] g[k]).name == channels[k].0@
        }),
{
}

} // verus!
