use vstd::prelude::*;

mod frame_buffer;
mod pixel;

pub use frame_buffer::{
    binding_fits, frame_fits, group_binding, group_bindings, lemma_triple_group, Binding, BindingView, FrameBuffer,
    FrameBufferView,
};
pub use pixel::{
    channel, channel_count, channels, lemma_array_offsets, lemma_layout_offsets,
    lemma_offset_bound, lemma_offset_monotone, lemma_scalar_tags, lemma_shape_arity, offset_of,
    repeated,
    ChannelData, PixelLayout, PixelStruct, PixelType,
};

verus! {

} // verus!
