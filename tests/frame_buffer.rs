use openexr::{
    channel, channel_count, channels, ChannelData, FrameBuffer, PixelLayout, PixelStruct,
    PixelType,
};

#[test]
fn scalar_tags_are_fixed() {
    assert_eq!(<u32 as ChannelData>::pixel_type(), PixelType::UINT);
    assert_eq!(PixelType::UINT.byte_size(), 4);
    assert_eq!(PixelType::HALF.byte_size(), 2);
    assert_eq!(PixelType::FLOAT.byte_size(), 4);
    assert_eq!(PixelType::UINT.byte_size(), std::mem::size_of::<u32>());
    assert_eq!(PixelType::FLOAT.byte_size(), std::mem::size_of::<f32>());
}

#[test]
fn scalar_shape_has_one_channel() {
    assert_eq!(channel_count::<u32>(), 1);
    assert_eq!(channel::<u32>(0), (PixelType::UINT, 0));
    assert_eq!(channels::<u32>(), vec![(PixelType::UINT, 0)]);
}

#[test]
fn tuple_shapes_have_their_arity() {
    assert_eq!(channel_count::<(u32, u32)>(), 2);
    assert_eq!(channel_count::<(u32, u32, u32)>(), 3);
    assert_eq!(channel_count::<(u32, u32, u32, u32)>(), 4);
    assert_eq!(
        channels::<(u32, u32, u32, u32)>(),
        vec![(PixelType::UINT, 0), (PixelType::UINT, 4), (PixelType::UINT, 8), (PixelType::UINT, 12)]
    );
    assert_eq!(channel::<(u32, u32)>(1), (PixelType::UINT, 4));
}

#[test]
fn array_shapes_have_their_length() {
    assert_eq!(channel_count::<[u32; 1]>(), 1);
    assert_eq!(channel_count::<[u32; 2]>(), 2);
    assert_eq!(channel_count::<[u32; 3]>(), 3);
    assert_eq!(channel_count::<[u32; 4]>(), 4);
    for i in 0..4 {
        assert_eq!(channel::<[u32; 4]>(i), (PixelType::UINT, i * 4));
    }
}

#[test]
fn offsets_follow_the_sizes_of_earlier_channels() {
    let layout = PixelLayout::tuple4(PixelType::HALF, PixelType::FLOAT, PixelType::HALF, PixelType::UINT);
    assert_eq!(
        layout.channels(),
        vec![(PixelType::HALF, 0), (PixelType::FLOAT, 2), (PixelType::HALF, 6), (PixelType::UINT, 8)]
    );
    assert_eq!(layout.byte_size(), 12);
    let layout = PixelLayout::array(PixelType::HALF, 3);
    assert_eq!(layout.channel_count(), 3);
    assert_eq!(layout.channel(2), (PixelType::HALF, 4));
    assert_eq!(layout.byte_size(), 6);
    assert_eq!(PixelLayout::scalar(PixelType::FLOAT).byte_size(), 4);
    assert_eq!(PixelLayout::tuple2(PixelType::FLOAT, PixelType::HALF).offset(1), 4);
    assert_eq!(PixelLayout::tuple3(PixelType::UINT, PixelType::HALF, PixelType::FLOAT).byte_size(), 10);
}

#[test]
fn layout_of_a_type_is_its_run_time_layout() {
    let layout = <(u32, u32, u32) as PixelStruct>::layout();
    assert_eq!(layout.channels(), channels::<(u32, u32, u32)>());
    assert_eq!(layout.byte_size(), std::mem::size_of::<(u32, u32, u32)>());
    assert_eq!(<[u32; 4] as PixelStruct>::layout().byte_size(), std::mem::size_of::<[u32; 4]>());
}

#[test]
fn new_frame_buffer_is_empty() {
    let fb = FrameBuffer::new(640, 480);
    assert_eq!(fb.dimensions(), (640, 480));
    assert!(fb.bindings().is_empty());
    assert!(fb.buffer_sizes().is_empty());
}

#[test]
fn single_channel_binding_has_element_strides() {
    let mut data = vec![0u32; 16];
    let mut fb = FrameBuffer::new(4, 4);
    assert!(fb.backs(data.len(), 4));
    fb.insert_channel("Y", 0.5f64.to_bits(), &mut data);
    let b = &fb.bindings()[0];
    assert_eq!(fb.bindings().len(), 1);
    assert_eq!(b.name, "Y");
    assert_eq!(b.pixel_type, PixelType::UINT);
    assert_eq!(b.buffer, 0);
    assert_eq!(b.offset, 0);
    assert_eq!(b.x_stride, 4);
    assert_eq!(b.y_stride, 16);
    assert_eq!((b.x_sampling, b.y_sampling), (1, 1));
    assert_eq!((b.x_tile_coords, b.y_tile_coords), (false, false));
    assert_eq!(f64::from_bits(b.fill_bits), 0.5);
    assert_eq!(fb.buffer_sizes(), &[64]);
}

#[test]
fn wrong_length_cannot_back_the_frame_buffer() {
    let fb = FrameBuffer::new(4, 4);
    assert!(!fb.backs(15, 4));
    assert!(!fb.backs(17, 4));
    assert!(fb.backs(16, 4));
    assert!(!fb.backs(0, 4));
}

#[test]
fn oversized_frames_cannot_be_backed() {
    let fb = FrameBuffer::new(usize::MAX, 2);
    assert!(!fb.backs(usize::MAX, 1));
    let fb = FrameBuffer::new(usize::MAX / 2, 1);
    assert!(fb.backs(usize::MAX / 2, 2));
    assert!(!fb.backs(usize::MAX / 2, 3));
    let fb = FrameBuffer::new(0, 0);
    assert!(fb.backs(0, 16));
}

#[test]
fn triple_group_makes_three_bindings() {
    let mut data = vec![(0u32, 0u32, 0u32); 6];
    let mut fb = FrameBuffer::new(3, 2);
    fb.insert_pixels(&[("X", 0), ("Y", 0), ("Z", 1.0f64.to_bits())], &mut data);
    let bs = fb.bindings();
    assert_eq!(bs.len(), 3);
    let offsets: Vec<usize> = bs.iter().map(|b| b.offset).collect();
    assert_eq!(offsets, vec![0, 4, 8]);
    let names: Vec<&str> = bs.iter().map(|b| b.name.as_str()).collect();
    assert_eq!(names, vec!["X", "Y", "Z"]);
    assert!(bs.iter().all(|b| b.x_stride == 12 && b.y_stride == 36));
    assert_eq!(bs[2].fill_bits, 1.0f64.to_bits());
    assert_eq!(fb.buffer_sizes(), &[72]);
}

#[test]
fn two_by_two_rgb_end_to_end() {
    let mut pixels = [[0u32; 3]; 4];
    let mut fb = FrameBuffer::new(2, 2);
    fb.insert_pixels(&[("R", 0), ("G", 0), ("B", 0)], &mut pixels);
    let bs = fb.bindings();
    assert_eq!(bs.len(), 3);
    assert_eq!(bs[0].offset, 0);
    assert_eq!(bs[1].offset, 4);
    assert_eq!(bs[2].offset, 8);
    assert!(bs.iter().all(|b| b.x_stride == 12 && b.y_stride == 24 && b.buffer == 0));
    assert_eq!(bs[1].name, "G");
}

#[test]
fn fewer_names_than_channels_binds_only_the_named() {
    let mut data = vec![[0u32; 3]; 4];
    let mut fb = FrameBuffer::new(2, 2);
    fb.insert_pixels(&[("R", 0), ("G", 0)], &mut data);
    assert_eq!(fb.bindings().len(), 2);
    assert_eq!(fb.buffer_sizes(), &[48]);
}

#[test]
fn more_names_than_channels_binds_only_the_channels() {
    let mut data = vec![(0u32, 0u32); 4];
    let mut fb = FrameBuffer::new(4, 1);
    fb.insert_pixels(&[("R", 0), ("G", 0), ("B", 0)], &mut data);
    assert_eq!(fb.bindings().len(), 2);
    assert_eq!(fb.bindings()[1].offset, 4);
}

#[test]
fn several_buffers_are_numbered_in_order() {
    let mut a = vec![0u32; 4];
    let mut b = vec![[0u32; 2]; 4];
    let mut fb = FrameBuffer::new(2, 2);
    fb.insert_channel("A", 0, &mut a);
    fb.insert_pixels(&[("U", 0), ("V", 0)], &mut b);
    let bs = fb.bindings();
    assert_eq!(bs.len(), 3);
    assert_eq!((bs[0].buffer, bs[1].buffer, bs[2].buffer), (0, 1, 1));
    assert_eq!(fb.buffer_sizes(), &[16, 32]);
}

#[test]
fn layout_group_binds_half_and_float_channels() {
    let layout = PixelLayout::tuple3(PixelType::HALF, PixelType::HALF, PixelType::FLOAT);
    let mut fb = FrameBuffer::new(5, 3);
    fb.insert_layout(&[("Y", 0), ("C", 0), ("Z", 0)], &layout, 15);
    let bs = fb.bindings();
    assert_eq!(bs.len(), 3);
    assert_eq!((bs[0].offset, bs[1].offset, bs[2].offset), (0, 2, 4));
    assert_eq!(bs[2].pixel_type, PixelType::FLOAT);
    assert!(bs.iter().all(|b| b.x_stride == 8 && b.y_stride == 40));
    assert_eq!(fb.buffer_sizes(), &[120]);
}

#[test]
fn raw_binding_over_a_registered_buffer() {
    let mut data = vec![0u32; 4];
    let mut fb = FrameBuffer::new(2, 2);
    fb.insert_channel("Y", 0, &mut data);
    fb.insert_raw("Yhalf", PixelType::HALF, (0, 2), (4, 8), (2, 2), 7, (true, false));
    let b = &fb.bindings()[1];
    assert_eq!(b.name, "Yhalf");
    assert_eq!((b.buffer, b.offset, b.x_stride, b.y_stride), (0, 2, 4, 8));
    assert_eq!((b.x_sampling, b.y_sampling, b.fill_bits), (2, 2, 7));
    assert!(b.x_tile_coords && !b.y_tile_coords);
}
