use kokoroxide::kokoro::voice::{load_voice_style, VoiceStyle, STYLE_DIMENSION};

fn bits(values: &[f32]) -> Vec<u32> {
    values.iter().map(|v| v.to_bits()).collect()
}

fn floats(values: &[u32]) -> Vec<f32> {
    values.iter().map(|b| f32::from_bits(*b)).collect()
}

fn three_chunks() -> VoiceStyle {
    let mut data = Vec::new();
    for chunk in 0..3 {
        for i in 0..256 {
            data.push((chunk as f32) * 1000.0 + i as f32);
        }
    }
    VoiceStyle::new(bits(&data), 256)
}

#[test]
fn style_for_a_length_in_range_is_the_chunk_of_that_index() {
    let voice = three_chunks();
    let style = floats(&voice.get_style_vector_for_token_length(1, 256));
    assert_eq!(style.len(), 256);
    assert_eq!(style[0], 1000.0);
    assert_eq!(style[255], 1255.0);
    let style = floats(&voice.get_style_vector_for_token_length(0, 256));
    assert_eq!(style[0], 0.0);
    assert_eq!(style[255], 255.0);
    let style = floats(&voice.get_style_vector_for_token_length(2, 256));
    assert_eq!(style[0], 2000.0);
}

#[test]
fn style_for_a_length_out_of_range_is_the_last_complete_chunk() {
    let voice = three_chunks();
    let style = floats(&voice.get_style_vector_for_token_length(5, 256));
    assert_eq!(style.len(), 256);
    assert_eq!(style[0], 2000.0);
    assert_eq!(style[255], 2255.0);
    let style = floats(&voice.get_style_vector_for_token_length(3, 256));
    assert_eq!(style[0], 2000.0);
    let style = floats(&voice.get_style_vector_for_token_length(usize::MAX, 256));
    assert_eq!(style[0], 2000.0);
}

#[test]
fn last_complete_chunk_ignores_a_broken_tail() {
    let mut data: Vec<f32> = Vec::new();
    for i in 0..10 {
        data.push(i as f32);
    }
    let voice = VoiceStyle::new(bits(&data), 4);
    assert_eq!(floats(&voice.get_style_vector_for_token_length(1, 4)), vec![4.0, 5.0, 6.0, 7.0]);
    assert_eq!(floats(&voice.get_style_vector_for_token_length(2, 4)), vec![4.0, 5.0, 6.0, 7.0]);
    assert_eq!(floats(&voice.get_style_vector_for_token_length(9, 4)), vec![4.0, 5.0, 6.0, 7.0]);
}

#[test]
fn buffer_without_a_complete_chunk_is_padded_with_zeros() {
    let voice = VoiceStyle::new(bits(&[1.5, 2.5, 3.5]), 4);
    assert_eq!(floats(&voice.get_style_vector_for_token_length(0, 4)), vec![1.5, 2.5, 3.5, 0.0]);
    assert_eq!(floats(&voice.get_style_vector_for_token_length(7, 4)), vec![1.5, 2.5, 3.5, 0.0]);
    let empty = VoiceStyle::new(Vec::new(), 256);
    let style = empty.get_style_vector_for_token_length(3, 256);
    assert_eq!(style, vec![0u32; 256]);
}

#[test]
fn stride_of_zero_never_divides() {
    let voice = VoiceStyle::new(bits(&[1.0, 2.0, 3.0]), 0);
    assert_eq!(floats(&voice.get_style_vector_for_token_length(9, 2)), vec![1.0, 2.0]);
    assert_eq!(floats(&voice.get_style_vector_for_token_length(9, 4)), vec![1.0, 2.0, 3.0, 0.0]);
}

#[test]
fn requested_dimension_may_differ_from_the_stride() {
    let voice = VoiceStyle::new(bits(&[0.0, 1.0, 2.0, 3.0, 4.0, 5.0, 6.0, 7.0]), 4);
    assert_eq!(floats(&voice.get_style_vector_for_token_length(1, 2)), vec![4.0, 5.0]);
    assert_eq!(floats(&voice.get_style_vector_for_token_length(2, 2)), vec![4.0, 5.0]);
    assert_eq!(floats(&voice.get_style_vector_for_token_length(1, 6)), vec![0.0, 1.0, 2.0, 3.0, 4.0, 5.0]);
    assert_eq!(voice.get_style_vector_for_token_length(0, 0), Vec::<u32>::new());
}

#[test]
fn plain_style_vector_is_the_padded_start() {
    let voice = VoiceStyle::new(bits(&[1.0, 2.0, 3.0]), 256);
    assert_eq!(floats(&voice.get_style_vector(2)), vec![1.0, 2.0]);
    assert_eq!(floats(&voice.get_style_vector(5)), vec![1.0, 2.0, 3.0, 0.0, 0.0]);
    assert_eq!(voice.get_style_vector(0), Vec::<u32>::new());
}

#[test]
fn voice_file_is_little_endian() {
    let mut bytes = Vec::new();
    for v in [1.0f32, -2.5, 0.0, 3.25e-3] {
        bytes.extend_from_slice(&v.to_le_bytes());
    }
    let voice = load_voice_style(&bytes);
    assert_eq!(voice.vector_size, 256);
    assert_eq!(STYLE_DIMENSION, 256);
    assert_eq!(floats(&voice.data), vec![1.0, -2.5, 0.0, 3.25e-3]);
    let voice = load_voice_style(&[0x78, 0x56, 0x34, 0x12]);
    assert_eq!(voice.data, vec![0x12345678]);
    let voice = load_voice_style(&[0xFF, 0xFF, 0xFF, 0xFF]);
    assert_eq!(voice.data, vec![u32::MAX]);
}

#[test]
fn voice_file_with_a_broken_tail() {
    let voice = load_voice_style(&[1, 0, 0, 0, 2, 0, 0]);
    assert_eq!(voice.data, vec![1]);
    assert!(load_voice_style(&[]).data.is_empty());
    assert!(load_voice_style(&[1, 2, 3]).data.is_empty());
}

#[test]
fn voice_file_of_three_chunks_selects_like_the_table() {
    let mut bytes = Vec::new();
    for i in 0..768 {
        bytes.extend_from_slice(&(i as f32).to_le_bytes());
    }
    let voice = load_voice_style(&bytes);
    let style = floats(&voice.get_style_vector_for_token_length(5, 256));
    assert_eq!(style[0], 512.0);
    assert_eq!(style[255], 767.0);
}
