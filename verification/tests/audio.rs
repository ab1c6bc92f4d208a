use vinput_ws_asr::audio::AudioChunker;

fn lengths(chunks: &[&[u8]]) -> Vec<usize> {
    chunks.iter().map(|c| c.len()).collect()
}

#[test]
fn quarter_second_at_16k_is_8000_bytes() {
    let data = vec![7u8; 20001];
    let chunks = AudioChunker::new(16000, 250).chunks(&data).len();
    assert_eq!(chunks, 3);
    assert_eq!(lengths(&AudioChunker::new(16000, 250).chunks(&data)), vec![8000, 8000, 4001]);
}

#[test]
fn no_audio_has_no_chunks() {
    assert!(AudioChunker::new(16000, 250).chunks(&[]).is_empty());
}

#[test]
fn a_chunk_has_at_least_one_sample() {
    let data = [1u8, 2, 3, 4, 5];
    let chunker = AudioChunker::new(1, 1);
    assert_eq!(chunker.chunks(&data), vec![&[1u8, 2][..], &[3, 4][..], &[5][..]]);
    assert_eq!(AudioChunker::new(0, 0).chunks(&data).len(), 3);
}

#[test]
fn sample_count_is_rounded_down() {
    // 11025 * 3 / 1000 = 33 samples
    let data = vec![0u8; 67];
    assert_eq!(lengths(&AudioChunker::new(11025, 3).chunks(&data)), vec![66, 1]);
}

#[test]
fn exact_multiple_has_no_short_chunk() {
    let data = vec![0u8; 16000];
    assert_eq!(lengths(&AudioChunker::new(16000, 250).chunks(&data)), vec![8000, 8000]);
}

#[test]
fn joined_chunks_are_the_audio() {
    let data: Vec<u8> = (0..1000u32).map(|i| (i * 31 % 251) as u8).collect();
    let chunker = AudioChunker::new(8000, 7);
    let joined: Vec<u8> = chunker.chunks(&data).concat();
    assert_eq!(joined, data);
}

#[test]
fn whole_samples_stay_whole() {
    let data = vec![0u8; 1002];
    for chunk in AudioChunker::new(8000, 7).chunks(&data) {
        assert_eq!(chunk.len() % 2, 0);
    }
}

#[test]
fn chunk_larger_than_audio_is_one_chunk() {
    let data = [1u8, 2, 3];
    assert_eq!(AudioChunker::new(u32::MAX, 1000).chunks(&data), vec![&data[..]]);
}
