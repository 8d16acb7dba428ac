use azera_memory::chunking::{chunk_text_for_tts, concatenate_wav_audio};

#[test]
fn short_text_returns_single_chunk() {
    let text = "Hello, world!";
    let chunks = chunk_text_for_tts(text, 100);
    assert_eq!(chunks.len(), 1);
    assert_eq!(chunks[0], "Hello, world!");
}

#[test]
fn empty_text_returns_single_chunk() {
    // Empty string returns vec with the original text (empty)
    let chunks = chunk_text_for_tts("", 100);
    assert_eq!(chunks.len(), 1);
    assert_eq!(chunks[0], "");
}

#[test]
fn splits_at_sentence_boundaries() {
    let text = "First sentence. Second sentence. Third sentence.";
    let chunks = chunk_text_for_tts(text, 30);
    assert!(chunks.len() >= 2);
    // Each chunk should end with a sentence
    assert!(chunks[0].ends_with('.'));
}

#[test]
fn handles_multiple_punctuation_types() {
    let text = "Hello! How are you? I'm fine.";
    let chunks = chunk_text_for_tts(text, 15);
    assert!(chunks.len() >= 2);
}

#[test]
fn handles_newlines() {
    let text = "First line\nSecond line\nThird line";
    let chunks = chunk_text_for_tts(text, 20);
    assert!(!chunks.is_empty());
}

#[test]
fn respects_max_char_limit() {
    let text = "This is a longer sentence that should be split. And another one here.";
    let max_chars = 30;
    let chunks = chunk_text_for_tts(text, max_chars);
    // Each chunk should generally respect the limit (some may exceed due to sentence integrity)
    for chunk in &chunks {
        // Allow some overflow for complete sentences
        assert!(chunk.len() <= max_chars * 2, "Chunk too long: {} chars", chunk.len());
    }
}

#[test]
fn handles_long_sentences_with_commas() {
    let text = "This is a very, very, very long sentence with many commas, and it should be split at comma boundaries when needed.";
    let chunks = chunk_text_for_tts(text, 40);
    assert!(!chunks.is_empty());
}

#[test]
fn preserves_all_content() {
    let text = "First. Second. Third.";
    let chunks = chunk_text_for_tts(text, 10);
    let rejoined: String = chunks.join(" ");
    // All original content should be present (punctuation preserved)
    assert!(rejoined.contains("First"));
    assert!(rejoined.contains("Second"));
    assert!(rejoined.contains("Third"));
}

fn create_mock_wav_header(data_size: u32) -> Vec<u8> {
    let mut header = vec![0u8; 44];
    // RIFF header
    header[0..4].copy_from_slice(b"RIFF");
    let file_size = data_size + 36;
    header[4..8].copy_from_slice(&file_size.to_le_bytes());
    header[8..12].copy_from_slice(b"WAVE");
    // fmt chunk
    header[12..16].copy_from_slice(b"fmt ");
    header[16..20].copy_from_slice(&16u32.to_le_bytes()); // chunk size
    header[20..22].copy_from_slice(&1u16.to_le_bytes()); // PCM
    header[22..24].copy_from_slice(&1u16.to_le_bytes()); // mono
    header[24..28].copy_from_slice(&24000u32.to_le_bytes()); // sample rate
    header[28..32].copy_from_slice(&48000u32.to_le_bytes()); // byte rate
    header[32..34].copy_from_slice(&2u16.to_le_bytes()); // block align
    header[34..36].copy_from_slice(&16u16.to_le_bytes()); // bits per sample
    // data chunk
    header[36..40].copy_from_slice(b"data");
    header[40..44].copy_from_slice(&data_size.to_le_bytes());
    header
}

#[test]
fn unsplittable_fragment_survives_whole() {
    // A fragment longer than the limit with no sentence end and no comma,
    // semicolon or colon cannot be cut: it comes through as one chunk.
    let word = "w".repeat(50);
    let chunks = chunk_text_for_tts(&word, 10);
    assert_eq!(chunks, vec![word]);
}

#[test]
fn whitespace_only_text_yields_no_chunks() {
    // Over the limit but with nothing visible: nothing survives trimming.
    let blank = " ".repeat(40);
    let chunks = chunk_text_for_tts(&blank, 10);
    assert!(chunks.is_empty());
}

#[test]
fn empty_input_returns_empty_vec() {
    let result = concatenate_wav_audio(vec![]);
    assert!(result.is_empty());
}

#[test]
fn single_chunk_adds_silence_padding() {
    let mut wav = create_mock_wav_header(100);
    wav.extend(vec![1u8; 100]); // PCM data

    let result = concatenate_wav_audio(vec![wav]);

    // Should have header (44) + silence (48000) + original PCM (100)
    assert_eq!(result.len(), 44 + 48000 + 100);

    // First 44 bytes should be header
    assert_eq!(&result[0..4], b"RIFF");

    // Silence padding should be zeros (after header)
    let silence_section = &result[44..44 + 48000];
    assert!(silence_section.iter().all(|&b| b == 0));
}

#[test]
fn multiple_chunks_concatenated() {
    let mut wav1 = create_mock_wav_header(50);
    wav1.extend(vec![1u8; 50]);

    let mut wav2 = create_mock_wav_header(50);
    wav2.extend(vec![2u8; 50]);

    let result = concatenate_wav_audio(vec![wav1, wav2]);

    // Should have header (44) + silence (48000) + pcm1 (50) + pcm2 (50)
    assert_eq!(result.len(), 44 + 48000 + 50 + 50);
}

#[test]
fn updates_wav_header_sizes() {
    let mut wav1 = create_mock_wav_header(100);
    wav1.extend(vec![1u8; 100]);

    let mut wav2 = create_mock_wav_header(100);
    wav2.extend(vec![2u8; 100]);

    let result = concatenate_wav_audio(vec![wav1, wav2]);

    // Check file size in header (bytes 4-7)
    let file_size = u32::from_le_bytes([result[4], result[5], result[6], result[7]]);
    // file_size = total_pcm_len + 36 = (48000 + 100 + 100) + 36 = 48236
    assert_eq!(file_size, 48000 + 100 + 100 + 36);

    // Check data chunk size (bytes 40-43)
    let data_size = u32::from_le_bytes([result[40], result[41], result[42], result[43]]);
    assert_eq!(data_size, 48000 + 100 + 100);
}
