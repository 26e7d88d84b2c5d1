use std::io::Cursor;

use simple_jingle::audio::{load_wav, pcm_from_decoded, DecodedWav, SampleDepth, WavError};
use simple_jingle::icon::{
    decode_icon, fallback_icon, fallback_icon_rgba, icon_files, IconFormat, ICON_SIZE,
};

fn wav_bytes<S: hound::Sample + Copy>(
    bits: u16,
    format: hound::SampleFormat,
    channels: u16,
    rate: u32,
    samples: &[S],
) -> Vec<u8> {
    let spec = hound::WavSpec { channels, sample_rate: rate, bits_per_sample: bits, sample_format: format };
    let mut cursor = Cursor::new(Vec::new());
    {
        let mut writer = hound::WavWriter::new(&mut cursor, spec).unwrap();
        for &s in samples {
            writer.write_sample(s).unwrap();
        }
        writer.finalize().unwrap();
    }
    cursor.into_inner()
}

#[test]
fn wav_16_bit_samples_are_kept() {
    let bytes = wav_bytes(16, hound::SampleFormat::Int, 2, 22050, &[1i16, -2, 32767, -32768]);
    let pcm = load_wav(&bytes).unwrap();
    assert_eq!(pcm.depth, SampleDepth::Bits16);
    assert_eq!(pcm.samples, vec![1, -2, 32767, -32768]);
    assert_eq!(pcm.sample_rate, 22050);
    assert_eq!(pcm.channels, 2);
}

#[test]
fn wav_24_bit_samples_are_shifted() {
    let bytes = wav_bytes(24, hound::SampleFormat::Int, 1, 48000, &[256i32, -256, 0x7f_ffff, -1, 0]);
    let pcm = load_wav(&bytes).unwrap();
    assert_eq!(pcm.depth, SampleDepth::Bits24);
    assert_eq!(pcm.samples, vec![1, -1, 0x7fff, -1, 0]);
    assert_eq!(pcm.depth.full_scale(), 8_388_608);
}

#[test]
fn wav_8_bit_samples_are_signed() {
    let bytes = wav_bytes(8, hound::SampleFormat::Int, 1, 8000, &[-128i8, 0, 127]);
    let pcm = load_wav(&bytes).unwrap();
    assert_eq!(pcm.depth, SampleDepth::Bits8);
    assert_eq!(pcm.samples, vec![-128, 0, 127]);
    assert_eq!(pcm.sample_rate, 8000);
    assert_eq!(pcm.channels, 1);
}

#[test]
fn wav_errors() {
    let bytes = wav_bytes(32, hound::SampleFormat::Int, 1, 8000, &[1i32]);
    assert_eq!(load_wav(&bytes).err(), Some(WavError::UnsupportedBits(32)));
    let bytes = wav_bytes(32, hound::SampleFormat::Float, 1, 8000, &[0.5f32]);
    assert_eq!(load_wav(&bytes).err(), Some(WavError::UnsupportedBits(32)));
    assert_eq!(load_wav(b"not a wave file").err(), Some(WavError::Open));
    assert_eq!(load_wav(&[]).err(), Some(WavError::Open));
    // The header promises two samples, the data stops inside the second.
    let mut bytes = wav_bytes(16, hound::SampleFormat::Int, 1, 8000, &[7i16, 8]);
    bytes.pop();
    assert_eq!(load_wav(&bytes).err(), Some(WavError::Read));
}

#[test]
fn decoded_wav_checks_and_defaults() {
    let decoded = |bits: u16, rate: u32, channels: u16, samples: Option<Vec<i32>>| {
        Some(DecodedWav { bits_per_sample: bits, sample_rate: rate, channels, samples })
    };
    let pcm = pcm_from_decoded(decoded(16, 0, 0, Some(vec![5, -5]))).unwrap();
    assert_eq!(pcm.sample_rate, 44100);
    assert_eq!(pcm.channels, 1);
    assert_eq!(pcm.samples, vec![5, -5]);
    assert_eq!(pcm_from_decoded(None).err(), Some(WavError::Open));
    // The depth is checked before the samples.
    assert_eq!(pcm_from_decoded(decoded(12, 8000, 1, None)).err(), Some(WavError::UnsupportedBits(12)));
    assert_eq!(pcm_from_decoded(decoded(16, 8000, 1, None)).err(), Some(WavError::Read));
    let pcm = pcm_from_decoded(decoded(24, 8000, 1, Some(vec![-512, 511]))).unwrap();
    assert_eq!(pcm.samples, vec![-2, 1]);
}

fn encode(img: image::DynamicImage, format: image::ImageFormat) -> Vec<u8> {
    let mut bytes = Vec::new();
    img.write_to(&mut Cursor::new(&mut bytes), format).unwrap();
    bytes
}

#[test]
fn png_icon_decodes_to_rgba() {
    let pixels = vec![1, 2, 3, 4, 200, 100, 50, 0];
    let img = image::RgbaImage::from_raw(2, 1, pixels.clone()).unwrap();
    let bytes = encode(image::DynamicImage::ImageRgba8(img), image::ImageFormat::Png);
    let icon = decode_icon(&bytes, IconFormat::Png).unwrap();
    assert_eq!((icon.width, icon.height), (2, 1));
    assert_eq!(icon.rgba, pixels);
    // A PNG file is not read as JPEG.
    assert!(decode_icon(&bytes, IconFormat::Jpeg).is_none());
}

#[test]
fn rgb_icon_gets_opaque_alpha() {
    let img = image::RgbImage::from_raw(1, 2, vec![9, 8, 7, 6, 5, 4]).unwrap();
    let bytes = encode(image::DynamicImage::ImageRgb8(img), image::ImageFormat::Png);
    let icon = decode_icon(&bytes, IconFormat::Png).unwrap();
    assert_eq!((icon.width, icon.height), (1, 2));
    assert_eq!(icon.rgba, vec![9, 8, 7, 255, 6, 5, 4, 255]);
}

#[test]
fn jpeg_icon_decodes() {
    let img = image::RgbImage::from_pixel(3, 2, image::Rgb([128, 128, 128]));
    let bytes = encode(image::DynamicImage::ImageRgb8(img), image::ImageFormat::Jpeg);
    let icon = decode_icon(&bytes, IconFormat::Jpeg).unwrap();
    assert_eq!((icon.width, icon.height), (3, 2));
    assert_eq!(icon.rgba.len(), 3 * 2 * 4);
    assert!(icon.rgba.chunks(4).all(|p| p[3] == 255));
    assert!(decode_icon(&bytes, IconFormat::Png).is_none());
}

#[test]
fn unreadable_icon_is_none() {
    assert!(decode_icon(b"not an image", IconFormat::Png).is_none());
    assert!(decode_icon(&[], IconFormat::Jpeg).is_none());
}

#[test]
fn icon_files_in_order() {
    let files = icon_files();
    assert_eq!(
        files,
        [("icon.png", IconFormat::Png), ("icon.jpg", IconFormat::Jpeg), ("icon.jpeg", IconFormat::Jpeg)]
    );
}

#[test]
fn fallback_icon_is_the_drawn_disc() {
    let icon = fallback_icon();
    assert_eq!((icon.width, icon.height), (ICON_SIZE, ICON_SIZE));
    assert_eq!(icon.rgba, fallback_icon_rgba());
}
