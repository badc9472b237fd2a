use fmr::frame::{get_allocatable_area, FrameData, Frames, ImageData, Picture, PictureFormat,
    SplittedImage, SplittedImageData};
use fmr::loader::FilterType;

fn png_bytes(width: u32, height: u32) -> Vec<u8> {
    let img = image::DynamicImage::new_rgb8(width, height);
    let mut bytes: Vec<u8> = Vec::new();
    img.write_to(&mut std::io::Cursor::new(&mut bytes), image::ImageFormat::Png).unwrap();
    bytes
}

fn picture(width: u32, height: u32) -> Picture {
    Picture::from_raw(image::DynamicImage::new_rgb8(width, height))
}

#[test]
fn tiling_covers_the_picture_row_major() {
    let area = get_allocatable_area(5, 3, (2, 2));
    assert_eq!(
        area,
        vec![
            vec![(0, 0, 2, 2), (2, 0, 2, 2), (4, 0, 1, 2)],
            vec![(0, 2, 2, 1), (2, 2, 2, 1), (4, 2, 1, 1)],
        ]
    );
    assert_eq!(get_allocatable_area(0, 3, (2, 2)), Vec::<Vec<(u32, u32, u32, u32)>>::new());
    assert_eq!(get_allocatable_area(2, 2, (4, 4)), vec![vec![(0, 0, 2, 2)]]);
}

#[test]
fn splitting_cuts_tiles_of_the_tiling_sizes() {
    let split = SplittedImage::make_allocatable(&picture(5, 3), (2, 2));
    assert_eq!(split.0.len(), 2);
    for row in &split.0 {
        assert_eq!(row.len(), 3);
    }
    assert_eq!(split.0[0][0].width(), 2);
    assert_eq!(split.0[0][2].width(), 1);
    assert_eq!(split.0[1][0].height(), 1);
}

#[test]
fn can_read_goes_by_the_file_name() {
    assert!(ImageData::can_read("page1.png"));
    assert!(ImageData::can_read("page1.jpg"));
    assert!(!ImageData::can_read("notes.txt"));
    assert!(!ImageData::can_read("archive.zip"));
}

#[test]
fn a_png_decodes_to_a_still_picture_with_its_dimensions() {
    let bytes = png_bytes(4, 3);
    match ImageData::load_from_memory(&bytes).unwrap() {
        ImageData::StaticImage(p) => {
            assert_eq!((p.width(), p.height()), (4, 3));
        },
        ImageData::AnimatedImage(_) => panic!("a png is not animated"),
    }
}

#[test]
fn garbage_bytes_do_not_decode() {
    assert!(ImageData::load_from_memory(b"not an image at all").is_err());
    assert!(ImageData::load_gif(b"not a gif").is_err());
}

#[test]
fn resize_fits_within_the_bounds() {
    let img = ImageData::StaticImage(picture(40, 30));
    match img.resize(8, 8, FilterType::Nearest) {
        ImageData::StaticImage(p) => {
            assert!(1 <= p.width() && p.width() <= 8);
            assert!(1 <= p.height() && p.height() <= 8);
        },
        ImageData::AnimatedImage(_) => panic!("still pictures stay still"),
    }
}

#[test]
fn resize_keeps_frame_timing() {
    let frame = FrameData {
        delay_numer_ms: 100,
        delay_denom_ms: 1,
        top: 2,
        left: 3,
        image: picture(10, 10),
    };
    let img = ImageData::AnimatedImage(vec![frame]);
    match img.resize(4, 4, FilterType::Triangle) {
        ImageData::AnimatedImage(frames) => {
            assert_eq!(frames.len(), 1);
            assert_eq!(frames[0].delay_numer_ms, 100);
            assert_eq!(frames[0].delay_denom_ms, 1);
            assert_eq!(frames[0].top, 2);
            assert_eq!(frames[0].left, 3);
            assert!(frames[0].image.width() <= 4 && frames[0].image.height() <= 4);
        },
        ImageData::StaticImage(_) => panic!("animated images stay animated"),
    }
}

#[test]
fn into_allocatable_keeps_the_shape() {
    let img = ImageData::StaticImage(picture(5, 3));
    match img.into_allocatable((2, 2)) {
        SplittedImageData::StaticImage(split) => {
            assert_eq!(split.0.len(), 2);
        },
        SplittedImageData::AnimatedImage(_) => panic!("still pictures stay still"),
    }
}

#[test]
fn encoding_then_decoding_keeps_the_dimensions() {
    let img = ImageData::StaticImage(picture(4, 3));
    let bytes = img.write_to(PictureFormat::Jpeg).unwrap();
    assert!(!bytes.is_empty());
    match ImageData::load_from_memory(&bytes).unwrap() {
        ImageData::StaticImage(p) => assert_eq!((p.width(), p.height()), (4, 3)),
        ImageData::AnimatedImage(_) => panic!("a jpeg is not animated"),
    }
}

#[test]
fn an_encoded_animation_round_trips_as_animated() {
    let frame = FrameData {
        delay_numer_ms: 100,
        delay_denom_ms: 1,
        top: 0,
        left: 0,
        image: picture(2, 2),
    };
    let img = ImageData::AnimatedImage(vec![frame]);
    let bytes = img.write_to(PictureFormat::Jpeg).unwrap();
    match ImageData::load_from_memory(&bytes).unwrap() {
        ImageData::AnimatedImage(frames) => assert_eq!(frames.len(), 1),
        ImageData::StaticImage(_) => panic!("the animated encoding was lost"),
    }
}

#[test]
fn the_collector_decodes_a_still_image_in_one_step() {
    let frames = Frames::from_memory(png_bytes(4, 3)).unwrap();
    let mut collector = frames.into_collector();
    assert_eq!(collector.load_next().unwrap(), false);
    match collector.into_image().unwrap() {
        ImageData::StaticImage(p) => assert_eq!((p.width(), p.height()), (4, 3)),
        ImageData::AnimatedImage(_) => panic!("a png is not animated"),
    }
}

#[test]
fn the_collector_collects_frames_one_by_one() {
    let frame = FrameData {
        delay_numer_ms: 100,
        delay_denom_ms: 1,
        top: 0,
        left: 0,
        image: picture(2, 2),
    };
    let gif = ImageData::AnimatedImage(vec![frame]).write_to(PictureFormat::Jpeg).unwrap();
    let frames = Frames::from_memory(gif).unwrap();
    let mut collector = frames.into_collector();
    assert_eq!(collector.load_next().unwrap(), true);
    assert_eq!(collector.load_next().unwrap(), false);
    match collector.into_image().unwrap() {
        ImageData::AnimatedImage(collected) => assert_eq!(collected.len(), 1),
        ImageData::StaticImage(_) => panic!("gif frames collect as animated"),
    }
}

#[test]
fn collect_vector_runs_the_collection_to_the_end() {
    let frames = Frames::from_memory(png_bytes(2, 2)).unwrap();
    match frames.into_collector().collect_vector().unwrap().unwrap() {
        ImageData::StaticImage(p) => assert_eq!((p.width(), p.height()), (2, 2)),
        ImageData::AnimatedImage(_) => panic!("a png is not animated"),
    }
}

#[test]
fn an_undecodable_collection_reports_the_failure() {
    // An unrecognized signature is refused up front.
    assert!(Frames::from_memory(b"junk".to_vec()).is_err());
    // A recognizable signature over a corrupt body fails at decode time.
    let mut corrupt: Vec<u8> = vec![0x89, 0x50, 0x4e, 0x47, 0x0d, 0x0a, 0x1a, 0x0a];
    corrupt.extend_from_slice(b"this is no image body");
    let frames = Frames::from_memory(corrupt).unwrap();
    let outcome = frames.into_collector().collect_vector().unwrap();
    assert!(outcome.is_err());
}

#[test]
fn a_named_format_decodes_only_its_own_bytes() {
    let png = png_bytes(4, 3);
    match ImageData::load_from_memory_with_format(&png, PictureFormat::Png).unwrap() {
        ImageData::StaticImage(p) => assert_eq!((p.width(), p.height()), (4, 3)),
        ImageData::AnimatedImage(_) => panic!("a png is not animated"),
    }
    assert!(ImageData::load_from_memory_with_format(&png, PictureFormat::Jpeg).is_err());
    assert!(ImageData::load_with_format(&png, PictureFormat::Gif).is_err());
}

#[test]
fn the_animated_named_format_yields_frames() {
    let frame = FrameData {
        delay_numer_ms: 100,
        delay_denom_ms: 1,
        top: 0,
        left: 0,
        image: picture(2, 2),
    };
    let gif = ImageData::AnimatedImage(vec![frame]).write_to(PictureFormat::Jpeg).unwrap();
    match ImageData::load_with_format(&gif, PictureFormat::Gif).unwrap() {
        ImageData::AnimatedImage(frames) => assert_eq!(frames.len(), 1),
        ImageData::StaticImage(_) => panic!("the animated format decodes frames"),
    }
}
