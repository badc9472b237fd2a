use fmr::frame::ImageData;
use fmr::tools::zip::{load_image, load_image_with_ref, read_to_end_when, read_to_end_when_image,
    search_images_in_order, zip_file_names, zip_is_file_name, zip_open, zip_read_member};

fn png_bytes(width: u32, height: u32) -> Vec<u8> {
    let img = image::DynamicImage::new_rgb8(width, height);
    let mut bytes: Vec<u8> = Vec::new();
    img.write_to(&mut std::io::Cursor::new(&mut bytes), image::ImageFormat::Png).unwrap();
    bytes
}

fn test_archive() -> Vec<u8> {
    let mut writer = zip::ZipWriter::new(std::io::Cursor::new(Vec::new()));
    let options = zip::write::FileOptions::default();
    writer.start_file("notes.txt", options).unwrap();
    std::io::Write::write_all(&mut writer, b"not an image").unwrap();
    writer.start_file("page2.png", options).unwrap();
    std::io::Write::write_all(&mut writer, &png_bytes(4, 3)).unwrap();
    writer.start_file("broken.png", options).unwrap();
    std::io::Write::write_all(&mut writer, b"pretends to be an image").unwrap();
    writer.finish().unwrap().into_inner()
}

#[test]
fn opening_garbage_bytes_fails() {
    assert!(zip_open(b"not a zip".to_vec()).is_err());
}

#[test]
fn the_member_names_come_back_once_each() {
    let archive = zip_open(test_archive()).unwrap();
    let mut names = zip_file_names(&archive);
    names.sort();
    assert_eq!(names, vec!["broken.png", "notes.txt", "page2.png"]);
}

#[test]
fn members_read_back_their_bytes() {
    let mut archive = zip_open(test_archive()).unwrap();
    assert_eq!(zip_read_member(&mut archive, "notes.txt").unwrap(), b"not an image".to_vec());
    assert!(zip_read_member(&mut archive, "missing.txt").is_err());
}

#[test]
fn file_names_are_told_from_directory_names() {
    assert!(zip_is_file_name("page2.png"));
    assert!(!zip_is_file_name("pages/"));
    assert!(!zip_is_file_name("pages\\"));
    assert!(zip_is_file_name(""));
}

#[test]
fn read_to_end_when_asks_the_caller_first() {
    let mut archive = zip_open(test_archive()).unwrap();
    let read = read_to_end_when(&mut archive, "notes.txt", |_| false);
    assert_eq!(read, None);
    let read = read_to_end_when(&mut archive, "notes.txt", |name| name.ends_with(".txt"));
    assert_eq!(read, Some(b"not an image".to_vec()));
}

#[test]
fn only_image_named_files_are_read_for_images() {
    let mut archive = zip_open(test_archive()).unwrap();
    assert_eq!(read_to_end_when_image(&mut archive, "notes.txt"), None);
    assert!(read_to_end_when_image(&mut archive, "page2.png").is_some());
}

#[test]
fn a_member_loads_as_an_image_only_when_it_decodes() {
    let mut archive = zip_open(test_archive()).unwrap();
    match load_image_with_ref(&mut archive, "page2.png") {
        Some(ImageData::StaticImage(p)) => assert_eq!((p.width(), p.height()), (4, 3)),
        _ => panic!("the png member must decode"),
    }
    assert!(load_image_with_ref(&mut archive, "notes.txt").is_none());
    assert!(load_image_with_ref(&mut archive, "broken.png").is_none());
    assert!(load_image_with_ref(&mut archive, "missing.png").is_none());

    let archive = zip_open(test_archive()).unwrap();
    assert!(load_image(archive, "page2.png").is_some());
}

#[test]
fn the_search_takes_the_first_member_that_yields_an_image() {
    let mut archive = zip_open(test_archive()).unwrap();
    let names = vec!["notes.txt".to_string(), "broken.png".to_string(), "page2.png".to_string()];
    match search_images_in_order(&mut archive, &names) {
        Some(ImageData::StaticImage(p)) => assert_eq!((p.width(), p.height()), (4, 3)),
        _ => panic!("the search must find the decodable member"),
    }
    let none = search_images_in_order(&mut archive, &vec!["notes.txt".to_string()]);
    assert!(none.is_none());
}
