use webcodecs::codec_id::AVCodecID;
use webcodecs::error::ErrorStatus;
use webcodecs::hardware::{
    available_accelerator_names, hardware_accelerators, hw_device_type_for_name, platform_hw_type,
    preferred_hardware_accelerator, AVHWDeviceType, TargetOs,
};
use webcodecs::image_decoder::{
    check_frame_index, check_image_options, parse_mime_type, ColorSpaceConversion, ImageTrackListInner,
};

#[test]
fn image_mime_types() {
    assert!(matches!(parse_mime_type("image/jpeg"), Ok(AVCodecID::Mjpeg)));
    assert!(matches!(parse_mime_type("IMAGE/JPG"), Ok(AVCodecID::Mjpeg)));
    assert!(matches!(parse_mime_type("image/x-bmp"), Ok(AVCodecID::Bmp)));
    assert!(matches!(parse_mime_type("image/avif"), Ok(AVCodecID::Av1)));
    let e = parse_mime_type("image/tiff").unwrap_err();
    assert_eq!(e.reason, "Unsupported image type: image/tiff");
}

#[test]
fn image_track_list_selection() {
    let mut t = ImageTrackListInner::initial(Some(AVCodecID::Gif));
    assert_eq!(t.length(), 1);
    assert!(t.animated(0));
    assert_eq!(t.frame_count(0), 0);
    assert_eq!(t.selected_index(), 0);
    assert_eq!(t.item(1), None);
    t.set_selected(0, false);
    assert_eq!(t.selected_index(), -1);
    assert_eq!(t.selected_track(), None);
    t.set_selected(0, true);
    assert!(t.selected(0));
    assert_eq!(t.record_decoded(12, Some(false)), 1);
    assert!(!t.animated(0));
    assert_eq!(t.frame_count(0), 1);
    let png = ImageTrackListInner::initial(Some(AVCodecID::Png));
    assert_eq!(png.frame_count(0), 1);
}

#[test]
fn image_reset_forgets_animated_frame_count() {
    let mut t = ImageTrackListInner::initial(Some(AVCodecID::Gif));
    assert_eq!(t.record_decoded(5, None), 5);
    assert_eq!(t.frame_count(0), 5);
    t.forget_decoded();
    assert_eq!(t.frame_count(0), 0);
    let mut png = ImageTrackListInner::initial(Some(AVCodecID::Png));
    png.forget_decoded();
    assert_eq!(png.frame_count(0), 1);
}

#[test]
fn image_frame_index_checks() {
    assert!(check_frame_index(0, 1).is_ok());
    let e = check_frame_index(3, 2).unwrap_err();
    assert_eq!(e.status, ErrorStatus::InvalidArg);
    assert_eq!(e.reason, "RangeError: Frame index 3 out of bounds (image has 2 frames)");
    assert_eq!(check_frame_index(0, 0).unwrap_err().reason, "No frames decoded from image");
}

#[test]
fn hardware_accelerator_tables() {
    let list = hardware_accelerators(&[false, true, false, false, true, false, false, false]);
    assert_eq!(list.len(), 8);
    assert_eq!(list[0].name, "videotoolbox");
    assert_eq!(list[1].description, "NVIDIA CUDA/NVENC");
    assert_eq!(available_accelerator_names(&list), vec!["cuda".to_string(), "qsv".to_string()]);
    assert_eq!(hw_device_type_for_name("nvenc"), Some(AVHWDeviceType::Cuda));
    assert_eq!(hw_device_type_for_name("metal"), None);
    assert_eq!(platform_hw_type(TargetOs::Linux), AVHWDeviceType::Vaapi);
    assert_eq!(platform_hw_type(TargetOs::Other), AVHWDeviceType::Cuda);
    assert_eq!(preferred_hardware_accelerator(TargetOs::Windows, &[false, true, true, false]), Some("dxva2".to_string()));
    assert_eq!(preferred_hardware_accelerator(TargetOs::Other, &[false, false]), None);
}

#[test]
fn image_decoder_options() {
    assert_eq!(check_image_options(None, None, None).ok(), Some(ColorSpaceConversion::Default));
    assert_eq!(check_image_options(Some("none"), Some(10), Some(20)).ok(), Some(ColorSpaceConversion::Disabled));
    assert_eq!(check_image_options(Some("default"), None, None).ok(), Some(ColorSpaceConversion::Default));
    let e = check_image_options(Some("srgb"), None, None).unwrap_err();
    assert_eq!(e.status, ErrorStatus::InvalidArg);
    assert_eq!(e.reason, "Invalid colorSpaceConversion value 'srgb'. Expected 'none' or 'default'");
    assert_eq!(
        check_image_options(None, Some(10), None).unwrap_err().reason,
        "Both desiredWidth and desiredHeight must be specified, or neither"
    );
    assert!(check_image_options(None, None, Some(5)).is_err());
}
