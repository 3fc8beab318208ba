use ssd1351::async_builder::AsyncBuilder;
use ssd1351::async_display::AsyncDisplay;
use ssd1351::async_interface::{DisplayError, Phase};
use ssd1351::mode::async_graphics::{AsyncGraphicsMode, Pixel, ResetAction};
use ssd1351::properties::{DisplayRotation, DisplaySize};
use ssd1351::recording::RecordingInterface;

fn buffered(size: DisplaySize) -> AsyncGraphicsMode<RecordingInterface> {
    let mirror = vec![0xAAu8; size.num_pixels() * 2];
    AsyncBuilder::new().with_size(size).connect_interface(RecordingInterface::new(), Some(mirror))
}

fn streamed(
    size: DisplaySize,
    rotation: DisplayRotation,
) -> AsyncGraphicsMode<RecordingInterface> {
    AsyncBuilder::new()
        .with_size(size)
        .with_rotation(rotation)
        .connect_interface(RecordingInterface::new(), None)
}

fn log(surface: AsyncGraphicsMode<RecordingInterface>) -> Vec<(Phase, Vec<u8>)> {
    let (display, _) = surface.release();
    display.release().into_records().into_iter().map(|r| (r.phase, r.bytes)).collect()
}

fn c(bytes: &[u8]) -> (Phase, Vec<u8>) {
    (Phase::Command, bytes.to_vec())
}

fn d(bytes: &[u8]) -> (Phase, Vec<u8>) {
    (Phase::Data, bytes.to_vec())
}

#[test]
fn builder_starts_with_the_square_panel_unrotated() {
    let display = AsyncBuilder::new().connect_display(RecordingInterface::new());
    assert_eq!(display.get_size(), DisplaySize::Display128x128);
    assert_eq!(display.get_rotation(), DisplayRotation::Rotate0);
    let display = AsyncBuilder::default().connect_display(RecordingInterface::new());
    assert_eq!(display.get_size(), DisplaySize::Display128x128);
    assert_eq!(display.get_rotation(), DisplayRotation::Rotate0);
}

#[test]
fn builder_options_are_independent() {
    let builder = AsyncBuilder::new()
        .with_rotation(DisplayRotation::Rotate270)
        .with_size(DisplaySize::Display128x96);
    let display = builder.connect_display(RecordingInterface::new());
    assert_eq!(display.get_size(), DisplaySize::Display128x96);
    assert_eq!(display.get_rotation(), DisplayRotation::Rotate270);
    assert!(display.release().into_records().is_empty());
}

#[test]
fn builder_hands_the_mirror_to_the_surface() {
    let surface = buffered(DisplaySize::Display128x96);
    assert_eq!(surface.fb().len(), 128 * 96 * 2);
    assert!(surface.fb().iter().all(|b| *b == 0xAA));
    assert_eq!(surface.size(), (128, 96));
    let (display, mirror) = surface.release();
    assert_eq!(mirror.map(|m| m.len()), Some(128 * 96 * 2));
    assert!(display.release().into_records().is_empty());
}

#[test]
fn streamed_surface_has_no_mirror() {
    let surface = streamed(DisplaySize::Display128x128, DisplayRotation::Rotate0);
    assert!(surface.fb().is_empty());
    let (_, mirror) = surface.release();
    assert_eq!(mirror, None);
}

#[test]
fn buffered_clear_zeroes_the_mirror_without_sending() {
    let mut surface = buffered(DisplaySize::Display128x128);
    assert_eq!(surface.clear(false), Ok(()));
    assert_eq!(surface.fb().len(), 128 * 128 * 2);
    assert!(surface.fb().iter().all(|b| *b == 0));
    assert_eq!(surface.clear(false), Ok(()));
    assert!(surface.fb().iter().all(|b| *b == 0));
    assert!(log(surface).is_empty());
}

#[test]
fn flush_after_clear_streams_the_whole_mirror_once() {
    let mut surface = buffered(DisplaySize::Display128x96);
    assert_eq!(surface.clear(false), Ok(()));
    assert_eq!(surface.flush(), Ok(()));
    let sent = log(surface);
    assert_eq!(sent.len(), 6);
    assert_eq!(&sent[..5], &[c(&[0x15]), d(&[0, 127]), c(&[0x75]), d(&[0, 95]), c(&[0x5C])]);
    assert_eq!(sent[5], d(&vec![0u8; 128 * 96 * 2]));
}

#[test]
fn buffered_clear_with_flush_sends_the_blank_mirror() {
    let mut surface = buffered(DisplaySize::Display128x128);
    assert_eq!(surface.clear(true), Ok(()));
    let sent = log(surface);
    assert_eq!(sent.len(), 6);
    assert_eq!(sent[5], d(&vec![0u8; 32768]));
}

#[test]
fn buffered_clear_blanks_the_mirror_even_if_the_flush_fails() {
    let mirror = vec![0x55u8; 32768];
    let bus = RecordingInterface::failing_after(2, DisplayError::BusWriteError);
    let mut surface = AsyncBuilder::new().connect_interface(bus, Some(mirror));
    assert_eq!(surface.clear(true), Err(DisplayError::BusWriteError));
    assert!(surface.fb().iter().all(|b| *b == 0));
}

#[test]
fn streamed_clear_blanks_the_panel() {
    let mut surface = streamed(DisplaySize::Display128x96, DisplayRotation::Rotate0);
    assert_eq!(surface.clear(false), Ok(()));
    let sent = log(surface);
    assert_eq!(sent.len(), 5 + 128 * 96);
    assert!(sent[5..].iter().all(|t| *t == d(&[0, 0])));
}

#[test]
fn streamed_flush_sends_nothing() {
    let mut surface = streamed(DisplaySize::Display128x96, DisplayRotation::Rotate0);
    assert_eq!(surface.flush(), Ok(()));
    assert!(log(surface).is_empty());
}

#[test]
fn buffered_set_pixel_writes_high_byte_first() {
    let mut surface = buffered(DisplaySize::Display128x128);
    assert_eq!(surface.clear(false), Ok(()));
    assert_eq!(surface.set_pixel(3, 2, 0x1234), Ok(()));
    let offset = (2 * 128 + 3) * 2;
    assert_eq!(surface.fb()[offset], 0x12);
    assert_eq!(surface.fb()[offset + 1], 0x34);
    let touched = surface.fb().iter().filter(|b| **b != 0).count();
    assert_eq!(touched, 2);
    assert!(log(surface).is_empty());
}

#[test]
fn buffered_set_pixel_ignores_the_orientation() {
    let mirror = vec![0u8; 128 * 96 * 2];
    let mut surface = AsyncBuilder::new()
        .with_size(DisplaySize::Display128x96)
        .with_rotation(DisplayRotation::Rotate90)
        .connect_interface(RecordingInterface::new(), Some(mirror));
    assert_eq!(surface.get_dimensions(), (96, 128));
    assert_eq!(surface.set_pixel(100, 5, 0xBEEF), Ok(()));
    let offset = (5 * 128 + 100) * 2;
    assert_eq!(&surface.fb()[offset..offset + 2], &[0xBE, 0xEF]);
}

#[test]
fn streamed_set_pixel_opens_a_window_and_sends_the_colour() {
    let mut surface = streamed(DisplaySize::Display128x96, DisplayRotation::Rotate0);
    assert_eq!(surface.set_pixel(100, 5, 0xF800), Ok(()));
    assert_eq!(
        log(surface),
        vec![c(&[0x15]), d(&[100, 127]), c(&[0x75]), d(&[5, 95]), c(&[0x5C]), d(&[0xF8, 0x00])]
    );
}

#[test]
fn streamed_set_pixel_exchanges_the_axes_when_turned() {
    for rotation in [DisplayRotation::Rotate90, DisplayRotation::Rotate270] {
        let mut surface = streamed(DisplaySize::Display128x96, rotation);
        assert_eq!(surface.get_dimensions(), (96, 128));
        assert_eq!(surface.set_pixel(5, 100, 0x07E0), Ok(()));
        assert_eq!(
            log(surface),
            vec![
                c(&[0x15]),
                d(&[100, 127]),
                c(&[0x75]),
                d(&[5, 95]),
                c(&[0x5C]),
                d(&[0x07, 0xE0])
            ]
        );
    }
    let mut surface = streamed(DisplaySize::Display128x96, DisplayRotation::Rotate180);
    assert_eq!(surface.set_pixel(100, 5, 0x07E0), Ok(()));
    assert_eq!(log(surface)[1], d(&[100, 127]));
}

#[test]
fn streamed_set_pixel_reports_a_refusal() {
    let bus = RecordingInterface::failing_after(5, DisplayError::BusWriteError);
    let mut surface = AsyncBuilder::new().connect_interface(bus, None);
    assert_eq!(surface.set_pixel(1, 1, 0xFFFF), Err(DisplayError::BusWriteError));
    assert_eq!(log(surface).len(), 5);
}

#[test]
fn streamed_and_buffered_put_the_same_pixel_bytes_on_the_bus() {
    let (x, y, color) = (17u32, 42u32, 0xA5C3u16);
    let mut direct = streamed(DisplaySize::Display128x128, DisplayRotation::Rotate0);
    assert_eq!(direct.set_pixel(x, y, color), Ok(()));
    let direct = log(direct);
    let pixel = &direct.last().unwrap().1;

    let mut mirrored = buffered(DisplaySize::Display128x128);
    assert_eq!(mirrored.clear(false), Ok(()));
    assert_eq!(mirrored.set_pixel(x, y, color), Ok(()));
    assert_eq!(mirrored.flush(), Ok(()));
    let mirrored = log(mirrored);
    let frame = &mirrored.last().unwrap().1;
    let offset = ((y * 128 + x) * 2) as usize;
    assert_eq!(&frame[offset..offset + 2], &pixel[..]);
    assert_eq!(pixel, &vec![0xA5, 0xC3]);
    assert_eq!(direct[1], d(&[x as u8, 127]));
    assert_eq!(direct[3], d(&[y as u8, 127]));
}

#[test]
fn two_pixels_and_a_flush_end_to_end() {
    let mirror = vec![0u8; 128 * 128 * 2];
    let mut surface = AsyncBuilder::new()
        .with_size(DisplaySize::Display128x128)
        .connect_interface(RecordingInterface::new(), Some(mirror));
    assert_eq!(surface.init(), Ok(()));
    assert_eq!(surface.set_pixel(0, 0, 0xF800), Ok(()));
    assert_eq!(surface.set_pixel(127, 127, 0x07E0), Ok(()));
    assert_eq!(surface.flush(), Ok(()));
    let sent = log(surface);
    let after_init = 30 + 2 + 5 + 16384 + 1;
    assert_eq!(sent.len(), after_init + 6);
    assert_eq!(
        &sent[after_init..after_init + 5],
        &[c(&[0x15]), d(&[0, 127]), c(&[0x75]), d(&[0, 127]), c(&[0x5C])]
    );
    let (phase, frame) = &sent[after_init + 5];
    assert_eq!(*phase, Phase::Data);
    assert_eq!(frame.len(), 32768);
    assert_eq!(&frame[0..2], &[0xF8, 0x00]);
    assert_eq!(&frame[32766..32768], &[0x07, 0xE0]);
    assert!(frame[2..32766].iter().all(|b| *b == 0));
}

#[test]
fn surface_init_and_rotation_reach_the_controller() {
    let mut surface = streamed(DisplaySize::Display128x96, DisplayRotation::Rotate0);
    assert_eq!(surface.set_rotation(DisplayRotation::Rotate90), Ok(()));
    assert_eq!(surface.get_dimensions(), (96, 128));
    assert_eq!(surface.size(), (128, 96));
    assert_eq!(log(surface), vec![c(&[0xA0]), d(&[0x37])]);
}

#[test]
fn draw_iter_leaves_out_pixels_off_the_panel() {
    let mut surface = buffered(DisplaySize::Display128x96);
    assert_eq!(surface.clear(false), Ok(()));
    let pixels = [
        Pixel { x: 0, y: 0, color: 0x1111 },
        Pixel { x: 127, y: 95, color: 0x2222 },
        Pixel { x: -1, y: 0, color: 0x3333 },
        Pixel { x: 0, y: -1, color: 0x4444 },
        Pixel { x: 128, y: 0, color: 0x5555 },
        Pixel { x: 0, y: 96, color: 0x6666 },
        Pixel { x: 5, y: 7, color: 0x7777 },
        Pixel { x: 5, y: 7, color: 0x8899 },
    ];
    assert_eq!(surface.draw_iter(&pixels), Ok(()));
    let mut expected = vec![0u8; 128 * 96 * 2];
    expected[0] = 0x11;
    expected[1] = 0x11;
    expected[(95 * 128 + 127) * 2] = 0x22;
    expected[(95 * 128 + 127) * 2 + 1] = 0x22;
    expected[(7 * 128 + 5) * 2] = 0x88;
    expected[(7 * 128 + 5) * 2 + 1] = 0x99;
    assert_eq!(surface.fb(), &expected[..]);
    assert!(log(surface).is_empty());
}

#[test]
fn draw_iter_on_a_streamed_surface_draws_nothing() {
    let mut surface = streamed(DisplaySize::Display128x96, DisplayRotation::Rotate0);
    assert_eq!(surface.draw_iter(&[Pixel { x: 1, y: 1, color: 0xFFFF }]), Ok(()));
    assert!(surface.fb().is_empty());
    assert!(log(surface).is_empty());
}

#[test]
fn fb_mut_writes_into_the_mirror() {
    let mut surface = buffered(DisplaySize::Display128x96);
    {
        let mirror = surface.fb_mut();
        assert_eq!(mirror.len(), 128 * 96 * 2);
        mirror[10] = 0x42;
    }
    assert_eq!(surface.fb()[10], 0x42);
    assert_eq!(surface.fb()[11], 0xAA);
    assert_eq!(surface.fb().len(), 128 * 96 * 2);
    assert_eq!(surface.flush(), Ok(()));
    assert_eq!(log(surface)[5].1[10], 0x42);
}

#[test]
fn reset_drives_the_line_high_low_high() {
    let surface = streamed(DisplaySize::Display128x128, DisplayRotation::Rotate0);
    let mut actions = Vec::new();
    let mut step = 0;
    while let Some(action) = surface.reset_async(step) {
        actions.push(action);
        step += 1;
    }
    assert_eq!(
        actions,
        vec![
            ResetAction::DriveHigh,
            ResetAction::Wait(1),
            ResetAction::DriveLow,
            ResetAction::Wait(10),
            ResetAction::DriveHigh,
        ]
    );
    assert_eq!(surface.reset_async(5), None);
    assert_eq!(surface.reset_async(usize::MAX), None);
}

#[test]
fn surface_can_be_made_from_a_controller() {
    let display = AsyncDisplay::new(
        RecordingInterface::new(),
        DisplaySize::Display128x96,
        DisplayRotation::Rotate0,
    );
    let surface = AsyncGraphicsMode::new(display, Some(vec![0u8; 128 * 96 * 2]));
    assert_eq!(surface.fb().len(), 24576);
    assert_eq!(surface.get_dimensions(), (128, 96));
}
