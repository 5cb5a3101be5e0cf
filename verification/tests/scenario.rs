use dataset_destroyer::config::enumerations::FileName;
use dataset_destroyer::config::enumerations::FloatBits;
use dataset_destroyer::config::enumerations::OutputType;
use dataset_destroyer::config::enumerations::Parameter;
use dataset_destroyer::config::enumerations::SaveFormat;
use dataset_destroyer::config::filter::GaussianBlur;
use dataset_destroyer::config::Config;
use dataset_destroyer::config::ImageModifier;
use dataset_destroyer::config::Output;
use dataset_destroyer::config::Sequence;
use dataset_destroyer::processor::batch::settle;
use dataset_destroyer::processor::batch::Report;
use dataset_destroyer::processor::channels::combine_channels;
use dataset_destroyer::processor::channels::separate_channels;
use dataset_destroyer::processor::channels::Raster;
use dataset_destroyer::processor::parameter::FloatDraw;
use dataset_destroyer::processor::step::Step;
use dataset_destroyer::processor::unit::begin;
use dataset_destroyer::processor::unit::Next;

use image::GrayImage;
use image::Luma;
use image::Rgb;
use image::RgbImage;
use imageproc::filter::gaussian_blur_f32;

fn picture() -> RgbImage {
    let mut picture = RgbImage::new(10, 10);
    for (x, y, pixel) in picture.enumerate_pixels_mut() {
        *pixel = Rgb([(x * 25) as u8, (y * 25) as u8, ((x + y) * 12) as u8]);
    }
    picture
}

fn config() -> Config {
    Config {
        input: None,
        output: Some(Output {
            save: OutputType::Each,
            path: "out".to_string(),
            naming: FileName::Original,
            format: SaveFormat::Original,
        }),
        progress: None,
        define: Some(vec![ImageModifier::GaussianBlur(Box::new(GaussianBlur {
            id: "b1".to_string(),
            sigma: Parameter::Float(FloatBits { bits: 2.0f32.to_bits() }),
        }))]),
        sequence: Some(vec![Sequence {
            id: "seq1".to_string(),
            elements: vec![Parameter::Id("b1".to_string())],
        }]),
        execute: Some(Parameter::Id("seq1".to_string())),
    }
}

#[test]
fn blur_behind_a_sequence_is_the_blur_itself() {
    let config = config();
    let mut image = picture();
    let mut steps = 0;

    let pending = begin(&config).unwrap().decoded(Ok(())).unwrap();
    let mut next = pending.proceed();
    let report = loop {
        next = match next {
            Next::Apply(pending, step) => {
                match step {
                    Step::GaussianBlur { sigma: FloatDraw::Exact(sigma) } => {
                        image = gaussian_blur_f32(&image, f32::from_bits(sigma.bits));
                    },
                    other => panic!("unexpected {:?}", other),
                }
                steps += 1;
                pending.applied(Ok(()))
            },
            Next::Save(output) => {
                assert_eq!(output.path(), "out");
                break settle(Ok(()));
            },
            Next::Finish(report) => break report,
        };
    };

    assert_eq!(report, Report::Saved);
    assert_eq!(steps, 1);
    assert_eq!(image.dimensions(), (10, 10));
    assert_eq!(image, gaussian_blur_f32(&picture(), 2.0));
    assert_ne!(image, picture());
}

#[test]
fn planes_are_the_channels_of_the_pixels() {
    let picture = picture();
    let source = Raster { width: 10, height: 10, channels: 3, samples: picture.as_raw().clone() };
    let planes = separate_channels(&source, 10, 10).unwrap();
    assert_eq!(planes.len(), 3);
    for (c, plane) in planes.iter().enumerate() {
        let gray = GrayImage::from_raw(plane.width, plane.height, plane.samples.clone()).unwrap();
        for (x, y, pixel) in picture.enumerate_pixels() {
            assert_eq!(*gray.get_pixel(x, y), Luma([pixel.0[c]]));
        }
    }
    let combined = combine_channels(&planes, 3, 10, 10).unwrap();
    assert_eq!(RgbImage::from_raw(10, 10, combined.samples).unwrap(), picture);
}
