//! The clipped pixel buffer, exercised through real embedded-graphics
//! drawables: a local adapter implements the draw-target capability over the
//! library's buffer so that circles, lines and displays can be drawn into it.

use core::convert::Infallible;

use embedded_graphics::draw_target::DrawTarget;
use embedded_graphics::geometry::Dimensions;
use embedded_graphics::geometry::Point;
use embedded_graphics::geometry::Size;
use embedded_graphics::mock_display::MockDisplay;
use embedded_graphics::pixelcolor::BinaryColor;
use embedded_graphics::pixelcolor::PixelColor;
use embedded_graphics::pixelcolor::Rgb888;
use embedded_graphics::pixelcolor::RgbColor;
use embedded_graphics::primitives::Circle;
use embedded_graphics::primitives::Line;
use embedded_graphics::primitives::Primitive;
use embedded_graphics::primitives::PrimitiveStyle;
use embedded_graphics::primitives::Rectangle;
use embedded_graphics::primitives::StyledDrawable;
use embedded_graphics::Drawable;
use embedded_graphics::Pixel;

use kolibri_embedded_gui::framebuf::WidgetFramebuf;
use kolibri_embedded_gui::geometry::Pixel as KPixel;
use kolibri_embedded_gui::geometry::Point as KPoint;
use kolibri_embedded_gui::geometry::Rectangle as KRectangle;
use kolibri_embedded_gui::geometry::Size as KSize;

/// Adapts the library's buffer to embedded-graphics' draw-target capability,
/// converting the geometry values one for one.
struct Bridge<C: PixelColor> {
    fb: WidgetFramebuf<C>,
}

fn to_krect(area: &Rectangle) -> KRectangle {
    KRectangle::new(
        KPoint::new(area.top_left.x, area.top_left.y),
        KSize::new(area.size.width, area.size.height),
    )
}

impl<C: PixelColor> Dimensions for Bridge<C> {
    fn bounding_box(&self) -> Rectangle {
        let r = self.fb.bounding_box();
        Rectangle::new(
            Point::new(r.top_left.x, r.top_left.y),
            Size::new(r.size.width, r.size.height),
        )
    }
}

impl<C: PixelColor> DrawTarget for Bridge<C> {
    type Color = C;
    type Error = Infallible;

    fn draw_iter<I>(&mut self, pixels: I) -> Result<(), Infallible>
    where
        I: IntoIterator<Item = Pixel<C>>,
    {
        let v: Vec<KPixel<C>> = pixels
            .into_iter()
            .map(|p| KPixel(KPoint::new(p.0.x, p.0.y), p.1))
            .collect();
        self.fb.draw_iter(&v);
        Ok(())
    }

    fn fill_contiguous<I>(&mut self, area: &Rectangle, colors: I) -> Result<(), Infallible>
    where
        I: IntoIterator<Item = C>,
    {
        let need: usize =
            (area.size.width as usize).saturating_mul(area.size.height as usize);
        let v: Vec<C> = colors.into_iter().take(need).collect();
        self.fb.fill_contiguous(&to_krect(area), &v);
        Ok(())
    }

    fn fill_solid(&mut self, area: &Rectangle, color: C) -> Result<(), Infallible> {
        self.fb.fill_solid(&to_krect(area), color);
        Ok(())
    }

    fn clear(&mut self, color: C) -> Result<(), Infallible> {
        self.fb.clear(color);
        Ok(())
    }
}

#[test]
fn test_basic_fbuf() {
    let data = vec![BinaryColor::Off; 8 * 8];
    let mut fbuf = Bridge {
        fb: WidgetFramebuf::new(data, KSize::new(8, 8), KPoint::new(0, 0)),
    };

    let color = BinaryColor::On;

    let circ = Circle::new(Point::zero(), 8);

    let mut expected = MockDisplay::new();
    expected.set_allow_overdraw(true);
    // clear area
    Rectangle::new(Point::zero(), Size::new(8, 8))
        .into_styled(PrimitiveStyle::with_fill(BinaryColor::Off))
        .draw(&mut expected)
        .unwrap();

    circ.draw_styled(&PrimitiveStyle::with_fill(color), &mut expected)
        .unwrap();

    let mut actual = MockDisplay::new();
    circ.draw_styled(&PrimitiveStyle::with_fill(color), &mut fbuf)
        .unwrap();
    actual
        .fill_contiguous(
            &Rectangle::new(Point::zero(), Size::new(8, 8)),
            fbuf.fb.buf.iter().cloned(),
        )
        .unwrap();

    actual.assert_eq(&expected)
}

#[test]
fn test_widget_framebuf_new() {
    let buf = vec![Rgb888::BLACK; 9];
    let framebuf = WidgetFramebuf::new(buf, KSize::new(3, 3), KPoint::new(0, 0));

    assert_eq!(framebuf.size.width, 3);
    assert_eq!(framebuf.size.height, 3);
    assert_eq!(framebuf.len, 9);
}

#[test]
fn test_widget_framebuf_try_new() {
    let buf = vec![Rgb888::BLACK; 9];
    let framebuf = WidgetFramebuf::try_new(buf, KSize::new(3, 3), KPoint::zero());

    assert!(framebuf.is_some());
    let framebuf = framebuf.unwrap();
    assert_eq!(framebuf.size.width, 3);
    assert_eq!(framebuf.size.height, 3);
    assert_eq!(framebuf.len, 9);
}

#[test]
fn test_widget_framebuf_try_new_fail() {
    let buf = vec![Rgb888::BLACK; 8];
    let framebuf = WidgetFramebuf::try_new(buf, KSize::new(3, 3), KPoint::new(0, 0));

    assert!(framebuf.is_none());
}

#[test]
fn test_widget_framebuf_draw_line() {
    let buf = vec![Rgb888::BLACK; 9];
    let mut framebuf = Bridge {
        fb: WidgetFramebuf::new(buf, KSize::new(3, 3), KPoint::new(0, 0)),
    };

    let line = Line::new(Point::new(0, 0), Point::new(2, 2));
    let styled_line = line.into_styled(PrimitiveStyle::with_stroke(Rgb888::RED, 1));

    styled_line.draw(&mut framebuf).unwrap();

    assert_eq!(framebuf.fb.buf[0], Rgb888::RED);
    assert_eq!(framebuf.fb.buf[4], Rgb888::RED);
    assert_eq!(framebuf.fb.buf[8], Rgb888::RED);
}

#[test]
fn test_fill_contiguous() {
    let data = vec![BinaryColor::Off; 8 * 8];
    let mut fbuf = WidgetFramebuf::new(data, KSize::new(8, 8), KPoint::new(0, 0));

    let colors = vec![
        BinaryColor::On,
        BinaryColor::On,
        BinaryColor::On,
        BinaryColor::On,
        BinaryColor::Off,
        BinaryColor::Off,
        BinaryColor::Off,
        BinaryColor::Off,
        BinaryColor::On,
        BinaryColor::On,
        BinaryColor::On,
        BinaryColor::On,
        BinaryColor::Off,
        BinaryColor::Off,
        BinaryColor::Off,
        BinaryColor::Off,
    ];
    let area = KRectangle::new(KPoint::new(2, 2), KSize::new(4, 4));

    fbuf.fill_contiguous(&area, &colors);

    let mut expected = MockDisplay::new();
    expected.set_allow_overdraw(true);
    expected
        .fill_solid(
            &Rectangle::new(Point::zero(), Size::new(8, 8)),
            BinaryColor::Off,
        )
        .unwrap();
    expected
        .fill_solid(
            &Rectangle::new(Point::new(2, 2), Size::new(4, 1)),
            BinaryColor::On,
        )
        .unwrap();
    expected
        .fill_solid(
            &Rectangle::new(Point::new(2, 3), Size::new(4, 1)),
            BinaryColor::Off,
        )
        .unwrap();
    expected
        .fill_solid(
            &Rectangle::new(Point::new(2, 4), Size::new(4, 1)),
            BinaryColor::On,
        )
        .unwrap();
    expected
        .fill_solid(
            &Rectangle::new(Point::new(2, 5), Size::new(4, 1)),
            BinaryColor::Off,
        )
        .unwrap();

    let mut actual = MockDisplay::new();
    actual
        .fill_contiguous(
            &Rectangle::new(Point::zero(), Size::new(8, 8)),
            fbuf.buf.iter().cloned(),
        )
        .unwrap();

    actual.assert_eq(&expected);
}

#[test]
fn test_fill_contiguous_clipped() {
    let data = vec![BinaryColor::Off; 9];
    let mut fbuf = WidgetFramebuf::new(data, KSize::new(3, 3), KPoint::new(0, 0));

    let colors = vec![
        BinaryColor::On,
        BinaryColor::Off,
        BinaryColor::On,
        BinaryColor::Off,
        BinaryColor::On,
        BinaryColor::On,
        BinaryColor::On,
        BinaryColor::Off,
        BinaryColor::Off,
        BinaryColor::On,
        BinaryColor::On,
        BinaryColor::Off,
        BinaryColor::On,
        BinaryColor::On,
        BinaryColor::On,
        BinaryColor::On,
        BinaryColor::Off,
        BinaryColor::On,
        BinaryColor::Off,
        BinaryColor::On,
    ];
    let area = KRectangle::new(KPoint::new(-1, -1), KSize::new(5, 5));

    fbuf.fill_contiguous(&area, &colors);

    let expected = vec![
        BinaryColor::On,
        BinaryColor::Off,
        BinaryColor::Off,
        BinaryColor::Off,
        BinaryColor::On,
        BinaryColor::On,
        BinaryColor::Off,
        BinaryColor::On,
        BinaryColor::Off,
    ];

    assert_eq!(fbuf.buf, expected);
}

#[test]
fn test_fill_contiguous_clipped_2() {
    let data = vec![BinaryColor::Off; 12];
    let mut fbuf = WidgetFramebuf::new(data, KSize::new(4, 3), KPoint::new(2, 1));

    let colors = vec![
        BinaryColor::On,
        BinaryColor::Off,
        BinaryColor::On,
        BinaryColor::Off,
        BinaryColor::On,
        BinaryColor::On,
        BinaryColor::On,
        BinaryColor::Off,
        BinaryColor::Off,
        BinaryColor::On,
        BinaryColor::On,
        BinaryColor::Off,
        BinaryColor::On,
        BinaryColor::On,
        BinaryColor::On,
        BinaryColor::On,
        BinaryColor::Off,
        BinaryColor::On,
    ];
    let area = KRectangle::new(KPoint::new(1, 0), KSize::new(6, 3));

    fbuf.fill_contiguous(&area, &colors);

    let expected = vec![
        BinaryColor::Off,
        BinaryColor::Off,
        BinaryColor::On,
        BinaryColor::On,
        BinaryColor::On,
        BinaryColor::On,
        BinaryColor::On,
        BinaryColor::Off,
        BinaryColor::Off,
        BinaryColor::Off,
        BinaryColor::Off,
        BinaryColor::Off,
    ];

    assert_eq!(fbuf.buf, expected);
}

#[test]
fn test_fill_contiguous_short_iterator() {
    let data = vec![BinaryColor::Off; 9];
    let mut fbuf = WidgetFramebuf::new(data, KSize::new(3, 3), KPoint::new(0, 0));

    let colors = vec![BinaryColor::On; 5];
    let area = KRectangle::new(KPoint::new(0, 0), KSize::new(3, 3));

    fbuf.fill_contiguous(&area, &colors);

    let expected = vec![
        BinaryColor::On,
        BinaryColor::On,
        BinaryColor::On,
        BinaryColor::On,
        BinaryColor::On,
        BinaryColor::Off,
        BinaryColor::Off,
        BinaryColor::Off,
        BinaryColor::Off,
    ];

    assert_eq!(fbuf.buf, expected);
}

#[test]
fn test_fill_solid() {
    let data = vec![BinaryColor::Off; 8 * 8];
    let mut fbuf = WidgetFramebuf::new(data, KSize::new(8, 8), KPoint::new(0, 0));

    let area = KRectangle::new(KPoint::new(1, 1), KSize::new(6, 6));
    fbuf.fill_solid(&area, BinaryColor::On);

    let mut expected = MockDisplay::new();
    expected.set_allow_overdraw(true);
    expected
        .fill_solid(
            &Rectangle::new(Point::zero(), Size::new(8, 8)),
            BinaryColor::Off,
        )
        .unwrap();
    expected
        .fill_solid(
            &Rectangle::new(Point::new(1, 1), Size::new(6, 6)),
            BinaryColor::On,
        )
        .unwrap();

    let mut actual = MockDisplay::new();
    actual
        .fill_contiguous(
            &Rectangle::new(Point::zero(), Size::new(8, 8)),
            fbuf.buf.iter().cloned(),
        )
        .unwrap();

    actual.assert_eq(&expected);
}

#[test]
fn test_fill_solid_clipped() {
    let data = vec![BinaryColor::Off; 9];
    let mut fbuf = WidgetFramebuf::new(data, KSize::new(3, 3), KPoint::new(0, 0));

    let area = KRectangle::new(KPoint::new(-1, -1), KSize::new(5, 5));

    fbuf.fill_solid(&area, BinaryColor::On);

    let expected = vec![
        BinaryColor::On,
        BinaryColor::On,
        BinaryColor::On,
        BinaryColor::On,
        BinaryColor::On,
        BinaryColor::On,
        BinaryColor::On,
        BinaryColor::On,
        BinaryColor::On,
    ];

    assert_eq!(fbuf.buf, expected);
}

#[test]
fn test_fill_solid_clipped_2() {
    let data = vec![BinaryColor::Off; 12];
    let mut fbuf = WidgetFramebuf::new(data, KSize::new(4, 3), KPoint::new(2, 1));

    let area = KRectangle::new(KPoint::new(1, 0), KSize::new(3, 3));

    fbuf.fill_solid(&area, BinaryColor::On);

    let expected = vec![
        BinaryColor::On,
        BinaryColor::On,
        BinaryColor::Off,
        BinaryColor::Off,
        BinaryColor::On,
        BinaryColor::On,
        BinaryColor::Off,
        BinaryColor::Off,
        BinaryColor::Off,
        BinaryColor::Off,
        BinaryColor::Off,
        BinaryColor::Off,
    ];

    assert_eq!(fbuf.buf, expected);
}

#[test]
fn test_clear() {
    let data = vec![BinaryColor::On; 8 * 8];
    let mut fbuf = WidgetFramebuf::new(data, KSize::new(8, 8), KPoint::new(0, 0));

    fbuf.clear(BinaryColor::Off);

    let mut expected = MockDisplay::new();
    expected
        .fill_solid(
            &Rectangle::new(Point::zero(), Size::new(8, 8)),
            BinaryColor::Off,
        )
        .unwrap();

    let mut actual = MockDisplay::new();
    actual
        .fill_contiguous(
            &Rectangle::new(Point::zero(), Size::new(8, 8)),
            fbuf.buf.iter().cloned(),
        )
        .unwrap();

    actual.assert_eq(&expected);
}
