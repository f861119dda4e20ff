//! The camera: what a light path does next, where a ray starts, and the
//! text of the finished image.

use vstd::prelude::*;
use vstd::string::StringExecFns;
use crate::color::{pixel_line, Color};
use crate::ray::Point3;
use crate::interval::Interval;
use crate::scalar::{Scalar, INFINITY_BITS, ONE_BITS};
use crate::text::{decimal, joined, push_char, push_decimal};
use crate::vec3::Vec3;

verus! {

/// Pattern of `0.001`, the nearest distance at which a surface is seen.
pub const NEAREST_BITS: u64 = 0x3F50_624D_D2F1_A9FC;

/// A camera, set up for one image.
#[derive(Clone, Copy, Debug, PartialEq, Eq, Structural)]
pub struct Camera {
    pub image_width: i32,
    pub image_height: i32,
    pub cam_center: Point3,
    pub pixel00_loc: Point3,
    pub pixel_delta_u: Vec3,
    pub pixel_delta_v: Vec3,
    pub samples_per_pixel: i32,
    pub pixel_samples_scale: Scalar,
    pub max_depth: i32,
    pub defocus_angle: Scalar,
    pub defocus_disc_u: Vec3,
    pub defocus_disc_v: Vec3,
}

/// What became of a ray that was sent into the scene.
#[derive(Clone, Copy, Debug, PartialEq, Eq, Structural)]
pub enum Bounce {
    /// It hit nothing.
    Miss,
    /// It hit a surface whose material absorbed it.
    Absorbed,
    /// It hit a surface whose material sent it on.
    Scattered,
}

/// The light that arrives along a ray.
#[derive(Clone, Copy, Debug, PartialEq, Eq, Structural)]
pub enum Radiance {
    /// This colour.
    Fixed(Color),
    /// The colour of the sky in the ray's direction.
    Sky,
    /// The attenuation of the scattering, times the light that arrives
    /// along the scattered ray with `depth` bounces left.
    Attenuated { depth: i32 },
}

/// The colour without light: every channel is positive zero.
pub open spec fn black() -> Color {
    Vec3 { x: Scalar { bits: 0 }, y: Scalar { bits: 0 }, z: Scalar { bits: 0 } }
}

/// The first lines of an image of `width` by `height` pixels with levels
/// up to 255.
pub open spec fn header_text(width: nat, height: nat) -> Seq<char> {
    seq!['P', '3', '\n'] + decimal(width) + seq![' '] + decimal(height) + seq![
        '\n',
        '2',
        '5',
        '5',
        '\n',
    ]
}

/// The lines of the first `n` pixels of `pixels`, one after the other.
pub open spec fn pixel_lines(pixels: Seq<Color>, n: nat) -> Seq<char>
    decreases n,
{
    if n == 0 {
        Seq::<char>::empty()
    } else {
        pixel_lines(pixels, (n - 1) as nat) + pixel_line(pixels[n - 1])
    }
}

/// The lines of the pixels from `a` on follow those of the pixels before
/// `a`: for `part`, the pixels from `a` up to `a + b`, and `k` of them.
proof fn lemma_lines_append(pixels: Seq<Color>, a: nat, b: nat, k: nat)
    requires
        a + b <= pixels.len(),
        k <= b,
    ensures
        pixel_lines(pixels, a + k) == pixel_lines(pixels, a) + pixel_lines(
            pixels.subrange(a as int, (a + b) as int),
            k,
        ),
    decreases k,
{
    let part = pixels.subrange(a as int, (a + b) as int);
    if k == 0 {
        assert(pixel_lines(pixels, a) =~= pixel_lines(pixels, a) + pixel_lines(part, 0));
    } else {
        lemma_lines_append(pixels, a, b, (k - 1) as nat);
        assert(part[k - 1] == pixels[a + k - 1]);
        assert(pixel_lines(pixels, a + k) =~= pixel_lines(pixels, a) + pixel_lines(part, k));
    }
}

/// The first `n` rows, one after the other, are the lines of the first
/// `n * width` pixels.
proof fn lemma_rows_prefix(rows: Seq<String>, pixels: Seq<Color>, width: nat, n: nat)
    requires
        pixels.len() == rows.len() * width,
        n <= rows.len(),
        forall|j: int|
            0 <= j < rows.len() ==> (#[trigger] rows[j])@ == pixel_lines(
                pixels.subrange(j * width, (j + 1) * width),
                width,
            ),
    ensures
        joined(rows, n) == pixel_lines(pixels, n * width),
    decreases n,
{
    if n == 0 {
        assert(n * width == 0) by (nonlinear_arith)
            requires
                n == 0,
        ;
    } else {
        let m = (n - 1) as nat;
        lemma_rows_prefix(rows, pixels, width, m);
        let lo = m * width;
        let hi = (m + 1) * width;
        assert(hi == lo + width && hi == n * width) by (nonlinear_arith)
            requires
                m + 1 == n,
                lo == m * width,
                hi == (m + 1) * width,
        ;
        assert(hi <= pixels.len()) by (nonlinear_arith)
            requires
                n <= rows.len(),
                hi == n * width,
                pixels.len() == rows.len() * width,
        ;
        lemma_lines_append(pixels, lo, width, width);
        assert(rows[m as int]@ == pixel_lines(pixels.subrange(lo as int, hi as int), width));
        assert(joined(rows, n) == joined(rows, m) + rows[m as int]@);
    }
}

/// Rows that each hold the lines of their pixels from left to right give,
/// put one after the other from the top, the lines of all pixels of the
/// image in reading order: `pixels` holds the image row by row, `width`
/// pixels to a row.
pub proof fn lemma_rows_in_reading_order(rows: Seq<String>, pixels: Seq<Color>, width: nat)
    requires
        pixels.len() == rows.len() * width,
        forall|j: int|
            0 <= j < rows.len() ==> (#[trigger] rows[j])@ == pixel_lines(
                pixels.subrange(j * width, (j + 1) * width),
                width,
            ),
    ensures
        joined(rows, rows.len()) == pixel_lines(pixels, pixels.len()),
{
    lemma_rows_prefix(rows, pixels, width, rows.len());
}

impl Camera {
    /// The image has pixels, each pixel is sampled, and no path has a
    /// negative number of bounces.
    pub open spec fn well_formed(self) -> bool {
        &&& self.image_width > 0
        &&& self.image_height >= 1
        &&& self.samples_per_pixel > 0
        &&& self.max_depth >= 0
    }

    /// Whether the camera is well formed.
    pub fn is_well_formed(&self) -> (r: bool)
        ensures
            r == self.well_formed(),
    {
        self.image_width > 0 && self.image_height >= 1 && self.samples_per_pixel > 0
            && self.max_depth >= 0
    }

    /// The number of rows of an image: `quotient`, the width divided by the
    /// aspect ratio, cut to an integer, and at least one.
    pub fn image_height(quotient: Scalar) -> (h: i32)
        ensures
            h == if quotient.spec_gt(Scalar { bits: ONE_BITS }) {
                quotient.spec_truncate()
            } else {
                1
            },
            h >= 1,
    {
        if quotient.gt(Scalar::one()) {
            quotient.truncate()
        } else {
            1
        }
    }

    /// The distances along a ray at which the scene is seen: from 0.001,
    /// so that a scattered ray does not meet the surface that it leaves, to
    /// infinity.
    pub fn visible_range() -> (r: Interval)
        ensures
            r.min.bits == NEAREST_BITS,
            r.max.bits == INFINITY_BITS,
            r.well_formed(),
    {
        Interval { min: Scalar::from_bits(NEAREST_BITS), max: Scalar::infinity() }
    }

    /// Whether progress is reported once `completed` rows are done: after
    /// every tenth row and after the last.
    pub fn progress_due(&self, completed: usize) -> (r: bool)
        ensures
            r == (completed % 10 == 0 || completed == self.image_height),
    {
        completed % 10 == 0 || (self.image_height >= 0 && completed == self.image_height as usize)
    }

    /// Whether a path with `depth` bounces left is at its end: it then
    /// carries no light, and the scene is not asked.
    pub fn exhausted(depth: i32) -> (r: bool)
        ensures
            r == (depth <= 0),
    {
        depth <= 0
    }

    /// The light along a ray with `depth` bounces left, of which `bounce`
    /// says what the scene over `(0.001, infinity)` made. With no bounce
    /// left it is black, whatever the scene. Else a ray that was absorbed
    /// is black, one that missed shows the sky, and one that was scattered
    /// is followed with one bounce less.
    pub fn ray_color(depth: i32, bounce: Bounce) -> (r: Radiance)
        ensures
            depth <= 0 ==> r == Radiance::Fixed(black()),
            depth > 0 ==> r == match bounce {
                Bounce::Miss => Radiance::Sky,
                Bounce::Absorbed => Radiance::Fixed(black()),
                Bounce::Scattered => Radiance::Attenuated { depth: (depth - 1) as i32 },
            },
            r matches Radiance::Attenuated { depth: d } ==> 0 <= d < depth,
    {
        if depth <= 0 {
            return Radiance::Fixed(Vec3::zeros());
        }
        match bounce {
            Bounce::Miss => Radiance::Sky,
            Bounce::Absorbed => Radiance::Fixed(Vec3::zeros()),
            Bounce::Scattered => Radiance::Attenuated { depth: depth - 1 },
        }
    }

    /// Where a ray of this camera starts: at the camera's centre where the
    /// defocus angle is not positive, else at `disc_sample`, a random point
    /// of the defocus disc.
    pub fn ray_origin(&self, disc_sample: Point3) -> (orig: Point3)
        ensures
            orig == if self.defocus_angle.spec_le(Scalar { bits: 0 }) {
                self.cam_center
            } else {
                disc_sample
            },
    {
        if self.defocus_angle.le(Scalar::zero()) {
            self.cam_center
        } else {
            disc_sample
        }
    }

    /// The first lines of the image's text.
    pub fn header(&self) -> (text: String)
        requires
            self.well_formed(),
        ensures
            text@ == header_text(self.image_width as nat, self.image_height as nat),
    {
        let mut text = String::new();
        push_char(&mut text, 'P');
        push_char(&mut text, '3');
        push_char(&mut text, '\n');
        push_decimal(&mut text, self.image_width as u32);
        push_char(&mut text, ' ');
        push_decimal(&mut text, self.image_height as u32);
        push_char(&mut text, '\n');
        push_char(&mut text, '2');
        push_char(&mut text, '5');
        push_char(&mut text, '5');
        push_char(&mut text, '\n');
        assert(text@ =~= header_text(self.image_width as nat, self.image_height as nat));
        text
    }

    /// The text of one row of the image: the lines of its pixels, given as
    /// linear colours, from left to right.
    pub fn render_row(pixels: &Vec<Color>) -> (row: String)
        ensures
            row@ == pixel_lines(pixels@, pixels.len() as nat),
    {
        let mut row = String::new();
        let mut i: usize = 0;
        while i < pixels.len()
            invariant
                i <= pixels.len(),
                row@ == pixel_lines(pixels@, i as nat),
            decreases pixels.len() - i,
        {
            let line = pixels[i].to_string();
            row.append(line.as_str());
            i += 1;
        }
        row
    }

    /// The text of the image: the header, then the rows from the top one
    /// down, whatever the order in which they were made.
    pub fn render(&self, rows: &Vec<String>) -> (text: String)
        requires
            self.well_formed(),
            rows.len() == self.image_height,
        ensures
            text@ == header_text(self.image_width as nat, self.image_height as nat) + joined(
                rows@,
                rows.len() as nat,
            ),
    {
        let mut text = self.header();
        let mut j: usize = 0;
        while j < rows.len()
            invariant
                j <= rows.len(),
                text@ == header_text(self.image_width as nat, self.image_height as nat) + joined(
                    rows@,
                    j as nat,
                ),
            decreases rows.len() - j,
        {
            text.append(rows[j].as_str());
            assert(text@ =~= header_text(self.image_width as nat, self.image_height as nat)
                + joined(rows@, (j + 1) as nat));
            j += 1;
        }
        text
    }
}

} // verus!
