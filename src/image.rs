use vstd::arithmetic::div_mod::lemma_fundamental_div_mod_converse;
use vstd::arithmetic::power2::lemma2_to64;
use vstd::prelude::*;

use crate::error::{ColorSpace, Error};
use crate::pixel::{rescale, rescale_sample, unsigned_max};

verus! {

/// Mathematical model of one image component.
pub struct ComponentView {
    pub dx: u32,
    pub dy: u32,
    pub width: u32,
    pub height: u32,
    pub precision: u32,
    pub bpp: u32,
    pub signed: bool,
    pub alpha: bool,
    pub data: Seq<i32>,
}

impl ComponentView {
    /// The sample array holds exactly one sample per pixel of the component,
    /// and the precision lies in `1..=16` bits.
    pub open spec fn wf(self) -> bool {
        &&& self.data.len() == self.width as int * self.height as int
        &&& 1 <= self.precision <= 16
    }
}

/// One channel of a raster image: its shape, sample format and samples.
pub struct ImageComponent {
    dx: u32,
    dy: u32,
    width: u32,
    height: u32,
    precision: u32,
    bpp: u32,
    signed: bool,
    alpha: bool,
    data: Vec<i32>,
}

impl View for ImageComponent {
    type V = ComponentView;

    closed spec fn view(&self) -> ComponentView {
        ComponentView {
            dx: self.dx,
            dy: self.dy,
            width: self.width,
            height: self.height,
            precision: self.precision,
            bpp: self.bpp,
            signed: self.signed,
            alpha: self.alpha,
            data: self.data@,
        }
    }
}

impl ImageComponent {
    #[verifier::type_invariant]
    spec fn inv(&self) -> bool {
        self@.wf()
    }

    /// Builds a component with subsampling factors `dx`, `dy`; `None` when
    /// `data` does not hold exactly `width * height` samples or the precision
    /// is outside `1..=16`.
    pub fn new(
        dx: u32,
        dy: u32,
        width: u32,
        height: u32,
        precision: u32,
        bpp: u32,
        signed: bool,
        alpha: bool,
        data: Vec<i32>,
    ) -> (r: Option<ImageComponent>)
        ensures
            (data@.len() == width as int * height as int && 1 <= precision <= 16) <==> r is Some,
            r matches Some(c) ==> c@ == (ComponentView {
                dx,
                dy,
                width,
                height,
                precision,
                bpp,
                signed,
                alpha,
                data: data@,
            }),
    {
        assert((width as u64) * (height as u64) <= 0xFFFF_FFFFu64 * 0xFFFF_FFFFu64) by (nonlinear_arith);
        if data.len() as u64 == (width as u64) * (height as u64) && 1 <= precision && precision <= 16 {
            Some(ImageComponent { dx, dy, width, height, precision, bpp, signed, alpha, data })
        } else {
            None
        }
    }

    /// Horizontal subsampling factor relative to the reference grid.
    pub fn dx(&self) -> (r: u32)
        ensures
            r == self@.dx,
    {
        self.dx
    }

    /// Vertical subsampling factor relative to the reference grid.
    pub fn dy(&self) -> (r: u32)
        ensures
            r == self@.dy,
    {
        self.dy
    }

    /// Component width.
    pub fn width(&self) -> (r: u32)
        ensures
            r == self@.width,
    {
        self.width
    }

    /// Component height.
    pub fn height(&self) -> (r: u32)
        ensures
            r == self@.height,
    {
        self.height
    }

    /// Component precision in bits, in `1..=16`.
    pub fn precision(&self) -> (r: u32)
        ensures
            r == self@.precision,
            1 <= r <= 16,
    {
        proof {
            use_type_invariant(self);
        }
        self.precision
    }

    /// Image depth in bits.
    pub fn bpp(&self) -> (r: u32)
        ensures
            r == self@.bpp,
    {
        self.bpp
    }

    /// Whether the component is an alpha channel.
    pub fn is_alpha(&self) -> (r: bool)
        ensures
            r == self@.alpha,
    {
        self.alpha
    }

    /// Whether the samples are signed.
    pub fn is_signed(&self) -> (r: bool)
        ensures
            r == self@.signed,
    {
        self.signed
    }

    /// The component's samples, one per pixel.
    pub fn data(&self) -> (r: &[i32])
        ensures
            r@ == self@.data,
            self@.wf(),
    {
        proof {
            use_type_invariant(self);
        }
        self.data.as_slice()
    }

    /// The samples rescaled to unsigned 8-bit values.
    pub fn data_u8(&self) -> (r: Vec<u8>)
        ensures
            r@.len() == self@.data.len(),
            forall|i: int|
                0 <= i < r@.len() ==> r@[i] as int == rescale(
                    self@.data[i] as int,
                    self@.precision as nat,
                    self@.signed,
                    8,
                ),
    {
        proof {
            use_type_invariant(self);
        }
        let mut out: Vec<u8> = Vec::new();
        let mut i: usize = 0;
        while i < self.data.len()
            invariant
                1 <= self.precision <= 16,
                i <= self.data@.len(),
                out@.len() == i,
                forall|k: int|
                    0 <= k < i ==> out@[k] as int == rescale(
                        self.data@[k] as int,
                        self.precision as nat,
                        self.signed,
                        8,
                    ),
            decreases self.data@.len() - i,
        {
            let v = rescale_sample(self.data[i], self.precision, self.signed, 8);
            proof {
                vstd::arithmetic::power2::lemma2_to64();
            }
            out.push(v as u8);
            i = i + 1;
        }
        out
    }

    /// The samples rescaled to unsigned 16-bit values.
    pub fn data_u16(&self) -> (r: Vec<u16>)
        ensures
            r@.len() == self@.data.len(),
            forall|i: int|
                0 <= i < r@.len() ==> r@[i] as int == rescale(
                    self@.data[i] as int,
                    self@.precision as nat,
                    self@.signed,
                    16,
                ),
    {
        proof {
            use_type_invariant(self);
        }
        let mut out: Vec<u16> = Vec::new();
        let mut i: usize = 0;
        while i < self.data.len()
            invariant
                1 <= self.precision <= 16,
                i <= self.data@.len(),
                out@.len() == i,
                forall|k: int|
                    0 <= k < i ==> out@[k] as int == rescale(
                        self.data@[k] as int,
                        self.precision as nat,
                        self.signed,
                        16,
                    ),
            decreases self.data@.len() - i,
        {
            out.push(rescale_sample(self.data[i], self.precision, self.signed, 16));
            i = i + 1;
        }
        out
    }
}

/// Packed pixel layout of assembled image data.
#[derive(Debug, Clone, Copy, PartialEq, Eq, Structural)]
pub enum ImageFormat {
    L8,
    La8,
    Rgb8,
    Rgba8,
    L16,
    La16,
    Rgb16,
    Rgba16,
}

/// Interleaved samples, one variant per layout.
#[derive(Debug, Clone)]
pub enum ImagePixelData {
    L8(Vec<u8>),
    La8(Vec<u8>),
    Rgb8(Vec<u8>),
    Rgba8(Vec<u8>),
    L16(Vec<u16>),
    La16(Vec<u16>),
    Rgb16(Vec<u16>),
    Rgba16(Vec<u16>),
}

impl ImagePixelData {
    /// The layout tag that goes with the variant.
    pub open spec fn spec_format(&self) -> ImageFormat {
        match self {
            ImagePixelData::L8(_) => ImageFormat::L8,
            ImagePixelData::La8(_) => ImageFormat::La8,
            ImagePixelData::Rgb8(_) => ImageFormat::Rgb8,
            ImagePixelData::Rgba8(_) => ImageFormat::Rgba8,
            ImagePixelData::L16(_) => ImageFormat::L16,
            ImagePixelData::La16(_) => ImageFormat::La16,
            ImagePixelData::Rgb16(_) => ImageFormat::Rgb16,
            ImagePixelData::Rgba16(_) => ImageFormat::Rgba16,
        }
    }

    /// The interleaved samples as integers.
    pub open spec fn values(&self) -> Seq<int> {
        match self {
            ImagePixelData::L8(v) => v@.map_values(|x: u8| x as int),
            ImagePixelData::La8(v) => v@.map_values(|x: u8| x as int),
            ImagePixelData::Rgb8(v) => v@.map_values(|x: u8| x as int),
            ImagePixelData::Rgba8(v) => v@.map_values(|x: u8| x as int),
            ImagePixelData::L16(v) => v@.map_values(|x: u16| x as int),
            ImagePixelData::La16(v) => v@.map_values(|x: u16| x as int),
            ImagePixelData::Rgb16(v) => v@.map_values(|x: u16| x as int),
            ImagePixelData::Rgba16(v) => v@.map_values(|x: u16| x as int),
        }
    }
}

/// Assembled pixels: an independently owned packed buffer.
#[derive(Debug, Clone)]
pub struct ImageData {
    pub width: u32,
    pub height: u32,
    pub format: ImageFormat,
    pub data: ImagePixelData,
}

/// Channel arrangement of assembled pixels, independent of sample width.
#[derive(Debug, Clone, Copy, PartialEq, Eq, Structural)]
pub enum PixelLayout {
    Luminance,
    LuminanceAlpha,
    Rgb,
    Rgba,
}

pub open spec fn channel_count(layout: PixelLayout) -> nat {
    match layout {
        PixelLayout::Luminance => 1,
        PixelLayout::LuminanceAlpha => 2,
        PixelLayout::Rgb => 3,
        PixelLayout::Rgba => 4,
    }
}

/// The layout for `n` components, given whether any of them is flagged as
/// alpha and whether the caller supplies a constant alpha. Only two
/// components depend on the flag: three are always color, four always RGBA.
pub open spec fn classify(n: nat, has_alpha: bool, extra_alpha: bool) -> Option<PixelLayout> {
    if n == 1 {
        Some(if extra_alpha { PixelLayout::LuminanceAlpha } else { PixelLayout::Luminance })
    } else if n == 2 && has_alpha {
        Some(PixelLayout::LuminanceAlpha)
    } else if n == 3 {
        Some(if extra_alpha { PixelLayout::Rgba } else { PixelLayout::Rgb })
    } else if n == 4 {
        Some(PixelLayout::Rgba)
    } else {
        None
    }
}

pub open spec fn format_for(layout: PixelLayout, bits: nat) -> ImageFormat {
    match layout {
        PixelLayout::Luminance => if bits == 8 { ImageFormat::L8 } else { ImageFormat::L16 },
        PixelLayout::LuminanceAlpha => if bits == 8 { ImageFormat::La8 } else { ImageFormat::La16 },
        PixelLayout::Rgb => if bits == 8 { ImageFormat::Rgb8 } else { ImageFormat::Rgb16 },
        PixelLayout::Rgba => if bits == 8 { ImageFormat::Rgba8 } else { ImageFormat::Rgba16 },
    }
}

/// Chooses the pixel layout for a component topology.
pub fn classify_layout(n: usize, has_alpha: bool, extra_alpha: bool) -> (r: Option<PixelLayout>)
    ensures
        r == classify(n as nat, has_alpha, extra_alpha),
{
    if n == 1 {
        Some(if extra_alpha { PixelLayout::LuminanceAlpha } else { PixelLayout::Luminance })
    } else if n == 2 && has_alpha {
        Some(PixelLayout::LuminanceAlpha)
    } else if n == 3 {
        Some(if extra_alpha { PixelLayout::Rgba } else { PixelLayout::Rgb })
    } else if n == 4 {
        Some(PixelLayout::Rgba)
    } else {
        None
    }
}

pub open spec fn precisions_supported(comps: Seq<ComponentView>) -> bool {
    forall|i: int| 0 <= i < comps.len() ==> 1 <= #[trigger] comps[i].precision <= 16
}

pub open spec fn any_alpha(comps: Seq<ComponentView>) -> bool {
    exists|i: int| 0 <= i < comps.len() && #[trigger] comps[i].alpha
}

/// Output sample width: 8 bits when every precision fits in 8, else 16.
pub open spec fn target_bits(comps: Seq<ComponentView>) -> nat {
    if forall|i: int| 0 <= i < comps.len() ==> #[trigger] comps[i].precision <= 8 {
        8
    } else {
        16
    }
}

/// Number of samples in the shortest component.
pub open spec fn min_samples(comps: Seq<ComponentView>) -> nat
    decreases comps.len(),
{
    if comps.len() == 0 {
        0
    } else if comps.len() == 1 {
        comps[0].data.len()
    } else {
        let rest = min_samples(comps.drop_last());
        if comps.last().data.len() < rest {
            comps.last().data.len()
        } else {
            rest
        }
    }
}

/// The constant alpha sample, truncated to the output width.
pub open spec fn alpha_sample(alpha: Option<u32>, bits: nat) -> int {
    match alpha {
        Some(a) => if bits == 8 { (a as u8) as int } else { (a as u16) as int },
        None => 0,
    }
}

/// Sample `k` of the interleaved output with `c` channels per pixel: channel
/// `j` of pixel `i` is component `j` rescaled, or the constant alpha for the
/// channel past the last component.
pub open spec fn interleaved_sample(
    comps: Seq<ComponentView>,
    c: nat,
    bits: nat,
    alpha: int,
    k: int,
) -> int {
    let i = k / c as int;
    let j = k % c as int;
    if j < comps.len() {
        rescale(comps[j].data[i] as int, comps[j].precision as nat, comps[j].signed, bits)
    } else {
        alpha
    }
}

pub open spec fn interleaved(comps: Seq<ComponentView>, c: nat, bits: nat, alpha: int) -> Seq<int> {
    Seq::new(
        min_samples(comps) * c,
        |k: int| interleaved_sample(comps, c, bits, alpha, k),
    )
}

pub open spec fn color_space_supported(cs: ColorSpace) -> bool {
    cs == ColorSpace::Unknown || cs == ColorSpace::Unspecified || cs == ColorSpace::SRGB
        || cs == ColorSpace::Gray
}

/// Mathematical model of a raster image.
pub struct ImageView {
    pub x0: u32,
    pub y0: u32,
    pub x1: u32,
    pub y1: u32,
    pub color_space: ColorSpace,
    pub has_icc_profile: bool,
    pub comps: Seq<ComponentView>,
}

/// What assembling the pixels of `img` yields: the layout tag and the
/// interleaved samples, or the error.
pub open spec fn assemble(img: ImageView, alpha: Option<u32>) -> Result<
    (ImageFormat, Seq<int>),
    Error,
> {
    let comps = img.comps;
    if comps.len() == 0 {
        Err(Error::UnsupportedComponentsError(0))
    } else if !color_space_supported(img.color_space) {
        Err(Error::UnsupportedColorSpaceError(img.color_space))
    } else if !precisions_supported(comps) {
        Err(Error::UnsupportedComponentsError(comps.len() as u32))
    } else {
        match classify(comps.len(), any_alpha(comps), alpha is Some) {
            None => Err(Error::UnsupportedComponentsError(comps.len() as u32)),
            Some(layout) => {
                let bits = target_bits(comps);
                Ok(
                    (
                        format_for(layout, bits),
                        interleaved(comps, channel_count(layout), bits, alpha_sample(alpha, bits)),
                    ),
                )
            },
        }
    }
}

/// A raster image: placement on the reference grid, color space and components.
pub struct Image {
    x0: u32,
    y0: u32,
    x1: u32,
    y1: u32,
    color_space: ColorSpace,
    has_icc_profile: bool,
    comps: Vec<ImageComponent>,
}

impl View for Image {
    type V = ImageView;

    closed spec fn view(&self) -> ImageView {
        ImageView {
            x0: self.x0,
            y0: self.y0,
            x1: self.x1,
            y1: self.y1,
            color_space: self.color_space,
            has_icc_profile: self.has_icc_profile,
            comps: self.comps@.map_values(|c: ImageComponent| c@),
        }
    }
}

pub open spec fn views_of(comps: Seq<ImageComponent>) -> Seq<ComponentView> {
    comps.map_values(|c: ImageComponent| c@)
}

proof fn lemma_min_samples_le(comps: Seq<ComponentView>, j: int)
    requires
        0 <= j < comps.len(),
    ensures
        min_samples(comps) <= comps[j].data.len(),
    decreases comps.len(),
{
    if comps.len() > 1 && j < comps.len() - 1 {
        lemma_min_samples_le(comps.drop_last(), j);
    }
}

/// Scans the components once: whether every precision is in `1..=16`,
/// whether every precision fits in 8 bits, whether any is alpha, and the
/// length of the shortest sample array.
fn scan_components(comps: &Vec<ImageComponent>) -> (r: (bool, bool, bool, usize))
    requires
        comps@.len() >= 1,
    ensures
        r.0 == precisions_supported(views_of(comps@)),
        r.1 == (forall|i: int|
            0 <= i < comps@.len() ==> #[trigger] views_of(comps@)[i].precision <= 8),
        r.2 == any_alpha(views_of(comps@)),
        r.3 == min_samples(views_of(comps@)),
{
    let ghost cv = views_of(comps@);
    let mut supported = true;
    let mut narrow = true;
    let mut has_alpha = false;
    let mut npix: usize = comps[0].data.len();
    let mut i: usize = 0;
    while i < comps.len()
        invariant
            cv == views_of(comps@),
            1 <= comps@.len(),
            i <= comps@.len(),
            supported == (forall|k: int| 0 <= k < i ==> 1 <= #[trigger] cv[k].precision <= 16),
            narrow == (forall|k: int| 0 <= k < i ==> #[trigger] cv[k].precision <= 8),
            has_alpha == (exists|k: int| 0 <= k < i && #[trigger] cv[k].alpha),
            npix == min_samples(cv.take(if i == 0 { 1 } else { i as int })),
        decreases comps@.len() - i,
    {
        let c = &comps[i];
        assert(cv[i as int] == c@);
        let ghost old_supported = supported;
        let ghost old_narrow = narrow;
        let ghost old_alpha = has_alpha;
        if c.precision < 1 || c.precision > 16 {
            supported = false;
        }
        if c.precision > 8 {
            narrow = false;
        }
        if c.alpha {
            has_alpha = true;
        }
        assert(supported == (forall|k: int| 0 <= k < i + 1 ==> 1 <= #[trigger] cv[k].precision <= 16)) by {
            assert(cv[i as int].precision == c.precision);
        }
        assert(narrow == (forall|k: int| 0 <= k < i + 1 ==> #[trigger] cv[k].precision <= 8)) by {
            assert(cv[i as int].precision == c.precision);
        }
        assert(has_alpha == (exists|k: int| 0 <= k < i + 1 && #[trigger] cv[k].alpha)) by {
            assert(cv[i as int].alpha == c.alpha);
            if has_alpha && !old_alpha {
                assert(cv[i as int].alpha);
            }
        }
        if i > 0 {
            let ghost prefix = cv.take(i + 1);
            assert(prefix.drop_last() =~= cv.take(i as int));
            assert(prefix.last() == c@);
            if c.data.len() < npix {
                npix = c.data.len();
            }
        } else {
            assert(cv.take(1)[0] == cv[0]);
        }
        i = i + 1;
    }
    assert(cv.take(comps@.len() as int) =~= cv);
    (supported, narrow, has_alpha, npix)
}

/// Interleaves `c` channels per pixel: channel `j` of pixel `i` is component
/// `j` rescaled to `bits`, or `alpha` for the channel past the last component.
fn interleave(comps: &Vec<ImageComponent>, c: usize, bits: u32, alpha: u16, npix: usize) -> (r: Vec<u16>)
    requires
        1 <= comps@.len() <= c <= 4,
        c <= comps@.len() + 1,
        bits == 8 || bits == 16,
        alpha as int <= unsigned_max(bits as nat),
        precisions_supported(views_of(comps@)),
        npix == min_samples(views_of(comps@)),
    ensures
        r@.len() == npix * c,
        forall|k: int|
            0 <= k < r@.len() ==> r@[k] as int == interleaved_sample(
                views_of(comps@),
                c as nat,
                bits as nat,
                alpha as int,
                k,
            ),
        forall|k: int| 0 <= k < r@.len() ==> r@[k] as int <= unsigned_max(bits as nat),
{
    let ghost cv = views_of(comps@);
    let n = comps.len();
    let mut out: Vec<u16> = Vec::new();
    let mut i: usize = 0;
    while i < npix
        invariant
            cv == views_of(comps@),
            n == comps@.len(),
            1 <= n <= c <= 4,
            c <= n + 1,
            bits == 8 || bits == 16,
            alpha as int <= unsigned_max(bits as nat),
            precisions_supported(cv),
            npix == min_samples(cv),
            i <= npix,
            out@.len() == i * c,
            forall|k: int|
                0 <= k < out@.len() ==> out@[k] as int == interleaved_sample(
                    cv,
                    c as nat,
                    bits as nat,
                    alpha as int,
                    k,
                ),
            forall|k: int| 0 <= k < out@.len() ==> out@[k] as int <= unsigned_max(bits as nat),
        decreases npix - i,
    {
        let mut j: usize = 0;
        while j < c
            invariant
                cv == views_of(comps@),
                n == comps@.len(),
                1 <= n <= c <= 4,
                c <= n + 1,
                bits == 8 || bits == 16,
                alpha as int <= unsigned_max(bits as nat),
                precisions_supported(cv),
                npix == min_samples(cv),
                i < npix,
                j <= c,
                out@.len() == i * c + j,
                forall|k: int|
                    0 <= k < out@.len() ==> out@[k] as int == interleaved_sample(
                        cv,
                        c as nat,
                        bits as nat,
                        alpha as int,
                        k,
                    ),
                forall|k: int| 0 <= k < out@.len() ==> out@[k] as int <= unsigned_max(bits as nat),
            decreases c - j,
        {
            let v: u16 = if j < n {
                let comp = &comps[j];
                assert(cv[j as int] == comp@);
                assert(cv[j as int].precision == comp.precision);
                proof {
                    lemma_min_samples_le(cv, j as int);
                }
                rescale_sample(comp.data[i], comp.precision, comp.signed, bits)
            } else {
                alpha
            };
            proof {
                lemma_fundamental_div_mod_converse((i * c + j) as int, c as int, i as int, j as int);
            }
            out.push(v);
            j = j + 1;
        }
        assert(i * c + c == (i + 1) * c) by (nonlinear_arith);
        i = i + 1;
    }
    out
}

/// Narrows samples known to fit in 8 bits.
fn narrow_to_u8(v: &Vec<u16>) -> (r: Vec<u8>)
    requires
        forall|k: int| 0 <= k < v@.len() ==> v@[k] <= 255,
    ensures
        r@.len() == v@.len(),
        forall|k: int| 0 <= k < v@.len() ==> r@[k] as int == v@[k] as int,
{
    let mut out: Vec<u8> = Vec::new();
    let mut k: usize = 0;
    while k < v.len()
        invariant
            k <= v@.len(),
            out@.len() == k,
            forall|m: int| 0 <= m < v@.len() ==> v@[m] <= 255,
            forall|m: int| 0 <= m < k ==> out@[m] as int == v@[m] as int,
        decreases v@.len() - k,
    {
        out.push(v[k] as u8);
        k = k + 1;
    }
    out
}

impl Image {
    #[verifier::type_invariant]
    spec fn inv(&self) -> bool {
        self.x0 <= self.x1 && self.y0 <= self.y1 && self.comps@.len() <= u32::MAX
    }

    /// Builds an image; `None` when the extent ends before the offset or the
    /// component count does not fit in `u32`.
    pub fn new(
        x0: u32,
        y0: u32,
        x1: u32,
        y1: u32,
        color_space: ColorSpace,
        has_icc_profile: bool,
        comps: Vec<ImageComponent>,
    ) -> (r: Option<Image>)
        ensures
            (x0 <= x1 && y0 <= y1 && comps@.len() <= u32::MAX) <==> r is Some,
            r matches Some(img) ==> img@ == (ImageView {
                x0,
                y0,
                x1,
                y1,
                color_space,
                has_icc_profile,
                comps: views_of(comps@),
            }),
    {
        if x0 <= x1 && y0 <= y1 && comps.len() <= 0xFFFF_FFFF {
            Some(Image { x0, y0, x1, y1, color_space, has_icc_profile, comps })
        } else {
            None
        }
    }

    /// Horizontal offset.
    pub fn x_offset(&self) -> (r: u32)
        ensures
            r == self@.x0,
    {
        self.x0
    }

    /// Vertical offset.
    pub fn y_offset(&self) -> (r: u32)
        ensures
            r == self@.y0,
    {
        self.y0
    }

    /// Full resolution width, not reduced by the decode reduction.
    pub fn orig_width(&self) -> (r: u32)
        ensures
            r == self@.x1 - self@.x0,
    {
        proof {
            use_type_invariant(self);
        }
        self.x1 - self.x0
    }

    /// Full resolution height, not reduced by the decode reduction.
    pub fn orig_height(&self) -> (r: u32)
        ensures
            r == self@.y1 - self@.y0,
    {
        proof {
            use_type_invariant(self);
        }
        self.y1 - self.y0
    }

    fn component_dimensions(&self) -> (r: Option<(u32, u32)>)
        ensures
            self@.comps.len() == 0 ==> r is None,
            self@.comps.len() > 0 ==> r == Some((self@.comps[0].width, self@.comps[0].height)),
    {
        if self.comps.len() == 0 {
            None
        } else {
            Some((self.comps[0].width, self.comps[0].height))
        }
    }

    /// Decoded width (that of the first component), or 0 without components.
    pub fn width(&self) -> (r: u32)
        ensures
            r == (if self@.comps.len() == 0 { 0 } else { self@.comps[0].width }),
    {
        match self.component_dimensions() {
            Some((w, _)) => w,
            None => 0,
        }
    }

    /// Decoded height (that of the first component), or 0 without components.
    pub fn height(&self) -> (r: u32)
        ensures
            r == (if self@.comps.len() == 0 { 0 } else { self@.comps[0].height }),
    {
        match self.component_dimensions() {
            Some((_, h)) => h,
            None => 0,
        }
    }

    /// Color space.
    pub fn color_space(&self) -> (r: ColorSpace)
        ensures
            r == self@.color_space,
    {
        self.color_space
    }

    /// Number of components.
    pub fn num_components(&self) -> (r: u32)
        ensures
            r == self@.comps.len(),
    {
        proof {
            use_type_invariant(self);
        }
        self.comps.len() as u32
    }

    /// Whether the image carries an ICC profile.
    pub fn has_icc_profile(&self) -> (r: bool)
        ensures
            r == self@.has_icc_profile,
    {
        self.has_icc_profile
    }

    /// The image's components.
    pub fn components(&self) -> (r: &[ImageComponent])
        ensures
            views_of(r@) == self@.comps,
    {
        self.comps.as_slice()
    }

    /// Converts the components into packed pixels.
    ///
    /// `alpha_default` is the constant alpha added to a luminance or RGB image
    /// that has no alpha component of its own.
    pub fn get_pixels(&self, alpha_default: Option<u32>) -> (r: Result<ImageData, Error>)
        ensures
            match assemble(self@, alpha_default) {
                Ok((format, values)) => r matches Ok(d) && d.format == format
                    && d.data.spec_format() == format && d.data.values() == values
                    && d.width == self@.comps[0].width && d.height == self@.comps[0].height,
                Err(e) => r == Err::<ImageData, Error>(e),
            },
    {
        let ghost cv = views_of(self.comps@);
        assert(cv == self@.comps);
        let n = self.comps.len();
        if n == 0 {
            return Err(Error::UnsupportedComponentsError(0));
        }
        let width = self.comps[0].width;
        let height = self.comps[0].height;
        match self.color_space {
            ColorSpace::Unknown | ColorSpace::Unspecified | ColorSpace::SRGB | ColorSpace::Gray => {},
            cs => {
                return Err(Error::UnsupportedColorSpaceError(cs));
            },
        }
        let (supported, narrow, has_alpha, npix) = scan_components(&self.comps);
        if !supported {
            return Err(Error::UnsupportedComponentsError(n as u32));
        }
        let layout = match classify_layout(n, has_alpha, alpha_default.is_some()) {
            Some(l) => l,
            None => {
                return Err(Error::UnsupportedComponentsError(n as u32));
            },
        };
        let c: usize = match layout {
            PixelLayout::Luminance => 1,
            PixelLayout::LuminanceAlpha => 2,
            PixelLayout::Rgb => 3,
            PixelLayout::Rgba => 4,
        };
        let bits: u32 = if narrow { 8 } else { 16 };
        let alpha: u16 = match alpha_default {
            Some(a) => if narrow { (a as u8) as u16 } else { a as u16 },
            None => 0,
        };
        proof {
            vstd::arithmetic::power2::lemma2_to64();
        }
        let samples = interleave(&self.comps, c, bits, alpha, npix);
        let ghost expect = interleaved(cv, c as nat, bits as nat, alpha as int);
        let data = if narrow {
            let bytes = narrow_to_u8(&samples);
            let d = match layout {
                PixelLayout::Luminance => ImagePixelData::L8(bytes),
                PixelLayout::LuminanceAlpha => ImagePixelData::La8(bytes),
                PixelLayout::Rgb => ImagePixelData::Rgb8(bytes),
                PixelLayout::Rgba => ImagePixelData::Rgba8(bytes),
            };
            assert(d.values() =~= expect);
            d
        } else {
            let d = match layout {
                PixelLayout::Luminance => ImagePixelData::L16(samples),
                PixelLayout::LuminanceAlpha => ImagePixelData::La16(samples),
                PixelLayout::Rgb => ImagePixelData::Rgb16(samples),
                PixelLayout::Rgba => ImagePixelData::Rgba16(samples),
            };
            assert(d.values() =~= expect);
            d
        };
        let format = match data {
            ImagePixelData::L8(_) => ImageFormat::L8,
            ImagePixelData::La8(_) => ImageFormat::La8,
            ImagePixelData::Rgb8(_) => ImageFormat::Rgb8,
            ImagePixelData::Rgba8(_) => ImageFormat::Rgba8,
            ImagePixelData::L16(_) => ImageFormat::L16,
            ImagePixelData::La16(_) => ImageFormat::La16,
            ImagePixelData::Rgb16(_) => ImageFormat::Rgb16,
            ImagePixelData::Rgba16(_) => ImageFormat::Rgba16,
        };
        Ok(ImageData { width, height, format, data })
    }
}

/// Texture layout for a game-engine texture.
#[derive(Debug, Clone, Copy, PartialEq, Eq, Structural)]
pub enum TextureFormat {
    /// One 8-bit red channel.
    R8Unorm,
    /// Four 8-bit channels, sRGB color.
    Rgba8UnormSrgb,
}

/// Pixels laid out for a texture.
#[derive(Debug, Clone)]
pub struct TextureData {
    pub width: u32,
    pub height: u32,
    pub format: TextureFormat,
    pub data: Vec<u8>,
}

/// Sample `k` of a texture with `c` channels per pixel: the low byte of the
/// raw sample, or an opaque 255 for the channel past the last component.
pub open spec fn texture_sample(comps: Seq<ComponentView>, c: nat, k: int) -> int {
    let i = k / c as int;
    let j = k % c as int;
    if j < comps.len() {
        (comps[j].data[i] as u8) as int
    } else {
        255
    }
}

/// What laying out `img` as a texture yields: one component gives a red
/// texture, three or four give RGBA (three with an opaque alpha).
pub open spec fn texture(img: ImageView) -> Result<(TextureFormat, Seq<int>), Error> {
    let comps = img.comps;
    let n = comps.len();
    if n == 0 {
        Err(Error::UnsupportedComponentsError(0))
    } else if n == 1 {
        Ok((TextureFormat::R8Unorm, Seq::new(min_samples(comps), |k: int| texture_sample(comps, 1, k))))
    } else if n == 3 || n == 4 {
        Ok(
            (
                TextureFormat::Rgba8UnormSrgb,
                Seq::new(min_samples(comps) * 4, |k: int| texture_sample(comps, 4, k)),
            ),
        )
    } else {
        Err(Error::UnsupportedComponentsError(n as u32))
    }
}

fn texture_interleave(comps: &Vec<ImageComponent>, c: usize, npix: usize) -> (r: Vec<u8>)
    requires
        1 <= comps@.len() <= c <= 4,
        npix == min_samples(views_of(comps@)),
    ensures
        r@.len() == npix * c,
        forall|k: int|
            0 <= k < r@.len() ==> r@[k] as int == texture_sample(views_of(comps@), c as nat, k),
{
    let ghost cv = views_of(comps@);
    let n = comps.len();
    let mut out: Vec<u8> = Vec::new();
    let mut i: usize = 0;
    while i < npix
        invariant
            cv == views_of(comps@),
            n == comps@.len(),
            1 <= n <= c <= 4,
            npix == min_samples(cv),
            i <= npix,
            out@.len() == i * c,
            forall|k: int| 0 <= k < out@.len() ==> out@[k] as int == texture_sample(cv, c as nat, k),
        decreases npix - i,
    {
        let mut j: usize = 0;
        while j < c
            invariant
                cv == views_of(comps@),
                n == comps@.len(),
                1 <= n <= c <= 4,
                npix == min_samples(cv),
                i < npix,
                j <= c,
                out@.len() == i * c + j,
                forall|k: int| 0 <= k < out@.len() ==> out@[k] as int == texture_sample(cv, c as nat, k),
            decreases c - j,
        {
            let v: u8 = if j < n {
                let comp = &comps[j];
                assert(cv[j as int] == comp@);
                proof {
                    lemma_min_samples_le(cv, j as int);
                }
                comp.data[i] as u8
            } else {
                255
            };
            proof {
                lemma_fundamental_div_mod_converse((i * c + j) as int, c as int, i as int, j as int);
            }
            out.push(v);
            j = j + 1;
        }
        assert(i * c + c == (i + 1) * c) by (nonlinear_arith);
        i = i + 1;
    }
    out
}

impl Image {
    /// Lays the raw samples out as an engine texture: the low byte of each
    /// sample, one channel for a single component, RGBA for three (alpha 255)
    /// or four components.
    pub fn texture_data(&self) -> (r: Result<TextureData, Error>)
        ensures
            match texture(self@) {
                Ok((format, values)) => r matches Ok(t) && t.format == format
                    && t.data@.map_values(|x: u8| x as int) == values
                    && t.width == self@.comps[0].width && t.height == self@.comps[0].height,
                Err(e) => r == Err::<TextureData, Error>(e),
            },
    {
        let ghost cv = views_of(self.comps@);
        assert(cv == self@.comps);
        let n = self.comps.len();
        if n == 0 {
            return Err(Error::UnsupportedComponentsError(0));
        }
        if n != 1 && n != 3 && n != 4 {
            return Err(Error::UnsupportedComponentsError(n as u32));
        }
        let (_, _, _, npix) = scan_components(&self.comps);
        let (format, c) = if n == 1 {
            (TextureFormat::R8Unorm, 1usize)
        } else {
            (TextureFormat::Rgba8UnormSrgb, 4usize)
        };
        let data = texture_interleave(&self.comps, c, npix);
        let ghost expect = Seq::new(min_samples(cv) * c as nat, |k: int| texture_sample(cv, c as nat, k));
        assert(data@.map_values(|x: u8| x as int) =~= expect);
        assert(n == 1 ==> expect =~= Seq::new(min_samples(cv), |k: int| texture_sample(cv, 1, k)));
        Ok(TextureData { width: self.comps[0].width, height: self.comps[0].height, format, data })
    }
}

proof fn lemma_min_samples_uniform(comps: Seq<ComponentView>, len: nat)
    requires
        comps.len() >= 1,
        forall|i: int| 0 <= i < comps.len() ==> #[trigger] comps[i].data.len() == len,
    ensures
        min_samples(comps) == len,
    decreases comps.len(),
{
    if comps.len() > 1 {
        let rest = comps.drop_last();
        assert forall|i: int| 0 <= i < rest.len() implies #[trigger] rest[i].data.len() == len by {
            assert(rest[i] == comps[i]);
        }
        lemma_min_samples_uniform(rest, len);
    }
}

/// A single 8-bit component assembled with a constant alpha `a` below 256
/// gives luminance-alpha bytes, two per pixel, every second one equal to `a`;
/// for unsigned samples the luminance byte is the sample's low byte.
pub proof fn lemma_luminance_constant_alpha(img: ImageView, a: u32)
    requires
        img.comps.len() == 1,
        img.comps[0].wf(),
        img.comps[0].precision == 8,
        color_space_supported(img.color_space),
        a <= 255,
    ensures
        assemble(img, Some(a)) matches Ok((format, values)) && format == ImageFormat::La8
            && values.len() == 2 * img.comps[0].width * img.comps[0].height
            && (forall|k: int| 0 <= k < values.len() && k % 2 == 1 ==> #[trigger] values[k] == a)
            && (!img.comps[0].signed ==> forall|k: int|
            0 <= k < values.len() && k % 2 == 0 ==> #[trigger] values[k] == (img.comps[0].data[k
                / 2] as u8) as int),
{
    let comps = img.comps;
    assert(precisions_supported(comps));
    assert(target_bits(comps) == 8);
    let values = interleaved(comps, 2, 8, alpha_sample(Some(a), 8));
    assert((a as u8) as int == a) by (bit_vector)
        requires a <= 255;
    assert forall|k: int| 0 <= k < values.len() && k % 2 == 1 implies #[trigger] values[k] == a by {
        assert(k % 2 < comps.len() + 1);
    }
    assert(min_samples(comps) * 2 == 2 * comps[0].width * comps[0].height) by (nonlinear_arith)
        requires min_samples(comps) == comps[0].width * comps[0].height;
    if !comps[0].signed {
        assert forall|k: int| 0 <= k < values.len() && k % 2 == 0 implies #[trigger] values[k] == (
        comps[0].data[k / 2] as u8) as int by {
            let x = comps[0].data[k / 2];
            let u = (x as u32) as int;
            lemma2_to64();
            vstd::arithmetic::div_mod::lemma_div_by_multiple(u, 255);
            assert(u * 255 == 255 * u) by (nonlinear_arith);
            assert((x as u32) % 256 == (x as u8) as u32) by (bit_vector);
        }
    }
}

/// Four components of one shape with some precision above 8 bits give 16-bit
/// RGBA samples, four per pixel (eight bytes per pixel).
pub proof fn lemma_rgba_wide_layout(img: ImageView, alpha: Option<u32>)
    requires
        img.comps.len() == 4,
        forall|i: int|
            0 <= i < 4 ==> (#[trigger] img.comps[i]).wf() && img.comps[i].width
                == img.comps[0].width && img.comps[i].height == img.comps[0].height,
        precisions_supported(img.comps),
        exists|i: int| 0 <= i < 4 && #[trigger] img.comps[i].precision > 8,
        color_space_supported(img.color_space),
    ensures
        assemble(img, alpha) matches Ok((format, values)) && format == ImageFormat::Rgba16
            && values.len() == 4 * img.comps[0].width * img.comps[0].height,
{
    let comps = img.comps;
    let len = (comps[0].width * comps[0].height) as nat;
    assert forall|i: int| 0 <= i < comps.len() implies #[trigger] comps[i].data.len() == len by {
        assert(comps[i].wf());
    }
    lemma_min_samples_uniform(comps, len);
    assert(target_bits(comps) == 16);
    assert(len * 4 == 4 * comps[0].width * comps[0].height) by (nonlinear_arith)
        requires len == comps[0].width * comps[0].height;
}

} // verus!
