use vstd::prelude::*;
use vstd::string::StringSliceAdditionalSpecFns;

use crate::error::Error;

verus! {

/// Byte value of the ASCII colon separating the fields of a decode area.
pub const COLON: u8 = 58;

/// Byte value of the ASCII plus sign.
pub const PLUS: u8 = 43;

pub open spec fn is_digit(c: u8) -> bool {
    48 <= c <= 57
}

/// Value of a string of ASCII decimal digits.
pub open spec fn decimal_value(d: Seq<u8>) -> nat
    decreases d.len(),
{
    if d.len() == 0 {
        0
    } else {
        decimal_value(d.drop_last()) * 10 + (d.last() - 48) as nat
    }
}

pub open spec fn all_digits(d: Seq<u8>) -> bool {
    forall|i: int| 0 <= i < d.len() ==> is_digit(#[trigger] d[i])
}

/// A field without its leading `+`, if it has one.
pub open spec fn unsigned_digits(f: Seq<u8>) -> Seq<u8> {
    if f.len() > 0 && f[0] == PLUS {
        f.skip(1)
    } else {
        f
    }
}

/// A field read as a `u32` the way `u32::from_str` reads it: an optional `+`,
/// then one or more decimal digits, the value fitting in 32 bits.
pub open spec fn u32_field(f: Seq<u8>) -> Option<u32> {
    let d = unsigned_digits(f);
    if d.len() > 0 && all_digits(d) && decimal_value(d) <= u32::MAX {
        Some(decimal_value(d) as u32)
    } else {
        None
    }
}

/// Index of the first colon at or after `from`, or the length when none.
pub open spec fn find_colon(b: Seq<u8>, from: int) -> int
    decreases b.len() - from,
{
    if from >= b.len() {
        b.len() as int
    } else if b[from] == COLON {
        from
    } else {
        find_colon(b, from + 1)
    }
}

/// The colon-separated fields of `b` from `start` on, at most `limit` of
/// them, the last one taking the rest of the text.
pub open spec fn split_fields(b: Seq<u8>, start: int, limit: nat) -> Seq<Seq<u8>>
    decreases limit,
{
    let e = find_colon(b, start);
    if limit <= 1 || e >= b.len() {
        seq![b.subrange(start, b.len() as int)]
    } else {
        seq![b.subrange(start, e)] + split_fields(b, e + 1, (limit - 1) as nat)
    }
}

/// The four coordinates read from `x0:y0:x1:y1`: missing trailing fields
/// are 0, any field that is not a `u32` fails the whole text.
pub open spec fn parse_area(b: Seq<u8>) -> Option<(u32, u32, u32, u32)> {
    let fs = split_fields(b, 0, 4);
    if forall|i: int| 0 <= i < fs.len() ==> (#[trigger] u32_field(fs[i])) is Some {
        Some(
            (
                u32_field(fs[0])->Some_0,
                if fs.len() > 1 { u32_field(fs[1])->Some_0 } else { 0 },
                if fs.len() > 2 { u32_field(fs[2])->Some_0 } else { 0 },
                if fs.len() > 3 { u32_field(fs[3])->Some_0 } else { 0 },
            ),
        )
    } else {
        None
    }
}

proof fn lemma_decimal_prefix_le(d: Seq<u8>, n: int)
    requires
        0 <= n <= d.len(),
    ensures
        decimal_value(d.take(n)) <= decimal_value(d),
    decreases d.len(),
{
    if n < d.len() {
        lemma_decimal_prefix_le(d.drop_last(), n);
        assert(d.drop_last().take(n) =~= d.take(n));
    } else {
        assert(d.take(n) =~= d);
    }
}

/// Reads `b[start..end]` as a `u32` field.
fn parse_u32_field(b: &[u8], start: usize, end: usize) -> (r: Option<u32>)
    requires
        start <= end <= b@.len(),
    ensures
        r == u32_field(b@.subrange(start as int, end as int)),
{
    let ghost f = b@.subrange(start as int, end as int);
    let mut i = start;
    if i < end && b[i] == PLUS {
        i = i + 1;
    }
    let ghost d = b@.subrange(i as int, end as int);
    assert(d =~= unsigned_digits(f));
    if i == end {
        return None;
    }
    let first = i;
    let mut acc: u64 = 0;
    while i < end
        invariant
            start <= first <= i <= end <= b@.len(),
            d == b@.subrange(first as int, end as int),
            d == unsigned_digits(f),
            f == b@.subrange(start as int, end as int),
            acc == decimal_value(d.take(i - first)),
            acc <= u32::MAX,
            forall|k: int| 0 <= k < i - first ==> is_digit(#[trigger] d[k]),
        decreases end - i,
    {
        let c = b[i];
        if c < 48 || c > 57 {
            assert(!is_digit(d[i - first]));
            assert(!all_digits(d));
            return None;
        }
        proof {
            assert(d.take(i - first + 1).drop_last() =~= d.take(i - first));
        }
        acc = acc * 10 + (c - 48) as u64;
        i = i + 1;
        if acc > 0xFFFF_FFFF {
            proof {
                lemma_decimal_prefix_le(d, i - first);
                assert(decimal_value(d) > u32::MAX);
            }
            return None;
        }
    }
    assert(d.take(i - first) =~= d);
    Some(acc as u32)
}

/// Index of the first colon in `b` at or after `from`, or `b.len()`.
fn next_colon(b: &[u8], from: usize) -> (r: usize)
    requires
        from <= b@.len(),
    ensures
        r == find_colon(b@, from as int),
        from <= r <= b@.len(),
{
    let mut i = from;
    while i < b.len()
        invariant
            from <= i <= b@.len(),
            find_colon(b@, from as int) == find_colon(b@, i as int),
        decreases b@.len() - i,
    {
        if b[i] == COLON {
            return i;
        }
        i = i + 1;
    }
    i
}

/// The area of the source image to decode, as `(start_x, start_y, end_x,
/// end_y)` on the reference grid.
#[derive(Debug, Default, Clone, Copy, PartialEq, Eq, Structural)]
pub struct DecodeArea {
    start_x: u32,
    start_y: u32,
    end_x: u32,
    end_y: u32,
}

impl View for DecodeArea {
    type V = (u32, u32, u32, u32);

    closed spec fn view(&self) -> (u32, u32, u32, u32) {
        (self.start_x, self.start_y, self.end_x, self.end_y)
    }
}

impl DecodeArea {
    pub fn new(start_x: u32, start_y: u32, end_x: u32, end_y: u32) -> (r: Self)
        ensures
            r@ == (start_x, start_y, end_x, end_y),
    {
        DecodeArea { start_x, start_y, end_x, end_y }
    }

    pub fn start_x(&self) -> (r: u32)
        ensures
            r == self@.0,
    {
        self.start_x
    }

    pub fn start_y(&self) -> (r: u32)
        ensures
            r == self@.1,
    {
        self.start_y
    }

    pub fn end_x(&self) -> (r: u32)
        ensures
            r == self@.2,
    {
        self.end_x
    }

    pub fn end_y(&self) -> (r: u32)
        ensures
            r == self@.3,
    {
        self.end_y
    }

    /// Reads an area from its text form `x0:y0:x1:y1`. Missing trailing
    /// fields are 0; a field that is not a `u32` is an error.
    pub fn parse(s: &str) -> (r: Result<DecodeArea, Error>)
        ensures
            match parse_area(s.spec_bytes()) {
                Some(area) => r matches Ok(a) && a@ == area,
                None => r matches Err(Error::ParseAreaError(_)),
            },
    {
        let b = s.as_bytes();
        let len = b.len();
        let ghost fs = split_fields(b@, 0, 4);
        let ghost mut prefix: Seq<Seq<u8>> = Seq::empty();
        let mut vals: Vec<u32> = Vec::new();
        let mut start: usize = 0;
        let mut more = true;
        assert(fs == prefix + split_fields(b@, 0, 4)) by {
            assert(prefix + split_fields(b@, 0, 4) =~= split_fields(b@, 0, 4));
        }
        while more
            invariant
                len == b@.len(),
                b@ == s.spec_bytes(),
                fs == split_fields(b@, 0, 4),
                vals@.len() == prefix.len(),
                forall|i: int| 0 <= i < prefix.len() ==> u32_field(#[trigger] prefix[i]) == Some(vals@[i]),
                more ==> prefix.len() < 4 && start <= len && fs == prefix + split_fields(
                    b@,
                    start as int,
                    (4 - prefix.len()) as nat,
                ),
                !more ==> fs == prefix && 1 <= prefix.len() <= 4,
            decreases 4 - prefix.len(),
        {
            let k = vals.len();
            let e = if k == 3 { len } else { next_colon(b, start) };
            let ghost rest = split_fields(b@, start as int, (4 - k) as nat);
            let ghost field = b@.subrange(start as int, e as int);
            assert(rest[0] == field);
            assert(fs[k as int] == field) by {
                assert((prefix + rest)[k as int] == rest[0]);
            }
            match parse_u32_field(b, start, e) {
                None => {
                    assert(u32_field(fs[k as int]) is None);
                    assert(rest.len() >= 1);
                    assert((k as int) < fs.len());
                    assert(parse_area(b@) is None);
                    return Err(Error::ParseAreaError("decode area field is not a u32".to_owned()));
                },
                Some(v) => {
                    vals.push(v);
                },
            }
            proof {
                let old_prefix = prefix;
                prefix = prefix.push(field);
                if e >= len {
                    assert(rest =~= seq![field]);
                    assert(fs =~= prefix);
                } else {
                    assert(rest =~= seq![field] + split_fields(b@, e + 1, (4 - k - 1) as nat));
                    assert(fs =~= prefix + split_fields(b@, e + 1, (4 - k - 1) as nat));
                }
                assert forall|i: int| 0 <= i < prefix.len() implies u32_field(#[trigger] prefix[i]) == Some(vals@[i]) by {
                    if i < old_prefix.len() {
                        assert(prefix[i] == old_prefix[i]);
                    }
                }
            }
            if e >= len {
                more = false;
            } else {
                start = e + 1;
            }
        }
        let n = vals.len();
        let area = DecodeArea {
            start_x: vals[0],
            start_y: if n > 1 { vals[1] } else { 0 },
            end_x: if n > 2 { vals[2] } else { 0 },
            end_y: if n > 3 { vals[3] } else { 0 },
        };
        Ok(area)
    }
}

impl core::str::FromStr for DecodeArea {
    type Err = Error;

    fn from_str(s: &str) -> (r: Result<DecodeArea, Error>)
        ensures
            match parse_area(s.spec_bytes()) {
                Some(area) => r matches Ok(a) && a@ == area,
                None => r matches Err(Error::ParseAreaError(_)),
            },
    {
        DecodeArea::parse(s)
    }
}

/// Decoding options handed to the codec.
pub struct DecodeParameters {
    reduce: u32,
    layers: u32,
    area: Option<DecodeArea>,
    strict: bool,
}

/// Model of decoding options: reduction, layer limit, area and strictness.
pub struct DecodeParametersView {
    pub reduce: u32,
    pub layers: u32,
    pub area: Option<DecodeArea>,
    pub strict: bool,
}

impl View for DecodeParameters {
    type V = DecodeParametersView;

    closed spec fn view(&self) -> DecodeParametersView {
        DecodeParametersView {
            reduce: self.reduce,
            layers: self.layers,
            area: self.area,
            strict: self.strict,
        }
    }
}

impl Default for DecodeParameters {
    /// Full resolution, all quality layers, the whole image, lenient mode.
    fn default() -> (r: Self)
        ensures
            r@ == (DecodeParametersView { reduce: 0, layers: 0, area: None, strict: false }),
    {
        DecodeParameters { reduce: 0, layers: 0, area: None, strict: false }
    }
}

impl DecodeParameters {
    /// Full resolution, all quality layers, the whole image, lenient mode.
    pub fn new() -> (r: Self)
        ensures
            r@ == (DecodeParametersView { reduce: 0, layers: 0, area: None, strict: false }),
    {
        DecodeParameters { reduce: 0, layers: 0, area: None, strict: false }
    }

    /// How much to reduce the resolution: each dimension is divided by
    /// `2^reduce`; 0 decodes at full resolution.
    pub fn reduce(self, reduce: u32) -> (r: Self)
        ensures
            r@ == (DecodeParametersView { reduce, ..self@ }),
    {
        DecodeParameters { reduce, ..self }
    }

    /// Strict mode rejects truncated codestreams; lenient mode (the default)
    /// decodes what is there.
    pub fn strict(self, strict: bool) -> (r: Self)
        ensures
            r@ == (DecodeParametersView { strict, ..self@ }),
    {
        DecodeParameters { strict, ..self }
    }

    /// The number of quality layers to decode; 0 decodes all of them.
    pub fn layers(self, layers: u32) -> (r: Self)
        ensures
            r@ == (DecodeParametersView { layers, ..self@ }),
    {
        DecodeParameters { layers, ..self }
    }

    /// The area to decode; `None` decodes the whole image.
    pub fn decode_area(self, area: Option<DecodeArea>) -> (r: Self)
        ensures
            r@ == (DecodeParametersView { area, ..self@ }),
    {
        DecodeParameters { area, ..self }
    }

    pub fn reduce_factor(&self) -> (r: u32)
        ensures
            r == self@.reduce,
    {
        self.reduce
    }

    pub fn layer_limit(&self) -> (r: u32)
        ensures
            r == self@.layers,
    {
        self.layers
    }

    pub fn area(&self) -> (r: Option<DecodeArea>)
        ensures
            r == self@.area,
    {
        self.area
    }

    pub fn is_strict(&self) -> (r: bool)
        ensures
            r == self@.strict,
    {
        self.strict
    }
}

/// Encoding options; the codec's own defaults are used unmodified.
#[derive(Debug, Default, Clone, Copy)]
pub struct EncodeParameters {}

} // verus!
