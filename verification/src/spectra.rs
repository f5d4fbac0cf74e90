//! Spectra: their definitions (kind, parameters, axes, gate) and their
//! channels.
//!
//! Channels are laid out as a histogram with an underflow and an overflow
//! bin on each axis: an axis of `bins` bins has `bins + 2` channels, the
//! underflow first and the overflow last.  A 2-d spectrum with `nx`
//! channels along x and `ny` along y keeps channel `(i, j)` at index
//! `i + j * nx`.  Channel values and coordinates are bit patterns of
//! binary64 numbers; the coordinates of the channels (the start of each bin,
//! the limits for underflow and overflow) are computed by the program and
//! installed in the spectrum.
use vstd::prelude::*;
use crate::messaging::spectrum_messages::{AxisSpecification, Channel, ChannelType, SpectrumProperties};
use crate::processing::{decimal, usize_text};
use crate::real_bits::{bits_le, real_le};
use crate::messaging::condition_messages::copy_strings;
use crate::parameters::{FlatEvent, ParameterDictionary, ParameterView, distinct_names_and_ids, has_name};

verus! {

/// The kinds of spectra.
#[derive(Clone, Copy, Debug, PartialEq, Eq)]
pub enum SpectrumKind {
    OneD,
    Multi1d,
    Multi2d,
    PGamma,
    Summary,
    TwoD,
    TwoDSum,
}

/// The name of a kind in listings.
pub open spec fn kind_name(k: SpectrumKind) -> Seq<char> {
    match k {
        SpectrumKind::OneD => "1D"@,
        SpectrumKind::Multi1d => "Multi1d"@,
        SpectrumKind::Multi2d => "Multi2d"@,
        SpectrumKind::PGamma => "PGamma"@,
        SpectrumKind::Summary => "Summary"@,
        SpectrumKind::TwoD => "2D"@,
        SpectrumKind::TwoDSum => "2DSum"@,
    }
}

/// The name of a kind in listings.
pub fn kind_text(k: SpectrumKind) -> (r: String)
    ensures
        r@ == kind_name(k),
{
    match k {
        SpectrumKind::OneD => String::from_str("1D"),
        SpectrumKind::Multi1d => String::from_str("Multi1d"),
        SpectrumKind::Multi2d => String::from_str("Multi2d"),
        SpectrumKind::PGamma => String::from_str("PGamma"),
        SpectrumKind::Summary => String::from_str("Summary"),
        SpectrumKind::TwoD => String::from_str("2D"),
        SpectrumKind::TwoDSum => String::from_str("2DSum"),
    }
}

/// Spectra of these kinds have a y axis.
pub open spec fn is_2d(k: SpectrumKind) -> bool {
    !(k is OneD || k is Multi1d)
}

/// The views of a sequence of strings.
pub open spec fn strings_view(v: Seq<String>) -> Seq<Seq<char>> {
    v.map_values(|s: String| s@)
}

/// The abstract content of a spectrum.
pub struct SpectrumView {
    pub name: Seq<char>,
    pub kind: SpectrumKind,
    pub xparams: Seq<Seq<char>>,
    pub yparams: Seq<Seq<char>>,
    pub xaxis: Option<AxisSpecification>,
    pub yaxis: Option<AxisSpecification>,
    pub gate: Option<Seq<char>>,
    /// The condition the spectrum is folded on.
    pub fold: Option<Seq<char>>,
    /// Fills that fell outside the axes: x underflows, y underflows, x
    /// overflows, y overflows.
    pub stats: (u32, u32, u32, u32),
    /// Channels along x.
    pub nx: nat,
    /// Channels along y (1 for a 1-d spectrum).
    pub ny: nat,
    pub channels: Seq<u64>,
    /// Coordinates of the channels along x and y, once installed.
    pub xcoords: Seq<u64>,
    pub ycoords: Seq<u64>,
}

/// The number of channels of an axis with `bins` bins.
pub open spec fn axis_channels(a: Option<AxisSpecification>) -> nat {
    match a {
        Some(ax) => (ax.bins + 2) as nat,
        None => 1,
    }
}

/// Channels along x of a spectrum of kind `k` on `nparams` x parameters:
/// a summary spectrum has one bin per parameter.
pub open spec fn x_channels(k: SpectrumKind, nparams: nat, xaxis: Option<AxisSpecification>) -> nat {
    if k is Summary {
        nparams + 2
    } else {
        axis_channels(xaxis)
    }
}

/// The spectrum `name` of kind `k` as it is created: ungated, every channel
/// 0, no coordinates yet.
pub open spec fn new_spectrum(
    name: Seq<char>,
    k: SpectrumKind,
    xparams: Seq<Seq<char>>,
    yparams: Seq<Seq<char>>,
    xaxis: Option<AxisSpecification>,
    yaxis: Option<AxisSpecification>,
) -> SpectrumView {
    let nx = x_channels(k, xparams.len(), xaxis);
    let ny = axis_channels(yaxis);
    SpectrumView {
        name,
        kind: k,
        xparams,
        yparams,
        xaxis,
        yaxis,
        gate: None,
        fold: None,
        stats: (0, 0, 0, 0),
        nx,
        ny,
        channels: Seq::new(nx * ny, |i: int| 0u64),
        xcoords: Seq::empty(),
        ycoords: Seq::empty(),
    }
}

/// A new spectrum has every channel 0, no gate, no fold and no counts; it
/// has `bins + 2` channels along x (one per parameter plus two for a
/// summary spectrum) and, for a 2-d kind, `bins + 2` along y (1 for a 1-d
/// kind), and keeps its name, kind, parameters and axes.
pub proof fn law_new_spectrum_shape(
    name: Seq<char>,
    k: SpectrumKind,
    xparams: Seq<Seq<char>>,
    yparams: Seq<Seq<char>>,
    xaxis: Option<AxisSpecification>,
    yaxis: Option<AxisSpecification>,
)
    requires
        is_2d(k) <==> yaxis is Some,
        !(k is Summary) <==> xaxis is Some,
    ensures
        ({
            let s = new_spectrum(name, k, xparams, yparams, xaxis, yaxis);
            &&& s.name == name && s.kind == k && s.xparams == xparams && s.yparams == yparams
            &&& s.xaxis == xaxis && s.yaxis == yaxis
            &&& s.gate is None && s.fold is None && s.stats == (0u32, 0u32, 0u32, 0u32)
            &&& k is Summary ==> s.nx == xparams.len() + 2
            &&& xaxis matches Some(a) ==> s.nx == a.bins + 2
            &&& yaxis matches Some(a) ==> s.ny == a.bins + 2
            &&& !is_2d(k) ==> s.ny == 1
            &&& s.channels.len() == s.nx * s.ny
            &&& forall|i: int| 0 <= i < s.channels.len() ==> #[trigger] s.channels[i] == 0
        }),
{
}

/// The first of `names` that names no parameter of `pd`.
pub open spec fn first_unknown(pd: Seq<ParameterView>, names: Seq<Seq<char>>) -> Option<Seq<char>>
    decreases names.len(),
{
    if names.len() == 0 {
        None
    } else if !has_name(pd, names[0]) {
        Some(names[0])
    } else {
        first_unknown(pd, names.drop_first())
    }
}

/// The largest number of channels a spectrum may have.
pub const MAX_CHANNELS: usize = 0x1000_0000;

/// The channel counts of a spectrum with these axes are within the limits:
/// each axis count fits a `u32` and the spectrum has at most `MAX_CHANNELS`
/// channels.
pub open spec fn channels_fit(nx: nat, ny: nat) -> bool {
    nx <= u32::MAX && ny <= u32::MAX && nx * ny <= MAX_CHANNELS
}

/// A spectrum.
pub struct Spectrum {
    name: String,
    kind: SpectrumKind,
    xparams: Vec<String>,
    yparams: Vec<String>,
    xaxis: Option<AxisSpecification>,
    yaxis: Option<AxisSpecification>,
    gate: Option<String>,
    fold: Option<String>,
    stats: (u32, u32, u32, u32),
    nx: usize,
    ny: usize,
    channels: Vec<u64>,
    xcoords: Vec<u64>,
    ycoords: Vec<u64>,
}

/// The view of an optional string.
pub open spec fn opt_view(s: Option<String>) -> Option<Seq<char>> {
    match s {
        Some(v) => Some(v@),
        None => None,
    }
}

impl View for Spectrum {
    type V = SpectrumView;

    closed spec fn view(&self) -> SpectrumView {
        SpectrumView {
            name: self.name@,
            kind: self.kind,
            xparams: strings_view(self.xparams@),
            yparams: strings_view(self.yparams@),
            xaxis: self.xaxis,
            yaxis: self.yaxis,
            gate: opt_view(self.gate),
            fold: opt_view(self.fold),
            stats: self.stats,
            nx: self.nx as nat,
            ny: self.ny as nat,
            channels: self.channels@,
            xcoords: self.xcoords@,
            ycoords: self.ycoords@,
        }
    }
}

/// A spectrum's channels fill its grid, its coordinates are absent or one
/// per channel of the axis, and a 1-d spectrum has one channel along y.
pub open spec fn spectrum_wf(s: SpectrumView) -> bool {
    &&& s.channels.len() == s.nx * s.ny
    &&& channels_fit(s.nx, s.ny)
    &&& s.nx >= 1 && s.ny >= 1
    &&& (s.xcoords.len() == 0 || s.xcoords.len() == s.nx)
    &&& (s.ycoords.len() == 0 || s.ycoords.len() == s.ny)
    &&& !is_2d(s.kind) ==> s.ny == 1
}

fn string_list_view(v: &Vec<String>) -> (r: Vec<String>)
    ensures
        strings_view(r@) == strings_view(v@),
{
    let r = copy_strings(v.as_slice());
    proof {
        assert(strings_view(r@) =~= strings_view(v@));
    }
    r
}

fn copy_opt(s: &Option<String>) -> (r: Option<String>)
    ensures
        opt_view(r) == opt_view(*s),
{
    match s {
        Some(v) => Some(v.clone()),
        None => None,
    }
}

/// Checks that every name of `names` names a parameter of `pdict`; the
/// first that does not is returned.
fn find_unknown(pdict: &ParameterDictionary, names: &Vec<String>) -> (r: Option<String>)
    requires
        pdict.wf(),
    ensures
        opt_view(r) == first_unknown(pdict@, strings_view(names@)),
{
    let ghost all = strings_view(names@);
    let mut i: usize = 0;
    proof {
        assert(all.subrange(0, all.len() as int) =~= all);
    }
    while i < names.len()
        invariant
            i <= names@.len(),
            pdict.wf(),
            all == strings_view(names@),
            first_unknown(pdict@, all) == first_unknown(pdict@, all.subrange(i as int, all.len() as int)),
        decreases names@.len() - i,
    {
        let ghost rest = all.subrange(i as int, all.len() as int);
        proof {
            assert(rest[0] == names@[i as int]@);
            assert(rest.drop_first() =~= all.subrange(i + 1, all.len() as int));
        }
        if pdict.lookup(names[i].as_str()).is_none() {
            return Some(names[i].clone());
        }
        i = i + 1;
    }
    proof {
        assert(all.subrange(i as int, all.len() as int) =~= Seq::<Seq<char>>::empty());
    }
    None
}

proof fn lemma_too_many(nx: nat, ny: nat)
    requires
        nx > MAX_CHANNELS,
        ny >= 1,
    ensures
        nx * ny > MAX_CHANNELS,
{
    assert(nx * ny >= nx) by (nonlinear_arith)
        requires
            ny >= 1,
    ;
}

/// `n + 2` when it fits and is at most `MAX_CHANNELS`.
fn count_with_flow(n: usize) -> (r: Option<usize>)
    ensures
        r matches Some(c) ==> c == n + 2 && c <= MAX_CHANNELS,
        r is None ==> n + 2 > MAX_CHANNELS,
{
    if n <= MAX_CHANNELS - 2 {
        Some(n + 2)
    } else {
        None
    }
}

impl Spectrum {
    /// The name of the spectrum.
    pub fn name(&self) -> (r: &String)
        ensures
            r@ == self@.name,
    {
        &self.name
    }

    /// Makes the spectrum `name` of kind `k` on these parameters and axes:
    /// every parameter must be defined in `pdict` (else
    /// `Err("Parameter <p> does not exist")` for the first that is not, x
    /// parameters before y parameters), and the spectrum must have at most
    /// `MAX_CHANNELS` channels (else `Err("Spectrum <name> has too many
    /// channels")`).
    pub fn make(
        name: &str,
        k: SpectrumKind,
        xparams: &Vec<String>,
        yparams: &Vec<String>,
        xaxis: Option<AxisSpecification>,
        yaxis: Option<AxisSpecification>,
        pdict: &ParameterDictionary,
    ) -> (r: Result<Spectrum, String>)
        requires
            pdict.wf(),
            is_2d(k) <==> yaxis is Some,
            !(k is Summary) <==> xaxis is Some,
        ensures
            make_outcome(name@, k, strings_view(xparams@), strings_view(yparams@), xaxis, yaxis, pdict@, r),
    {
        proof {
            reveal_strlit("Parameter ");
            reveal_strlit(" does not exist");
            reveal_strlit("Spectrum ");
            reveal_strlit(" has too many channels");
        }
        match find_unknown(pdict, xparams) {
            Some(p) => {
                return Err(String::from_str("Parameter ").concat(p.as_str()).concat(" does not exist"));
            },
            None => {},
        }
        match find_unknown(pdict, yparams) {
            Some(p) => {
                return Err(String::from_str("Parameter ").concat(p.as_str()).concat(" does not exist"));
            },
            None => {},
        }
        let too_many = String::from_str("Spectrum ").concat(name).concat(" has too many channels");
        let ghost spec_s = new_spectrum(name@, k, strings_view(xparams@), strings_view(yparams@), xaxis, yaxis);
        proof {
            if spec_s.nx > MAX_CHANNELS {
                lemma_too_many(spec_s.nx, spec_s.ny);
            }
            if spec_s.ny > MAX_CHANNELS {
                lemma_too_many(spec_s.ny, spec_s.nx);
                assert(spec_s.nx * spec_s.ny == spec_s.ny * spec_s.nx) by (nonlinear_arith);
            }
        }
        let nx: usize = match k {
            SpectrumKind::Summary => match count_with_flow(xparams.len()) {
                Some(c) => c,
                None => {
                    return Err(too_many);
                },
            },
            _ => match xaxis {
                Some(a) => match count_with_flow(a.bins as usize) {
                    Some(c) => c,
                    None => {
                        return Err(too_many);
                    },
                },
                None => 1,
            },
        };
        let ny: usize = match yaxis {
            Some(a) => match count_with_flow(a.bins as usize) {
                Some(c) => c,
                None => {
                    return Err(too_many);
                },
            },
            None => 1,
        };
        if ny > MAX_CHANNELS / nx {
            proof {
                assert(nx * ny > MAX_CHANNELS) by (nonlinear_arith)
                    requires
                        ny > MAX_CHANNELS / nx,
                        nx >= 1,
                ;
            }
            return Err(too_many);
        }
        proof {
            assert(nx * ny <= MAX_CHANNELS) by (nonlinear_arith)
                requires
                    ny <= MAX_CHANNELS / nx,
                    nx >= 1,
            ;
        }
        let total: usize = nx * ny;
        let mut channels: Vec<u64> = Vec::new();
        let mut i: usize = 0;
        while i < total
            invariant
                i <= total,
                channels@ == Seq::new(i as nat, |j: int| 0u64),
            decreases total - i,
        {
            channels.push(0);
            i = i + 1;
            proof {
                assert(channels@ =~= Seq::new(i as nat, |j: int| 0u64));
            }
        }
        let s = Spectrum {
            name: String::from_str(name),
            kind: k,
            xparams: string_list_view(xparams),
            yparams: string_list_view(yparams),
            xaxis,
            yaxis,
            gate: None,
            fold: None,
            stats: (0, 0, 0, 0),
            nx,
            ny,
            channels,
            xcoords: Vec::new(),
            ycoords: Vec::new(),
        };
        proof {
            assert(s@ =~= new_spectrum(name@, k, strings_view(xparams@), strings_view(yparams@), xaxis, yaxis));
        }
        Ok(s)
    }

    /// The description of the spectrum in listings: axes are given with
    /// their underflow and overflow channels counted.
    pub fn properties(&self) -> (r: SpectrumProperties)
        requires
            spectrum_wf(self@),
        ensures
            properties_of(self@, r),
    {
        SpectrumProperties {
            name: self.name.clone(),
            spectrum_type: kind_text(self.kind),
            xparams: string_list_view(&self.xparams),
            yparams: string_list_view(&self.yparams),
            xaxis: match self.xaxis {
                Some(a) => Some(AxisSpecification { low: a.low, high: a.high, bins: self.nx as u32 }),
                None => None,
            },
            yaxis: match self.yaxis {
                Some(a) => Some(AxisSpecification { low: a.low, high: a.high, bins: self.ny as u32 }),
                None => None,
            },
            gate: copy_opt(&self.gate),
        }
    }
}

/// Why the spectrum cannot be made, if it cannot: the first unknown
/// parameter (x parameters first), or too many channels.
pub open spec fn make_error(
    name: Seq<char>,
    k: SpectrumKind,
    xparams: Seq<Seq<char>>,
    yparams: Seq<Seq<char>>,
    xaxis: Option<AxisSpecification>,
    yaxis: Option<AxisSpecification>,
    pd: Seq<ParameterView>,
) -> Option<Seq<char>> {
    let s = new_spectrum(name, k, xparams, yparams, xaxis, yaxis);
    match first_unknown(pd, xparams) {
        Some(p) => Some("Parameter "@ + p + " does not exist"@),
        None => match first_unknown(pd, yparams) {
            Some(p) => Some("Parameter "@ + p + " does not exist"@),
            None => if channels_fit(s.nx, s.ny) {
                None
            } else {
                Some("Spectrum "@ + name + " has too many channels"@)
            },
        },
    }
}

/// What making a spectrum gives: the error of `make_error`, or the new
/// spectrum.
pub open spec fn make_outcome(
    name: Seq<char>,
    k: SpectrumKind,
    xparams: Seq<Seq<char>>,
    yparams: Seq<Seq<char>>,
    xaxis: Option<AxisSpecification>,
    yaxis: Option<AxisSpecification>,
    pd: Seq<ParameterView>,
    r: Result<Spectrum, String>,
) -> bool {
    match make_error(name, k, xparams, yparams, xaxis, yaxis, pd) {
        Some(m) => r matches Err(e) && e@ == m,
        None => r matches Ok(sp) && sp@ == new_spectrum(name, k, xparams, yparams, xaxis, yaxis) && spectrum_wf(sp@),
    }
}

/// `p` describes the spectrum `s`.
pub open spec fn properties_of(s: SpectrumView, p: SpectrumProperties) -> bool {
    &&& p.name@ == s.name
    &&& p.spectrum_type@ == kind_name(s.kind)
    &&& strings_view(p.xparams@) == s.xparams
    &&& strings_view(p.yparams@) == s.yparams
    &&& p.xaxis == (match s.xaxis {
        Some(a) => Some(AxisSpecification { low: a.low, high: a.high, bins: s.nx as u32 }),
        None => None,
    })
    &&& p.yaxis == (match s.yaxis {
        Some(a) => Some(AxisSpecification { low: a.low, high: a.high, bins: s.ny as u32 }),
        None => None,
    })
    &&& opt_view(p.gate) == s.gate
}

/// The channel along an axis that the channel number `c` names: channel
/// numbers start at -1 for the underflow, and the result is taken as an
/// unsigned machine word (a negative number wraps to a large one).
pub open spec fn axis_index(c: i32) -> usize {
    (c + 1) as usize
}

/// Where the channel numbered `xchan` (and `ychan`, for a 2-d spectrum)
/// lies in the channels of `s`, or why it does not: a 1-d spectrum takes
/// `xchan` alone; a 2-d spectrum needs `ychan` (`no_y` is the error
/// otherwise) and both numbers in range.
pub open spec fn locate(s: SpectrumView, xchan: i32, ychan: Option<i32>, no_y: Seq<char>) -> Result<int, Seq<char>> {
    let xb = axis_index(xchan);
    if !is_2d(s.kind) {
        if xb < s.nx {
            Ok(xb as int)
        } else {
            Err("X index is out of range"@)
        }
    } else {
        match ychan {
            None => Err(no_y),
            Some(y) => {
                let yb = axis_index(y);
                if xb >= s.nx {
                    Err("Xbin: "@ + decimal(xb as nat) + " is larger than the number of bins: "@ + decimal(s.nx))
                } else if yb >= s.ny {
                    Err("Ybin: "@ + decimal(yb as nat) + " is larger than the number of bins: "@ + decimal(s.ny))
                } else {
                    Ok(xb + yb * s.nx)
                }
            },
        }
    }
}

/// A located channel lies within the channels.
pub proof fn lemma_locate_in_range(s: SpectrumView, xchan: i32, ychan: Option<i32>, no_y: Seq<char>)
    requires
        spectrum_wf(s),
    ensures
        locate(s, xchan, ychan, no_y) matches Ok(i) ==> 0 <= i < s.channels.len(),
{
    assert(s.nx * s.ny >= s.nx) by (nonlinear_arith)
        requires
            s.ny >= 1,
    ;
    if is_2d(s.kind) && ychan is Some {
        let xb = axis_index(xchan) as int;
        let yb = axis_index(ychan->0) as int;
        if xb < s.nx && yb < s.ny {
            assert(xb + yb * s.nx < s.nx * s.ny) by (nonlinear_arith)
                requires
                    0 <= xb < s.nx,
                    0 <= yb < s.ny,
            ;
            assert(0 <= yb * s.nx) by (nonlinear_arith)
                requires
                    0 <= yb,
            ;
        }
    }
}

proof fn lemma_axis_index(c: i32)
    ensures
        c + 1 >= 0 ==> axis_index(c) == c + 1,
        c + 1 < 0 ==> axis_index(c) > MAX_CHANNELS,
{
    assert(c + 1 < 0 ==> ((c + 1) as usize) > 0x1000_0000usize) by (bit_vector);
    assert(c + 1 >= 0 ==> ((c + 1) as usize) == c + 1) by (bit_vector);
}

/// Channel numbers name channels as the grid lays them out: a 1-d
/// spectrum's channel `c` (from -1, the underflow, to `nx - 2`, the
/// overflow) is the channel at `c + 1`, and any other number is refused;
/// a 2-d spectrum's channel `(cx, cy)` is found exactly when both are in
/// range and then lies at column `cx + 1` and row `cy + 1` of the grid; a
/// 2-d spectrum without a y channel number is refused with `no_y`.
pub proof fn law_channel_numbers(s: SpectrumView, xchan: i32, ychan: Option<i32>, no_y: Seq<char>)
    requires
        spectrum_wf(s),
    ensures
        !is_2d(s.kind) ==> (locate(s, xchan, ychan, no_y) is Ok <==> -1 <= xchan && xchan + 1 < s.nx),
        !is_2d(s.kind) && locate(s, xchan, ychan, no_y) is Ok ==> locate(s, xchan, ychan, no_y)->Ok_0 == xchan + 1,
        is_2d(s.kind) && ychan is None ==> locate(s, xchan, ychan, no_y) == Err::<int, Seq<char>>(no_y),
        is_2d(s.kind) && ychan is Some ==> (locate(s, xchan, ychan, no_y) is Ok <==> -1 <= xchan && xchan + 1 < s.nx
            && -1 <= ychan->0 && ychan->0 + 1 < s.ny),
        is_2d(s.kind) && ychan is Some && locate(s, xchan, ychan, no_y) is Ok ==> ({
            let k = locate(s, xchan, ychan, no_y)->Ok_0;
            k % (s.nx as int) == xchan + 1 && k / (s.nx as int) == ychan->0 + 1
        }),
{
    lemma_axis_index(xchan);
    assert(s.nx <= MAX_CHANNELS && s.ny <= MAX_CHANNELS) by (nonlinear_arith)
        requires
            s.nx * s.ny <= MAX_CHANNELS,
            s.nx >= 1,
            s.ny >= 1,
    ;
    if ychan is Some {
        let y = ychan->0;
        lemma_axis_index(y);
        if is_2d(s.kind) && -1 <= xchan && xchan + 1 < s.nx && -1 <= y && y + 1 < s.ny {
            let xb = xchan + 1;
            let yb = y + 1;
            let nx = s.nx as int;
            vstd::arithmetic::div_mod::lemma_fundamental_div_mod_converse(xb + yb * nx, nx, yb, xb);
        }
    }
}

/// Bits of a binary64 value that is not equal to zero (either zero).
pub open spec fn nonzero(v: u64) -> bool {
    v != 0 && v != 0x8000_0000_0000_0000u64
}

/// Entry `i` of a coordinate table, 0 (the bits of 0.0) when the table is
/// not installed.
pub open spec fn coord(t: Seq<u64>, i: int) -> u64 {
    if 0 <= i < t.len() {
        t[i]
    } else {
        0
    }
}

/// The kind of channel `i` of an axis of `n` channels.
pub open spec fn axis_kind(i: int, n: nat) -> ChannelType {
    if i == 0 {
        ChannelType::Underflow
    } else if i == n - 1 {
        ChannelType::Overflow
    } else {
        ChannelType::Bin
    }
}

/// Channel `i` of `s` as contents report it: its kind (an underflow or
/// overflow along x wins over one along y), its coordinates and value.
pub open spec fn channel_at(s: SpectrumView, i: int) -> Channel {
    let xi = i % (s.nx as int);
    let yi = i / (s.nx as int);
    let xk = axis_kind(xi, s.nx);
    let kind = if is_2d(s.kind) && xk is Bin {
        axis_kind(yi, s.ny)
    } else {
        xk
    };
    Channel {
        chan_type: kind,
        x: coord(s.xcoords, xi),
        y: if is_2d(s.kind) {
            coord(s.ycoords, yi)
        } else {
            0
        },
        bin: i as usize,
        value: s.channels[i],
    }
}

/// Channel `i` is reported by contents within `[xlow, xhigh]` x `[ylow,
/// yhigh]`: it is not zero and, for a 1-d spectrum, it is an underflow or an
/// overflow or a bin that starts within the x limits; for a 2-d spectrum its
/// coordinates are within both limits.
pub open spec fn shown(s: SpectrumView, i: int, xlow: u64, xhigh: u64, ylow: u64, yhigh: u64) -> bool {
    let c = channel_at(s, i);
    &&& nonzero(c.value)
    &&& if is_2d(s.kind) {
        real_le(xlow, c.x) && real_le(c.x, xhigh) && real_le(ylow, c.y) && real_le(c.y, yhigh)
    } else {
        !(c.chan_type is Bin) || (real_le(xlow, c.x) && real_le(c.x, xhigh))
    }
}

/// The channels among the first `n` of `s` that contents report, in order.
pub open spec fn contents_upto(s: SpectrumView, n: int, xlow: u64, xhigh: u64, ylow: u64, yhigh: u64) -> Seq<Channel>
    decreases n,
{
    if n <= 0 {
        Seq::empty()
    } else {
        let before = contents_upto(s, n - 1, xlow, xhigh, ylow, yhigh);
        if shown(s, n - 1, xlow, xhigh, ylow, yhigh) {
            before.push(channel_at(s, n - 1))
        } else {
            before
        }
    }
}

/// The contents of `s` within the limits.
pub open spec fn contents_within(s: SpectrumView, xlow: u64, xhigh: u64, ylow: u64, yhigh: u64) -> Seq<Channel> {
    contents_upto(s, s.channels.len() as int, xlow, xhigh, ylow, yhigh)
}

/// The channels `ch` after setting, in order, the first `n` channels of
/// `contents` that lie within them (by their `bin`) to their values.
pub open spec fn loaded(ch: Seq<u64>, contents: Seq<Channel>, n: int) -> Seq<u64>
    decreases n,
{
    if n <= 0 {
        ch
    } else {
        let before = loaded(ch, contents, n - 1);
        let c = contents[n - 1];
        if c.bin < before.len() {
            before.update(c.bin as int, c.value)
        } else {
            before
        }
    }
}

/// `loaded` keeps the number of channels.
pub proof fn lemma_loaded_len(ch: Seq<u64>, contents: Seq<Channel>, n: int)
    ensures
        loaded(ch, contents, n).len() == ch.len(),
    decreases n,
{
    if n > 0 {
        lemma_loaded_len(ch, contents, n - 1);
    }
}

/// `n + 1`, staying at `u32::MAX`.
pub open spec fn bumped(n: u32) -> u32 {
    if n < u32::MAX {
        (n + 1) as u32
    } else {
        n
    }
}

fn bump(n: u32) -> (r: u32)
    ensures
        r == bumped(n),
{
    if n < u32::MAX {
        n + 1
    } else {
        n
    }
}

/// The out-of-range counts after a fill of channel `(xi, yi)` of an
/// `nx` x `ny` grid: x underflows, y underflows, x overflows, y overflows
/// (y only for a 2-d spectrum).
pub open spec fn counted(st: (u32, u32, u32, u32), xi: int, yi: int, nx: nat, ny: nat, two: bool) -> (
    u32,
    u32,
    u32,
    u32,
) {
    (
        if xi == 0 { bumped(st.0) } else { st.0 },
        if two && yi == 0 { bumped(st.1) } else { st.1 },
        if xi == nx - 1 { bumped(st.2) } else { st.2 },
        if two && yi == ny - 1 { bumped(st.3) } else { st.3 },
    )
}

proof fn lemma_contents_upto(s: SpectrumView, n: int, xlow: u64, xhigh: u64, ylow: u64, yhigh: u64)
    requires
        spectrum_wf(s),
        0 <= n <= s.channels.len(),
    ensures
        ({
            let cs = contents_upto(s, n, xlow, xhigh, ylow, yhigh);
            &&& forall|k: int|
                0 <= k < cs.len() ==> 0 <= #[trigger] cs[k].bin < n && cs[k] == channel_at(s, cs[k].bin as int)
                    && shown(s, cs[k].bin as int, xlow, xhigh, ylow, yhigh)
            &&& forall|k1: int, k2: int| 0 <= k1 < k2 < cs.len() ==> #[trigger] cs[k1].bin < #[trigger] cs[k2].bin
            &&& forall|i: int|
                0 <= i < n && #[trigger] shown(s, i, xlow, xhigh, ylow, yhigh) ==> exists|k: int|
                    0 <= k < cs.len() && cs[k].bin == i
        }),
    decreases n,
{
    if n > 0 {
        lemma_contents_upto(s, n - 1, xlow, xhigh, ylow, yhigh);
        let before = contents_upto(s, n - 1, xlow, xhigh, ylow, yhigh);
        let cs = contents_upto(s, n, xlow, xhigh, ylow, yhigh);
        assert((n - 1) as usize as int == n - 1);
        if shown(s, n - 1, xlow, xhigh, ylow, yhigh) {
            assert(cs[before.len() as int].bin == n - 1);
            assert forall|i: int| 0 <= i < n && #[trigger] shown(s, i, xlow, xhigh, ylow, yhigh) implies exists|k: int|
                0 <= k < cs.len() && cs[k].bin == i by {
                if i < n - 1 {
                    let k = choose|k: int| 0 <= k < before.len() && before[k].bin == i;
                    assert(cs[k] == before[k]);
                } else {
                    assert(cs[before.len() as int].bin == i);
                }
            }
        }
    }
}

/// What contents within limits gives: only non-zero channels, each with the
/// value, coordinates and place the spectrum holds for it, in order of the
/// channels; for a 2-d spectrum every channel returned lies within both
/// the x limits and the y limits (as binary64 values) and every non-zero
/// channel within both is returned; for a 1-d spectrum every bin returned
/// starts within the x limits, and every non-zero underflow, overflow and
/// bin starting within the limits is returned.
pub proof fn law_contents_within_limits(s: SpectrumView, xlow: u64, xhigh: u64, ylow: u64, yhigh: u64)
    requires
        spectrum_wf(s),
    ensures
        ({
            let cs = contents_within(s, xlow, xhigh, ylow, yhigh);
            let nx = s.nx as int;
            &&& forall|k: int|
                0 <= k < cs.len() ==> {
                    let i = #[trigger] cs[k].bin as int;
                    &&& 0 <= i < s.channels.len()
                    &&& cs[k].value == s.channels[i] && nonzero(cs[k].value)
                    &&& cs[k].x == coord(s.xcoords, i % nx)
                    &&& is_2d(s.kind) ==> cs[k].y == coord(s.ycoords, i / nx)
                    &&& is_2d(s.kind) ==> real_le(xlow, cs[k].x) && real_le(cs[k].x, xhigh) && real_le(ylow, cs[k].y)
                        && real_le(cs[k].y, yhigh)
                    &&& !is_2d(s.kind) && 0 < i < nx - 1 ==> real_le(xlow, cs[k].x) && real_le(cs[k].x, xhigh)
                }
            &&& forall|k1: int, k2: int| 0 <= k1 < k2 < cs.len() ==> #[trigger] cs[k1].bin < #[trigger] cs[k2].bin
            &&& forall|i: int|
                0 <= i < s.channels.len() && nonzero(#[trigger] s.channels[i]) && is_2d(s.kind) && real_le(
                    xlow,
                    coord(s.xcoords, i % nx),
                ) && real_le(coord(s.xcoords, i % nx), xhigh) && real_le(ylow, coord(s.ycoords, i / nx)) && real_le(
                    coord(s.ycoords, i / nx),
                    yhigh,
                ) ==> exists|k: int| 0 <= k < cs.len() && cs[k].bin == i
            &&& forall|i: int|
                0 <= i < s.channels.len() && nonzero(#[trigger] s.channels[i]) && !is_2d(s.kind) && (i == 0 || i == nx
                    - 1 || (real_le(xlow, coord(s.xcoords, i)) && real_le(coord(s.xcoords, i), xhigh))) ==> exists|k: int|
                    0 <= k < cs.len() && cs[k].bin == i
        }),
{
    let n = s.channels.len() as int;
    lemma_contents_upto(s, n, xlow, xhigh, ylow, yhigh);
    let cs = contents_within(s, xlow, xhigh, ylow, yhigh);
    let nx = s.nx as int;
    assert(s.ny == 1 ==> s.nx * s.ny == s.nx) by (nonlinear_arith);
    assert forall|i: int|
        0 <= i < n && nonzero(#[trigger] s.channels[i]) && !is_2d(s.kind) && (i == 0 || i == nx - 1 || (real_le(
            xlow,
            coord(s.xcoords, i),
        ) && real_le(coord(s.xcoords, i), xhigh))) implies exists|k: int| 0 <= k < cs.len() && cs[k].bin == i by {
        assert(s.ny == 1 && n == nx);
        vstd::arithmetic::div_mod::lemma_small_mod(i as nat, nx as nat);
        assert(shown(s, i, xlow, xhigh, ylow, yhigh));
    }
    assert forall|i: int|
        0 <= i < n && nonzero(#[trigger] s.channels[i]) && is_2d(s.kind) && real_le(xlow, coord(s.xcoords, i % nx))
            && real_le(coord(s.xcoords, i % nx), xhigh) && real_le(ylow, coord(s.ycoords, i / nx)) && real_le(
            coord(s.ycoords, i / nx),
            yhigh,
        ) implies exists|k: int| 0 <= k < cs.len() && cs[k].bin == i by {
        assert(shown(s, i, xlow, xhigh, ylow, yhigh));
    }
    assert forall|k: int| 0 <= k < cs.len() && !is_2d(s.kind) && 0 < #[trigger] cs[k].bin < nx - 1 implies real_le(
        xlow,
        cs[k].x,
    ) && real_le(cs[k].x, xhigh) by {
        let i = cs[k].bin as int;
        assert(s.ny == 1 && n == nx);
        vstd::arithmetic::div_mod::lemma_small_mod(i as nat, nx as nat);
        assert(shown(s, i, xlow, xhigh, ylow, yhigh));
    }
}

/// `s` with every channel set to 0.
pub open spec fn cleared(s: SpectrumView) -> SpectrumView {
    SpectrumView { channels: Seq::new(s.channels.len(), |i: int| 0u64), ..s }
}

impl Spectrum {
    fn locate_channel(&self, xchan: i32, ychan: Option<i32>, no_y: &str) -> (r: Result<usize, String>)
        requires
            spectrum_wf(self@),
        ensures
            match locate(self@, xchan, ychan, no_y@) {
                Ok(i) => r matches Ok(j) && j == i && j < self@.channels.len(),
                Err(e) => r matches Err(m) && m@ == e,
            },
    {
        proof {
            lemma_locate_in_range(self@, xchan, ychan, no_y@);
            reveal_strlit("X index is out of range");
            reveal_strlit("Xbin: ");
            reveal_strlit("Ybin: ");
            reveal_strlit(" is larger than the number of bins: ");
        }
        let xi: i64 = xchan as i64 + 1;
        let xb: usize = xi as usize;
        if !(match self.kind {
            SpectrumKind::OneD => false,
            SpectrumKind::Multi1d => false,
            _ => true,
        }) {
            if xb < self.nx {
                Ok(xb)
            } else {
                Err(String::from_str("X index is out of range"))
            }
        } else {
            match ychan {
                None => Err(String::from_str(no_y)),
                Some(y) => {
                    let yi: i64 = y as i64 + 1;
                    let yb: usize = yi as usize;
                    if xb >= self.nx {
                        Err(
                            String::from_str("Xbin: ").concat(usize_text(xb).as_str()).concat(
                                " is larger than the number of bins: ",
                            ).concat(usize_text(self.nx).as_str()),
                        )
                    } else if yb >= self.ny {
                        Err(
                            String::from_str("Ybin: ").concat(usize_text(yb).as_str()).concat(
                                " is larger than the number of bins: ",
                            ).concat(usize_text(self.ny).as_str()),
                        )
                    } else {
                        proof {
                            assert(yb * self.nx <= MAX_CHANNELS) by (nonlinear_arith)
                                requires
                                    yb < self.ny,
                                    self.nx * self.ny <= MAX_CHANNELS,
                            ;
                        }
                        Ok(xb + yb * self.nx)
                    }
                },
            }
        }
    }

    /// The value of the channel numbered `xchan` (and `ychan` for a 2-d
    /// spectrum), or why it cannot be read.
    pub fn channel_value(&self, xchan: i32, ychan: Option<i32>) -> (r: Result<u64, String>)
        requires
            spectrum_wf(self@),
        ensures
            match locate(self@, xchan, ychan, "Must have  a ybin for a 2d spectrum"@) {
                Ok(i) => r == Ok::<u64, String>(self@.channels[i]),
                Err(e) => r matches Err(m) && m@ == e,
            },
    {
        match self.locate_channel(xchan, ychan, "Must have  a ybin for a 2d spectrum") {
            Ok(i) => Ok(self.channels[i]),
            Err(e) => Err(e),
        }
    }

    /// Sets the channel numbered `xchan` (and `ychan` for a 2-d spectrum)
    /// to `value`; nothing changes when it cannot be found.
    pub fn set_channel_value(&mut self, xchan: i32, ychan: Option<i32>, value: u64) -> (r: Result<(), String>)
        requires
            spectrum_wf(old(self)@),
        ensures
            spectrum_wf(final(self)@),
            match locate(old(self)@, xchan, ychan, "2d spectra need a y bin"@) {
                Ok(i) => r is Ok && final(self)@ == (SpectrumView {
                    channels: old(self)@.channels.update(i, value),
                    ..old(self)@
                }),
                Err(e) => r matches Err(m) && m@ == e && final(self)@ == old(self)@,
            },
    {
        match self.locate_channel(xchan, ychan, "2d spectra need a y bin") {
            Ok(i) => {
                self.channels.set(i, value);
                Ok(())
            },
            Err(e) => Err(e),
        }
    }

    /// Clears the spectrum, then sets each channel of `contents` that lies
    /// in it (by its `bin`) to its value.
    pub fn load(&mut self, contents: &Vec<Channel>)
        requires
            spectrum_wf(old(self)@),
        ensures
            spectrum_wf(final(self)@),
            final(self)@ == (SpectrumView {
                channels: loaded(cleared(old(self)@).channels, contents@, contents@.len() as int),
                ..old(self)@
            }),
    {
        self.clear();
        let ghost base = self@;
        let mut k: usize = 0;
        while k < contents.len()
            invariant
                spectrum_wf(base),
                k <= contents@.len(),
                base == cleared(old(self)@),
                self@ == (SpectrumView { channels: loaded(base.channels, contents@, k as int), ..base }),
            decreases contents@.len() - k,
        {
            proof {
                lemma_loaded_len(base.channels, contents@, k as int);
            }
            let c = contents[k];
            if c.bin < self.channels.len() {
                self.channels.set(c.bin, c.value);
            }
            k = k + 1;
            proof {
                assert(self@ =~= (SpectrumView { channels: loaded(base.channels, contents@, k as int), ..base }));
            }
        }
        proof {
            lemma_loaded_len(base.channels, contents@, k as int);
        }
    }

    /// Sets every channel to 0.
    pub fn clear(&mut self)
        requires
            spectrum_wf(old(self)@),
        ensures
            spectrum_wf(final(self)@),
            final(self)@ == cleared(old(self)@),
    {
        let n = self.channels.len();
        let mut i: usize = 0;
        while i < n
            invariant
                n == self.channels@.len(),
                i <= n,
                forall|j: int| 0 <= j < i ==> self.channels@[j] == 0,
                self.name == old(self).name,
                self.kind == old(self).kind,
                self.xparams == old(self).xparams,
                self.yparams == old(self).yparams,
                self.xaxis == old(self).xaxis,
                self.yaxis == old(self).yaxis,
                self.gate == old(self).gate,
                self.fold == old(self).fold,
                self.stats == old(self).stats,
                self.nx == old(self).nx,
                self.ny == old(self).ny,
                self.xcoords == old(self).xcoords,
                self.ycoords == old(self).ycoords,
                n == old(self).channels@.len(),
            decreases n - i,
        {
            self.channels.set(i, 0);
            i = i + 1;
        }
        proof {
            assert(self.channels@ =~= Seq::new(n as nat, |j: int| 0u64));
            assert(self@ =~= cleared(old(self)@));
        }
    }

    /// Gates the spectrum with the condition `g` (`None`: ungated).
    pub fn set_gate(&mut self, g: Option<String>)
        requires
            spectrum_wf(old(self)@),
        ensures
            spectrum_wf(final(self)@),
            final(self)@ == (SpectrumView { gate: opt_view(g), ..old(self)@ }),
    {
        self.gate = g;
    }

    /// Folds the spectrum on the condition `f` (`None`: unfolded).
    pub fn set_fold(&mut self, f: Option<String>)
        requires
            spectrum_wf(old(self)@),
        ensures
            spectrum_wf(final(self)@),
            final(self)@ == (SpectrumView { fold: opt_view(f), ..old(self)@ }),
    {
        self.fold = f;
    }

    /// The out-of-range counts: x underflows, y underflows, x overflows,
    /// y overflows.
    pub fn statistics(&self) -> (r: (u32, u32, u32, u32))
        ensures
            r == self@.stats,
    {
        self.stats
    }

    /// The condition the spectrum is gated on.
    pub fn gate(&self) -> (r: Option<String>)
        ensures
            opt_view(r) == self@.gate,
    {
        copy_opt(&self.gate)
    }

    /// The x parameters.
    pub fn xparams(&self) -> (r: &Vec<String>)
        ensures
            strings_view(r@) == self@.xparams,
    {
        &self.xparams
    }

    /// The y parameters.
    pub fn yparams(&self) -> (r: &Vec<String>)
        ensures
            strings_view(r@) == self@.yparams,
    {
        &self.yparams
    }

    /// The x axis as it was asked for.
    pub fn xaxis(&self) -> (r: Option<AxisSpecification>)
        ensures
            r == self@.xaxis,
    {
        self.xaxis
    }

    /// The y axis as it was asked for.
    pub fn yaxis(&self) -> (r: Option<AxisSpecification>)
        ensures
            r == self@.yaxis,
    {
        self.yaxis
    }

    /// Channels along x and along y.
    pub fn grid(&self) -> (r: (usize, usize))
        ensures
            r.0 == self@.nx && r.1 == self@.ny,
    {
        (self.nx, self.ny)
    }

    /// Are the coordinates of the channels installed?
    pub fn has_coordinates(&self) -> (r: bool)
        ensures
            r == (self@.xcoords.len() > 0),
    {
        self.xcoords.len() > 0
    }

    /// The value of channel `(xi, yi)` of the grid.
    pub fn value_at(&self, xi: usize, yi: usize) -> (r: Option<u64>)
        requires
            spectrum_wf(self@),
        ensures
            r is Some <==> xi < self@.nx && yi < self@.ny,
            r matches Some(v) ==> v == self@.channels[xi + yi * self@.nx],
    {
        if xi >= self.nx || yi >= self.ny {
            return None;
        }
        proof {
            assert(xi + yi * self.nx < self.nx * self.ny) by (nonlinear_arith)
                requires
                    xi < self.nx,
                    yi < self.ny,
            ;
        }
        Some(self.channels[xi + yi * self.nx])
    }

    /// The condition the spectrum is folded on.
    pub fn fold(&self) -> (r: Option<String>)
        ensures
            opt_view(r) == self@.fold,
    {
        copy_opt(&self.fold)
    }

    /// The number of channels.
    pub fn channel_count(&self) -> (r: usize)
        ensures
            r == self@.channels.len(),
    {
        self.channels.len()
    }

    /// Sets channel `i` (counted over the whole grid) to `value`.
    pub fn set_channel(&mut self, i: usize, value: u64)
        requires
            spectrum_wf(old(self)@),
            i < old(self)@.channels.len(),
        ensures
            spectrum_wf(final(self)@),
            final(self)@ == (SpectrumView { channels: old(self)@.channels.update(i as int, value), ..old(self)@ }),
    {
        self.channels.set(i, value);
    }

    /// Adds a fill to the spectrum: channel `(xi, yi)` of the grid gets the
    /// value `value` (the program computes the bin and the incremented
    /// value), and a fill on an underflow or overflow channel of an axis is
    /// counted (counts stop at `u32::MAX`).  `false`, and nothing changes,
    /// when `(xi, yi)` is not a channel.
    pub fn record_fill(&mut self, xi: usize, yi: usize, value: u64) -> (r: bool)
        requires
            spectrum_wf(old(self)@),
        ensures
            spectrum_wf(final(self)@),
            r == (xi < old(self)@.nx && yi < old(self)@.ny),
            !r ==> final(self)@ == old(self)@,
            r ==> final(self)@ == (SpectrumView {
                channels: old(self)@.channels.update(xi + yi * old(self)@.nx, value),
                stats: counted(old(self)@.stats, xi as int, yi as int, old(self)@.nx, old(self)@.ny, is_2d(old(self)@.kind)),
                ..old(self)@
            }),
    {
        if xi >= self.nx || yi >= self.ny {
            return false;
        }
        proof {
            assert(xi + yi * self.nx < self.nx * self.ny) by (nonlinear_arith)
                requires
                    xi < self.nx,
                    yi < self.ny,
            ;
        }
        let k = xi + yi * self.nx;
        self.channels.set(k, value);
        let two = match self.kind {
            SpectrumKind::OneD => false,
            SpectrumKind::Multi1d => false,
            _ => true,
        };
        let (a, b, c, d) = self.stats;
        let a2 = if xi == 0 { bump(a) } else { a };
        let c2 = if xi == self.nx - 1 { bump(c) } else { c };
        let b2 = if two && yi == 0 { bump(b) } else { b };
        let d2 = if two && yi == self.ny - 1 { bump(d) } else { d };
        self.stats = (a2, b2, c2, d2);
        true
    }

    /// Is the spectrum folded?
    pub fn is_folded(&self) -> (r: bool)
        ensures
            r == self@.fold is Some,
    {
        self.fold.is_some()
    }

    /// The kind of the spectrum.
    pub fn kind(&self) -> (r: SpectrumKind)
        ensures
            r == self@.kind,
    {
        self.kind
    }

    /// Installs the coordinates of the channels along x and y (for a 1-d
    /// spectrum, `ys` holds the single y coordinate); `false`, and nothing
    /// changes, when a table does not have one entry per channel.
    pub fn install_coordinates(&mut self, xs: Vec<u64>, ys: Vec<u64>) -> (r: bool)
        requires
            spectrum_wf(old(self)@),
        ensures
            spectrum_wf(final(self)@),
            r == (xs@.len() == old(self)@.nx && ys@.len() == old(self)@.ny),
            r ==> final(self)@ == (SpectrumView { xcoords: xs@, ycoords: ys@, ..old(self)@ }),
            !r ==> final(self)@ == old(self)@,
    {
        if xs.len() == self.nx && ys.len() == self.ny {
            self.xcoords = xs;
            self.ycoords = ys;
            true
        } else {
            false
        }
    }

    fn axis_coord(t: &Vec<u64>, i: usize) -> (r: u64)
        ensures
            r == coord(t@, i as int),
    {
        if i < t.len() {
            t[i]
        } else {
            0
        }
    }

    fn channel(&self, i: usize) -> (r: Channel)
        requires
            spectrum_wf(self@),
            i < self@.channels.len(),
        ensures
            r == channel_at(self@, i as int),
    {
        let xi = i % self.nx;
        let yi = i / self.nx;
        let two = match self.kind {
            SpectrumKind::OneD => false,
            SpectrumKind::Multi1d => false,
            _ => true,
        };
        let xk = if xi == 0 {
            ChannelType::Underflow
        } else if xi == self.nx - 1 {
            ChannelType::Overflow
        } else {
            ChannelType::Bin
        };
        let kind = if two && (match xk {
            ChannelType::Bin => true,
            _ => false,
        }) {
            if yi == 0 {
                ChannelType::Underflow
            } else if yi == self.ny - 1 {
                ChannelType::Overflow
            } else {
                ChannelType::Bin
            }
        } else {
            xk
        };
        Channel {
            chan_type: kind,
            x: Self::axis_coord(&self.xcoords, xi),
            y: if two {
                Self::axis_coord(&self.ycoords, yi)
            } else {
                0
            },
            bin: i,
            value: self.channels[i],
        }
    }

    /// The non-zero channels within `[xlow, xhigh]` x `[ylow, yhigh]` (see
    /// `shown`), in the order of the channels.
    pub fn contents(&self, xlow: u64, xhigh: u64, ylow: u64, yhigh: u64) -> (r: Vec<Channel>)
        requires
            spectrum_wf(self@),
        ensures
            r@ == contents_within(self@, xlow, xhigh, ylow, yhigh),
    {
        let two = match self.kind {
            SpectrumKind::OneD => false,
            SpectrumKind::Multi1d => false,
            _ => true,
        };
        let mut out: Vec<Channel> = Vec::new();
        let mut i: usize = 0;
        while i < self.channels.len()
            invariant
                spectrum_wf(self@),
                i <= self@.channels.len(),
                two == is_2d(self@.kind),
                out@ == contents_upto(self@, i as int, xlow, xhigh, ylow, yhigh),
            decreases self@.channels.len() - i,
        {
            let c = self.channel(i);
            let v = c.value;
            let show = if v == 0 || v == 0x8000_0000_0000_0000u64 {
                false
            } else if two {
                bits_le(xlow, c.x) && bits_le(c.x, xhigh) && bits_le(ylow, c.y) && bits_le(c.y, yhigh)
            } else {
                match c.chan_type {
                    ChannelType::Bin => bits_le(xlow, c.x) && bits_le(c.x, xhigh),
                    _ => true,
                }
            };
            if show {
                out.push(c);
            }
            i = i + 1;
        }
        out
    }
}

/// Where a fill lands along x: at a coordinate, which the program bins,
/// or in a given channel of the grid (a summary spectrum's parameter).
#[derive(Clone, Copy, Debug, PartialEq, Eq)]
pub enum XFill {
    Value(u64),
    Channel(usize),
}

/// A fill of a spectrum by an event: along x, and at a y coordinate for a
/// 2-d spectrum.
#[derive(Clone, Copy, Debug, PartialEq, Eq)]
pub struct Fill {
    pub x: XFill,
    pub y: Option<u64>,
}

/// The value of the parameter named `name` in `ev`: `None` when no
/// parameter of `pd` has that name or the event does not set it.
pub open spec fn param_value(pd: Seq<ParameterView>, ev: FlatEvent, name: Seq<char>) -> Option<u64> {
    if has_name(pd, name) {
        ev.value(pd[choose|i: int| 0 <= i < pd.len() && #[trigger] pd[i].name == name].id)
    } else {
        None
    }
}

/// The values in `ev` of the parameters `names`.
pub open spec fn param_values(pd: Seq<ParameterView>, ev: FlatEvent, names: Seq<Seq<char>>) -> Seq<Option<u64>> {
    names.map_values(|n: Seq<char>| param_value(pd, ev, n))
}

/// The values that are set among the first `n` of `v`, in order.
pub open spec fn present_upto(v: Seq<Option<u64>>, n: int) -> Seq<u64>
    decreases n,
{
    if n <= 0 {
        Seq::empty()
    } else {
        match v[n - 1] {
            Some(a) => present_upto(v, n - 1).push(a),
            None => present_upto(v, n - 1),
        }
    }
}

/// The fills `(x[k], y[k])` for the first `n` positions where both are
/// set.
pub open spec fn pairs_upto(x: Seq<Option<u64>>, y: Seq<Option<u64>>, n: int) -> Seq<Fill>
    decreases n,
{
    if n <= 0 {
        Seq::empty()
    } else {
        match (x[n - 1], y[n - 1]) {
            (Some(a), Some(b)) => pairs_upto(x, y, n - 1).push(Fill { x: XFill::Value(a), y: Some(b) }),
            _ => pairs_upto(x, y, n - 1),
        }
    }
}

/// The fills `(a, b[k])` for the first `m` values of `b`.
pub open spec fn row_upto(a: u64, b: Seq<u64>, m: int) -> Seq<Fill>
    decreases m,
{
    if m <= 0 {
        Seq::empty()
    } else {
        row_upto(a, b, m - 1).push(Fill { x: XFill::Value(a), y: Some(b[m - 1]) })
    }
}

/// Every fill `(a[i], b[k])`, for the first `n` values of `a`.
pub open spec fn cross_upto(a: Seq<u64>, b: Seq<u64>, n: int) -> Seq<Fill>
    decreases n,
{
    if n <= 0 {
        Seq::empty()
    } else {
        cross_upto(a, b, n - 1) + row_upto(a[n - 1], b, b.len() as int)
    }
}

/// The fills `(a[i], a[j])` and `(a[j], a[i])`, for `i < j < m`.
pub open spec fn sym_row_upto(a: Seq<u64>, i: int, m: int) -> Seq<Fill>
    decreases m - i,
{
    if m <= i + 1 {
        Seq::empty()
    } else {
        sym_row_upto(a, i, m - 1).push(Fill { x: XFill::Value(a[i]), y: Some(a[m - 1]) }).push(
            Fill { x: XFill::Value(a[m - 1]), y: Some(a[i]) },
        )
    }
}

/// The fills of every pair of distinct positions of `a`, both ways round,
/// for pairs starting among the first `n` positions.
pub open spec fn sym_pairs_upto(a: Seq<u64>, n: int) -> Seq<Fill>
    decreases n,
{
    if n <= 0 {
        Seq::empty()
    } else {
        sym_pairs_upto(a, n - 1) + sym_row_upto(a, n - 1, a.len() as int)
    }
}

/// The fills of a summary spectrum: parameter `k` that is set fills
/// channel `k + 1` at its value.
pub open spec fn summary_upto(x: Seq<Option<u64>>, n: int) -> Seq<Fill>
    decreases n,
{
    if n <= 0 {
        Seq::empty()
    } else {
        match x[n - 1] {
            Some(v) => summary_upto(x, n - 1).push(Fill { x: XFill::Channel(n as usize), y: Some(v) }),
            None => summary_upto(x, n - 1),
        }
    }
}

/// The fills that an event with parameter values `x` and `y` makes in a
/// spectrum of kind `k`: each set parameter of a 1-d spectrum; the pair of
/// a 2-d spectrum (each pair of a 2-d sum spectrum) when both are set;
/// every x with every y for a particle gamma spectrum; every pair of set
/// parameters, both ways round, for a multiply incremented 2-d spectrum;
/// each set parameter of a summary spectrum in its own channel.
pub open spec fn fills_of(k: SpectrumKind, x: Seq<Option<u64>>, y: Seq<Option<u64>>) -> Seq<Fill> {
    let px = present_upto(x, x.len() as int);
    match k {
        SpectrumKind::OneD => px.map_values(|a: u64| Fill { x: XFill::Value(a), y: None }),
        SpectrumKind::Multi1d => px.map_values(|a: u64| Fill { x: XFill::Value(a), y: None }),
        SpectrumKind::TwoD => pairs_upto(x, y, if x.len() <= y.len() { x.len() as int } else { y.len() as int }),
        SpectrumKind::TwoDSum => pairs_upto(x, y, if x.len() <= y.len() { x.len() as int } else { y.len() as int }),
        SpectrumKind::PGamma => {
            let py = present_upto(y, y.len() as int);
            cross_upto(px, py, px.len() as int)
        },
        SpectrumKind::Multi2d => sym_pairs_upto(px, px.len() as int),
        SpectrumKind::Summary => summary_upto(x, x.len() as int),
    }
}

/// The number of set values among the first `n` of `v`.
pub open spec fn set_count(v: Seq<Option<u64>>, n: int) -> nat
    decreases n,
{
    if n <= 0 {
        0
    } else {
        set_count(v, n - 1) + if v[n - 1] is Some {
            1nat
        } else {
            0nat
        }
    }
}

proof fn lemma_present_upto(v: Seq<Option<u64>>, n: int)
    requires
        0 <= n <= v.len(),
    ensures
        present_upto(v, n).len() == set_count(v, n),
        forall|j: int| 0 <= j < n && #[trigger] v[j] is Some ==> present_upto(v, n)[set_count(v, j) as int] == v[j]->0,
    decreases n,
{
    if n > 0 {
        lemma_present_upto(v, n - 1);
        lemma_set_count_grows(v, n - 1);
    }
}

proof fn lemma_set_count_grows(v: Seq<Option<u64>>, n: int)
    requires
        0 <= n,
    ensures
        forall|j: int| 0 <= j <= n ==> #[trigger] set_count(v, j) <= set_count(v, n),
        forall|j: int| 0 <= j < n && #[trigger] v[j] is Some ==> set_count(v, j) < set_count(v, n),
    decreases n,
{
    if n > 0 {
        lemma_set_count_grows(v, n - 1);
    }
}

/// A 1-d or multiply incremented 1-d spectrum takes one fill per
/// parameter that the event sets, in the order of its parameters, at the
/// parameter's value and with no y coordinate: the `j`th parameter, when
/// set, gives the fill after those of the set parameters before it.
pub proof fn law_one_d_fills_each_set_parameter(k: SpectrumKind, x: Seq<Option<u64>>, y: Seq<Option<u64>>)
    requires
        k is OneD || k is Multi1d,
    ensures
        fills_of(k, x, y).len() == set_count(x, x.len() as int),
        forall|j: int|
            0 <= j < x.len() && #[trigger] x[j] is Some ==> fills_of(k, x, y)[set_count(x, j) as int] == (Fill {
                x: XFill::Value(x[j]->0),
                y: None,
            }),
{
    lemma_present_upto(x, x.len() as int);
    lemma_set_count_grows(x, x.len() as int);
}

/// A 2-d spectrum takes one fill from an event that sets both its
/// parameters, at their values, and none otherwise.
pub proof fn law_two_d_fills_the_pair(x: Seq<Option<u64>>, y: Seq<Option<u64>>)
    requires
        x.len() == 1,
        y.len() == 1,
    ensures
        fills_of(SpectrumKind::TwoD, x, y) == (match (x[0], y[0]) {
            (Some(a), Some(b)) => seq![Fill { x: XFill::Value(a), y: Some(b) }],
            _ => Seq::<Fill>::empty(),
        }),
{
    assert(pairs_upto(x, y, 0) == Seq::<Fill>::empty());
    assert(fills_of(SpectrumKind::TwoD, x, y) == pairs_upto(x, y, 1));
    assert(fills_of(SpectrumKind::TwoD, x, y) =~= (match (x[0], y[0]) {
        (Some(a), Some(b)) => seq![Fill { x: XFill::Value(a), y: Some(b) }],
        _ => Seq::<Fill>::empty(),
    }));
}

proof fn lemma_summary_upto(x: Seq<Option<u64>>, n: int)
    requires
        0 <= n <= x.len(),
        x.len() < usize::MAX,
    ensures
        summary_upto(x, n).len() == set_count(x, n),
        forall|j: int| 0 <= j < n && #[trigger] x[j] is Some ==> summary_upto(x, n)[set_count(x, j) as int] == (Fill {
            x: XFill::Channel((j + 1) as usize),
            y: Some(x[j]->0),
        }),
    decreases n,
{
    if n > 0 {
        lemma_summary_upto(x, n - 1);
        lemma_set_count_grows(x, n - 1);
    }
}

/// A summary spectrum takes one fill per parameter that the event sets:
/// the `j`th parameter fills channel `j + 1` of x (its bin; channel 0 is
/// the underflow) at its value along y, after the fills of the set
/// parameters before it.
pub proof fn law_summary_fills_each_set_parameter(x: Seq<Option<u64>>, y: Seq<Option<u64>>)
    requires
        x.len() < usize::MAX,
    ensures
        fills_of(SpectrumKind::Summary, x, y).len() == set_count(x, x.len() as int),
        forall|j: int|
            0 <= j < x.len() && #[trigger] x[j] is Some ==> fills_of(SpectrumKind::Summary, x, y)[set_count(x, j) as int]
                == (Fill { x: XFill::Channel((j + 1) as usize), y: Some(x[j]->0) }),
{
    lemma_summary_upto(x, x.len() as int);
}

/// The number of positions among the first `n` where both `x` and `y` are
/// set.
pub open spec fn both_count(x: Seq<Option<u64>>, y: Seq<Option<u64>>, n: int) -> nat
    decreases n,
{
    if n <= 0 {
        0
    } else {
        both_count(x, y, n - 1) + if x[n - 1] is Some && y[n - 1] is Some {
            1nat
        } else {
            0nat
        }
    }
}

proof fn lemma_pairs_upto(x: Seq<Option<u64>>, y: Seq<Option<u64>>, n: int)
    requires
        0 <= n <= x.len(),
        n <= y.len(),
    ensures
        pairs_upto(x, y, n).len() == both_count(x, y, n),
        forall|j: int|
            0 <= j < n && #[trigger] x[j] is Some && y[j] is Some ==> pairs_upto(x, y, n)[both_count(x, y, j) as int]
                == (Fill { x: XFill::Value(x[j]->0), y: Some(y[j]->0) }),
    decreases n,
{
    if n > 0 {
        lemma_pairs_upto(x, y, n - 1);
        lemma_both_count_grows(x, y, n - 1);
    }
}

proof fn lemma_both_count_grows(x: Seq<Option<u64>>, y: Seq<Option<u64>>, n: int)
    requires
        0 <= n,
    ensures
        forall|j: int| 0 <= j <= n ==> #[trigger] both_count(x, y, j) <= both_count(x, y, n),
        forall|j: int| 0 <= j < n && #[trigger] x[j] is Some && y[j] is Some ==> both_count(x, y, j) < both_count(x, y, n),
    decreases n,
{
    if n > 0 {
        lemma_both_count_grows(x, y, n - 1);
    }
}

/// A 2-d sum spectrum takes one fill per pair `(x[j], y[j])` of its
/// parameters that the event sets both of, at their values, in the order of
/// the pairs.
pub proof fn law_sum_fills_each_set_pair(x: Seq<Option<u64>>, y: Seq<Option<u64>>)
    requires
        x.len() == y.len(),
    ensures
        fills_of(SpectrumKind::TwoDSum, x, y).len() == both_count(x, y, x.len() as int),
        forall|j: int|
            0 <= j < x.len() && #[trigger] x[j] is Some && y[j] is Some ==> fills_of(SpectrumKind::TwoDSum, x, y)[both_count(
                x,
                y,
                j,
            ) as int] == (Fill { x: XFill::Value(x[j]->0), y: Some(y[j]->0) }),
{
    lemma_pairs_upto(x, y, x.len() as int);
}

proof fn lemma_row_upto(a: u64, b: Seq<u64>, m: int)
    requires
        0 <= m <= b.len(),
    ensures
        row_upto(a, b, m).len() == m,
        forall|j: int| 0 <= j < m ==> #[trigger] row_upto(a, b, m)[j] == (Fill { x: XFill::Value(a), y: Some(b[j]) }),
    decreases m,
{
    if m > 0 {
        lemma_row_upto(a, b, m - 1);
    }
}

proof fn lemma_cross_upto(a: Seq<u64>, b: Seq<u64>, n: int)
    requires
        0 <= n <= a.len(),
    ensures
        cross_upto(a, b, n).len() == n * b.len(),
        forall|i: int, j: int|
            0 <= i < n && 0 <= j < b.len() ==> #[trigger] cross_upto(a, b, n)[i * b.len() + j] == (Fill {
                x: XFill::Value(a[i]),
                y: Some(b[j]),
            }),
    decreases n,
{
    if n == 0 {
        assert(n * b.len() == 0) by (nonlinear_arith)
            requires
                n == 0,
        ;
    } else {
        lemma_cross_upto(a, b, n - 1);
        lemma_row_upto(a[n - 1], b, b.len() as int);
        let prev = cross_upto(a, b, n - 1);
        let row = row_upto(a[n - 1], b, b.len() as int);
        let bl = b.len() as int;
        assert((n - 1) * bl + bl == n * bl) by (nonlinear_arith);
        assert(cross_upto(a, b, n) == prev + row);
        assert(cross_upto(a, b, n).len() == prev.len() + row.len());
        assert forall|i: int, j: int| 0 <= i < n && 0 <= j < b.len() implies #[trigger] cross_upto(a, b, n)[i
            * b.len() + j] == (Fill { x: XFill::Value(a[i]), y: Some(b[j]) }) by {
            if i < n - 1 {
                assert(i * b.len() + j < (n - 1) * b.len()) by (nonlinear_arith)
                    requires
                        i < n - 1,
                        j < b.len(),
                ;
                assert(0 <= i * b.len()) by (nonlinear_arith)
                    requires
                        0 <= i,
                ;
            } else {
                assert(i * b.len() == (n - 1) * b.len());
            }
        }
    }
}

/// A particle gamma spectrum takes one fill for each set x parameter
/// with each set y parameter: the fill of the `i`th set x value with the
/// `j`th set y value comes at `i * (number of set y values) + j`.
pub proof fn law_pgamma_fills_every_pair(x: Seq<Option<u64>>, y: Seq<Option<u64>>)
    ensures
        ({
            let px = present_upto(x, x.len() as int);
            let py = present_upto(y, y.len() as int);
            let f = fills_of(SpectrumKind::PGamma, x, y);
            &&& px.len() == set_count(x, x.len() as int) && py.len() == set_count(y, y.len() as int)
            &&& f.len() == px.len() * py.len()
            &&& forall|i: int, j: int|
                0 <= i < px.len() && 0 <= j < py.len() ==> #[trigger] f[i * py.len() + j] == (Fill {
                    x: XFill::Value(px[i]),
                    y: Some(py[j]),
                })
        }),
{
    lemma_present_upto(x, x.len() as int);
    lemma_present_upto(y, y.len() as int);
    let px = present_upto(x, x.len() as int);
    let py = present_upto(y, y.len() as int);
    lemma_cross_upto(px, py, px.len() as int);
}

/// Making a spectrum checks its parameters: the first unknown name is one
/// of the names and is not a parameter, and there is none exactly when
/// every name is a parameter.
pub proof fn law_unknown_parameter_is_reported(pd: Seq<ParameterView>, names: Seq<Seq<char>>)
    ensures
        first_unknown(pd, names) is None <==> forall|k: int| 0 <= k < names.len() ==> has_name(pd, #[trigger] names[k]),
        first_unknown(pd, names) matches Some(n) ==> names.contains(n) && !has_name(pd, n),
    decreases names.len(),
{
    if names.len() > 0 {
        let rest = names.drop_first();
        law_unknown_parameter_is_reported(pd, rest);
        if has_name(pd, names[0]) {
            assert forall|k: int| 0 <= k < names.len() && (forall|j: int| 0 <= j < rest.len() ==> has_name(pd, #[trigger] rest[j]))
                implies has_name(pd, #[trigger] names[k]) by {
                if k > 0 {
                    assert(names[k] == rest[k - 1]);
                }
            }
            if first_unknown(pd, names) is Some {
                let n = first_unknown(pd, names)->0;
                let j = choose|j: int| 0 <= j < rest.len() && rest[j] == n;
                assert(names[j + 1] == n);
            } else {
                assert forall|j: int| 0 <= j < rest.len() implies has_name(pd, #[trigger] rest[j]) by {
                    assert(rest[j] == names[j + 1]);
                }
            }
        } else {
            assert(names.contains(names[0]));
        }
    }
}

proof fn lemma_sym_row_len(a: Seq<u64>, i: int, m: int)
    requires
        0 <= i,
    ensures
        sym_row_upto(a, i, m).len() == if m <= i + 1 { 0 } else { 2 * (m - i - 1) },
    decreases m - i,
{
    if m > i + 1 {
        lemma_sym_row_len(a, i, m - 1);
    }
}

proof fn lemma_sym_pairs_len(a: Seq<u64>, n: int)
    requires
        0 <= n <= a.len(),
    ensures
        sym_pairs_upto(a, n).len() == n * (2 * a.len() - n - 1),
    decreases n,
{
    if n == 0 {
        assert(n * (2 * a.len() - n - 1) == 0) by (nonlinear_arith)
            requires
                n == 0,
        ;
    } else {
        lemma_sym_pairs_len(a, n - 1);
        lemma_sym_row_len(a, n - 1, a.len() as int);
        let l = a.len() as int;
        assert((n - 1) * (2 * l - (n - 1) - 1) + 2 * (l - n) == n * (2 * l - n - 1)) by (nonlinear_arith);
    }
}

/// A multiply incremented 2-d spectrum takes two fills for each pair of
/// distinct parameters that the event sets (one each way round): with `c`
/// parameters set, `c * (c - 1)` fills.
pub proof fn law_multi2d_fills_each_pair_twice(x: Seq<Option<u64>>, y: Seq<Option<u64>>)
    ensures
        ({
            let c = set_count(x, x.len() as int) as int;
            fills_of(SpectrumKind::Multi2d, x, y).len() == c * (c - 1)
        }),
{
    lemma_present_upto(x, x.len() as int);
    let px = present_upto(x, x.len() as int);
    lemma_sym_pairs_len(px, px.len() as int);
    let c = px.len() as int;
    assert(c * (2 * c - c - 1) == c * (c - 1)) by (nonlinear_arith);
}

/// The value of the parameter named `name` in `ev`.
fn value_of(pdict: &ParameterDictionary, ev: &FlatEvent, name: &String) -> (r: Option<u64>)
    requires
        pdict.wf(),
    ensures
        r == param_value(pdict@, *ev, name@),
{
    match pdict.lookup(name.as_str()) {
        None => None,
        Some(p) => {
            proof {
                let pd = pdict@;
                let i = choose|i: int| 0 <= i < pd.len() && #[trigger] pd[i].name == name@;
                let j = choose|j: int| 0 <= j < pd.len() && pd[j] == p@;
                assert(pd[j].name == name@);
                pdict.lemma_distinct();
                assert(i == j);
            }
            ev.get_parameter(p.get_id())
        },
    }
}

fn values_of(pdict: &ParameterDictionary, ev: &FlatEvent, names: &Vec<String>) -> (r: Vec<Option<u64>>)
    requires
        pdict.wf(),
    ensures
        r@ == param_values(pdict@, *ev, strings_view(names@)),
{
    let mut out: Vec<Option<u64>> = Vec::new();
    let mut i: usize = 0;
    while i < names.len()
        invariant
            pdict.wf(),
            i <= names@.len(),
            out@ == param_values(pdict@, *ev, strings_view(names@)).take(i as int),
        decreases names@.len() - i,
    {
        let v = value_of(pdict, ev, &names[i]);
        out.push(v);
        i = i + 1;
        proof {
            assert(out@ =~= param_values(pdict@, *ev, strings_view(names@)).take(i as int));
        }
    }
    proof {
        assert(out@ =~= param_values(pdict@, *ev, strings_view(names@)));
    }
    out
}

fn present(v: &Vec<Option<u64>>) -> (r: Vec<u64>)
    ensures
        r@ == present_upto(v@, v@.len() as int),
{
    let mut out: Vec<u64> = Vec::new();
    let mut i: usize = 0;
    while i < v.len()
        invariant
            i <= v@.len(),
            out@ == present_upto(v@, i as int),
        decreases v@.len() - i,
    {
        match v[i] {
            Some(a) => out.push(a),
            None => {},
        }
        i = i + 1;
    }
    out
}

impl Spectrum {
    /// The fills that the event `ev` makes in the spectrum (see
    /// `fills_of`), the parameters being looked up by name in `pdict`.
    /// Whether the spectrum's gate lets the event in is for the caller to
    /// check.
    pub fn fills(&self, pdict: &ParameterDictionary, ev: &FlatEvent) -> (r: Vec<Fill>)
        requires
            pdict.wf(),
        ensures
            r@ == fills_of(
                self@.kind,
                param_values(pdict@, *ev, self@.xparams),
                param_values(pdict@, *ev, self@.yparams),
            ),
    {
        let x = values_of(pdict, ev, &self.xparams);
        let y = values_of(pdict, ev, &self.yparams);
        let mut out: Vec<Fill> = Vec::new();
        match self.kind {
            SpectrumKind::OneD | SpectrumKind::Multi1d => {
                let px = present(&x);
                let mut i: usize = 0;
                while i < px.len()
                    invariant
                        i <= px@.len(),
                        out@ == px@.take(i as int).map_values(|a: u64| Fill { x: XFill::Value(a), y: None }),
                    decreases px@.len() - i,
                {
                    out.push(Fill { x: XFill::Value(px[i]), y: None });
                    i = i + 1;
                    proof {
                        assert(out@ =~= px@.take(i as int).map_values(|a: u64| Fill { x: XFill::Value(a), y: None }));
                    }
                }
                proof {
                    assert(px@.take(px@.len() as int) =~= px@);
                }
            },
            SpectrumKind::TwoD | SpectrumKind::TwoDSum => {
                let n = if x.len() <= y.len() { x.len() } else { y.len() };
                let mut i: usize = 0;
                while i < n
                    invariant
                        i <= n,
                        n <= x@.len() && n <= y@.len(),
                        out@ == pairs_upto(x@, y@, i as int),
                    decreases n - i,
                {
                    match (x[i], y[i]) {
                        (Some(a), Some(b)) => out.push(Fill { x: XFill::Value(a), y: Some(b) }),
                        _ => {},
                    }
                    i = i + 1;
                }
            },
            SpectrumKind::PGamma => {
                let px = present(&x);
                let py = present(&y);
                let mut i: usize = 0;
                while i < px.len()
                    invariant
                        i <= px@.len(),
                        out@ == cross_upto(px@, py@, i as int),
                    decreases px@.len() - i,
                {
                    let a = px[i];
                    let mut j: usize = 0;
                    while j < py.len()
                        invariant
                            i < px@.len(),
                            a == px@[i as int],
                            j <= py@.len(),
                            out@ == cross_upto(px@, py@, i as int) + row_upto(a, py@, j as int),
                        decreases py@.len() - j,
                    {
                        out.push(Fill { x: XFill::Value(a), y: Some(py[j]) });
                        j = j + 1;
                        proof {
                            assert(out@ =~= cross_upto(px@, py@, i as int) + row_upto(a, py@, j as int));
                        }
                    }
                    i = i + 1;
                }
            },
            SpectrumKind::Multi2d => {
                let px = present(&x);
                let mut i: usize = 0;
                while i < px.len()
                    invariant
                        i <= px@.len(),
                        out@ == sym_pairs_upto(px@, i as int),
                    decreases px@.len() - i,
                {
                    let mut j: usize = i + 1;
                    while j < px.len()
                        invariant
                            i < px@.len(),
                            i + 1 <= j <= px@.len(),
                            out@ == sym_pairs_upto(px@, i as int) + sym_row_upto(px@, i as int, j as int),
                        decreases px@.len() - j,
                    {
                        out.push(Fill { x: XFill::Value(px[i]), y: Some(px[j]) });
                        out.push(Fill { x: XFill::Value(px[j]), y: Some(px[i]) });
                        j = j + 1;
                        proof {
                            assert(out@ =~= sym_pairs_upto(px@, i as int) + sym_row_upto(px@, i as int, j as int));
                        }
                    }
                    i = i + 1;
                }
            },
            SpectrumKind::Summary => {
                let mut i: usize = 0;
                while i < x.len()
                    invariant
                        i <= x@.len(),
                        out@ == summary_upto(x@, i as int),
                    decreases x@.len() - i,
                {
                    match x[i] {
                        Some(v) => out.push(Fill { x: XFill::Channel(i + 1), y: Some(v) }),
                        None => {},
                    }
                    i = i + 1;
                }
            },
        }
        out
    }
}

} // verus!
