//! Numeric lexer and byte-level scanning primitives.
//!
//! A `Scalar` is a signed decimal literal kept in its textual form: an
//! optional sign, a mandatory run of integer digits, and a run of fractional
//! digits (which defaults to `0` when the literal has no `.` part). Keeping
//! the digit runs verbatim makes re-serialization exact.

use vstd::prelude::*;

verus! {

pub open spec fn is_digit(b: u8) -> bool {
    0x30 <= b <= 0x39
}

pub open spec fn is_space(b: u8) -> bool {
    b == 0x20 || b == 0x09
}

/// Index just past the run of decimal digits starting at `i`.
pub open spec fn digit_run_end(s: Seq<u8>, i: int) -> int
    recommends
        0 <= i <= s.len(),
    decreases s.len() - i,
{
    if i < s.len() && is_digit(s[i]) {
        digit_run_end(s, i + 1)
    } else {
        i
    }
}

/// Index just past the run of blanks (spaces and tabs) starting at `i`.
pub open spec fn space_run_end(s: Seq<u8>, i: int) -> int
    recommends
        0 <= i <= s.len(),
    decreases s.len() - i,
{
    if i < s.len() && is_space(s[i]) {
        space_run_end(s, i + 1)
    } else {
        i
    }
}

/// Index just past the run of non-blank bytes starting at `i`.
pub open spec fn token_run_end(s: Seq<u8>, i: int) -> int
    recommends
        0 <= i <= s.len(),
    decreases s.len() - i,
{
    if i < s.len() && !is_space(s[i]) {
        token_run_end(s, i + 1)
    } else {
        i
    }
}

/// Index of the first line feed at or after `i`, or `s.len()` if none.
pub open spec fn line_end_from(s: Seq<u8>, i: int) -> int
    recommends
        0 <= i <= s.len(),
    decreases s.len() - i,
{
    if i < s.len() && s[i] != 0x0a {
        line_end_from(s, i + 1)
    } else {
        i
    }
}

pub proof fn lemma_digit_run_end(s: Seq<u8>, i: int)
    requires
        0 <= i <= s.len(),
    ensures
        i <= digit_run_end(s, i) <= s.len(),
        forall|k: int| i <= k < digit_run_end(s, i) ==> is_digit(#[trigger] s[k]),
        digit_run_end(s, i) < s.len() ==> !is_digit(s[digit_run_end(s, i)]),
    decreases s.len() - i,
{
    if i < s.len() && is_digit(s[i]) {
        lemma_digit_run_end(s, i + 1);
    }
}

/// A digit run ends exactly where the digits stop.
pub proof fn lemma_digit_run_end_exact(s: Seq<u8>, i: int, j: int)
    requires
        0 <= i <= j <= s.len(),
        forall|k: int| i <= k < j ==> is_digit(#[trigger] s[k]),
        j < s.len() ==> !is_digit(s[j]),
    ensures
        digit_run_end(s, i) == j,
    decreases j - i,
{
    if i < j {
        lemma_digit_run_end_exact(s, i + 1, j);
    }
}

pub proof fn lemma_space_run_end(s: Seq<u8>, i: int)
    requires
        0 <= i <= s.len(),
    ensures
        i <= space_run_end(s, i) <= s.len(),
    decreases s.len() - i,
{
    if i < s.len() && is_space(s[i]) {
        lemma_space_run_end(s, i + 1);
    }
}

pub proof fn lemma_token_run_end(s: Seq<u8>, i: int)
    requires
        0 <= i <= s.len(),
    ensures
        i <= token_run_end(s, i) <= s.len(),
    decreases s.len() - i,
{
    if i < s.len() && !is_space(s[i]) {
        lemma_token_run_end(s, i + 1);
    }
}

pub proof fn lemma_line_end_from(s: Seq<u8>, i: int)
    requires
        i <= s.len(),
    ensures
        i <= line_end_from(s, i) <= s.len(),
    decreases s.len() - i,
{
    if i < s.len() && s[i] != 0x0a {
        lemma_line_end_from(s, i + 1);
    }
}

pub fn advance_digits(s: &[u8], i: usize) -> (r: usize)
    requires
        i <= s@.len(),
    ensures
        r == digit_run_end(s@, i as int),
        i <= r <= s@.len(),
{
    proof {
        lemma_digit_run_end(s@, i as int);
    }
    let mut j = i;
    while j < s.len() && 0x30 <= s[j] && s[j] <= 0x39
        invariant
            i <= j <= s@.len(),
            digit_run_end(s@, i as int) == digit_run_end(s@, j as int),
        decreases s@.len() - j,
    {
        j += 1;
    }
    j
}

pub fn advance_spaces(s: &[u8], i: usize) -> (r: usize)
    requires
        i <= s@.len(),
    ensures
        r == space_run_end(s@, i as int),
        i <= r <= s@.len(),
{
    proof {
        lemma_space_run_end(s@, i as int);
    }
    let mut j = i;
    while j < s.len() && (s[j] == 0x20 || s[j] == 0x09)
        invariant
            i <= j <= s@.len(),
            space_run_end(s@, i as int) == space_run_end(s@, j as int),
        decreases s@.len() - j,
    {
        j += 1;
    }
    j
}

pub fn advance_token(s: &[u8], i: usize) -> (r: usize)
    requires
        i <= s@.len(),
    ensures
        r == token_run_end(s@, i as int),
        i <= r <= s@.len(),
{
    proof {
        lemma_token_run_end(s@, i as int);
    }
    let mut j = i;
    while j < s.len() && s[j] != 0x20 && s[j] != 0x09
        invariant
            i <= j <= s@.len(),
            token_run_end(s@, i as int) == token_run_end(s@, j as int),
        decreases s@.len() - j,
    {
        j += 1;
    }
    j
}

pub fn find_line_end(s: &[u8], i: usize) -> (r: usize)
    requires
        i <= s@.len(),
    ensures
        r == line_end_from(s@, i as int),
        i <= r <= s@.len(),
{
    proof {
        lemma_line_end_from(s@, i as int);
    }
    let mut j = i;
    while j < s.len() && s[j] != 0x0a
        invariant
            i <= j <= s@.len(),
            line_end_from(s@, i as int) == line_end_from(s@, j as int),
        decreases s@.len() - j,
    {
        j += 1;
    }
    j
}

/// Copy of the byte range `[i, j)` of `s`.
pub fn copy_range(s: &[u8], i: usize, j: usize) -> (r: Vec<u8>)
    requires
        i <= j <= s@.len(),
    ensures
        r@ == s@.subrange(i as int, j as int),
{
    let mut out: Vec<u8> = Vec::new();
    let mut k = i;
    while k < j
        invariant
            i <= k <= j <= s@.len(),
            out@ == s@.subrange(i as int, k as int),
        decreases j - k,
    {
        out.push(s[k]);
        proof {
            assert(out@ =~= s@.subrange(i as int, k + 1 as int));
        }
        k += 1;
    }
    out
}

/// A signed decimal literal, kept textually: sign, integer digit run,
/// fractional digit run. A literal written without a fractional part is
/// stored with the fractional run `0`, mirroring how the composed text of
/// the literal is completed before it is interpreted.
#[derive(Clone, Debug, PartialEq, Eq)]
pub struct Scalar {
    pub neg: bool,
    pub int_digits: Vec<u8>,
    pub frac_digits: Vec<u8>,
}

/// Mathematical model of a `Scalar`.
pub ghost struct ScalarV {
    pub neg: bool,
    pub int_digits: Seq<u8>,
    pub frac_digits: Seq<u8>,
}

impl View for Scalar {
    type V = ScalarV;

    open spec fn view(&self) -> ScalarV {
        ScalarV { neg: self.neg, int_digits: self.int_digits@, frac_digits: self.frac_digits@ }
    }
}

/// Both digit runs are non-empty and hold decimal digits only.
pub open spec fn scalar_wf(sc: ScalarV) -> bool {
    &&& sc.int_digits.len() > 0
    &&& sc.frac_digits.len() > 0
    &&& forall|k: int| 0 <= k < sc.int_digits.len() ==> is_digit(#[trigger] sc.int_digits[k])
    &&& forall|k: int| 0 <= k < sc.frac_digits.len() ==> is_digit(#[trigger] sc.frac_digits[k])
}

/// The scalar `0.0`.
pub open spec fn spec_zero_scalar() -> ScalarV {
    ScalarV { neg: false, int_digits: seq![0x30u8], frac_digits: seq![0x30u8] }
}

/// Scan a signed decimal literal at `i`: an optional `-`, a mandatory digit
/// run, and an optional `.`-prefixed digit run. No match if the mandatory
/// digit run is absent; a `.` not followed by a digit is left unconsumed.
pub open spec fn spec_scan_scalar(s: Seq<u8>, i: int) -> Option<(ScalarV, int)>
    recommends
        0 <= i <= s.len(),
{
    let neg = i < s.len() && s[i] == 0x2d;
    let p = if neg { i + 1 } else { i };
    let e = digit_run_end(s, p);
    if e == p {
        None
    } else if e < s.len() && s[e] == 0x2e && digit_run_end(s, e + 1) > e + 1 {
        let f = digit_run_end(s, e + 1);
        Some((ScalarV { neg, int_digits: s.subrange(p, e), frac_digits: s.subrange(e + 1, f) }, f))
    } else {
        Some((ScalarV { neg, int_digits: s.subrange(p, e), frac_digits: seq![0x30u8] }, e))
    }
}

pub fn scan_scalar(s: &[u8], i: usize) -> (r: Option<(Scalar, usize)>)
    requires
        i <= s@.len(),
    ensures
        match r {
            Some((sc, e)) => {
                &&& spec_scan_scalar(s@, i as int) == Some((sc@, e as int))
                &&& i <= e <= s@.len()
            },
            None => spec_scan_scalar(s@, i as int) is None,
        },
{
    let neg = i < s.len() && s[i] == 0x2d;
    let p = if neg { i + 1 } else { i };
    let e = advance_digits(s, p);
    if e == p {
        return None;
    }
    let int_digits = copy_range(s, p, e);
    if e < s.len() && s[e] == 0x2e {
        let f = advance_digits(s, e + 1);
        if f > e + 1 {
            let frac_digits = copy_range(s, e + 1, f);
            return Some((Scalar { neg, int_digits, frac_digits }, f));
        }
    }
    let mut frac_digits: Vec<u8> = Vec::new();
    frac_digits.push(0x30);
    proof {
        assert(frac_digits@ =~= seq![0x30u8]);
    }
    Some((Scalar { neg, int_digits, frac_digits }, e))
}

/// A successful scan yields a well-formed scalar whose end lies in the input.
pub proof fn lemma_scan_scalar_wf(s: Seq<u8>, i: int)
    requires
        0 <= i <= s.len(),
        spec_scan_scalar(s, i) is Some,
    ensures
        scalar_wf((spec_scan_scalar(s, i)->0).0),
        i < (spec_scan_scalar(s, i)->0).1 <= s.len(),
{
    let neg = i < s.len() && s[i] == 0x2d;
    let p = if neg { i + 1 } else { i };
    lemma_digit_run_end(s, p);
    let e = digit_run_end(s, p);
    if e < s.len() && s[e] == 0x2e && digit_run_end(s, e + 1) > e + 1 {
        lemma_digit_run_end(s, e + 1);
    }
}

/// The canonical text of a scalar: sign, integer run, `.`, fractional run.
pub open spec fn spec_render_scalar(sc: ScalarV) -> Seq<u8> {
    (if sc.neg { seq![0x2du8] } else { Seq::<u8>::empty() }) + sc.int_digits + seq![0x2eu8]
        + sc.frac_digits
}

/// Re-serialize a scalar as its canonical literal text.
pub fn render_scalar(sc: &Scalar) -> (r: Vec<u8>)
    ensures
        r@ == spec_render_scalar(sc@),
{
    let mut out: Vec<u8> = Vec::new();
    if sc.neg {
        out.push(0x2d);
    }
    let mut k: usize = 0;
    while k < sc.int_digits.len()
        invariant
            k <= sc.int_digits@.len(),
            out@ == (if sc.neg { seq![0x2du8] } else { Seq::<u8>::empty() })
                + sc.int_digits@.subrange(0, k as int),
        decreases sc.int_digits@.len() - k,
    {
        out.push(sc.int_digits[k]);
        proof {
            assert(sc.int_digits@.subrange(0, k + 1 as int) =~= sc.int_digits@.subrange(
                0,
                k as int,
            ).push(sc.int_digits@[k as int]));
        }
        k += 1;
    }
    out.push(0x2e);
    let mut k2: usize = 0;
    while k2 < sc.frac_digits.len()
        invariant
            k2 <= sc.frac_digits@.len(),
            out@ == (if sc.neg { seq![0x2du8] } else { Seq::<u8>::empty() }) + sc.int_digits@
                + seq![0x2eu8] + sc.frac_digits@.subrange(0, k2 as int),
        decreases sc.frac_digits@.len() - k2,
    {
        out.push(sc.frac_digits[k2]);
        proof {
            assert(sc.frac_digits@.subrange(0, k2 + 1 as int) =~= sc.frac_digits@.subrange(
                0,
                k2 as int,
            ).push(sc.frac_digits@[k2 as int]));
        }
        k2 += 1;
    }
    proof {
        assert(sc.int_digits@.subrange(0, sc.int_digits@.len() as int) =~= sc.int_digits@);
        assert(sc.frac_digits@.subrange(0, sc.frac_digits@.len() as int) =~= sc.frac_digits@);
        assert(out@ =~= spec_render_scalar(sc@));
    }
    out
}

/// Scanning the canonical text of a well-formed scalar yields that scalar
/// back, consuming the whole text: parsing and re-serialization round-trip.
pub proof fn lemma_scalar_round_trip(sc: ScalarV)
    requires
        scalar_wf(sc),
    ensures
        spec_scan_scalar(spec_render_scalar(sc), 0) == Some(
            (sc, spec_render_scalar(sc).len() as int),
        ),
{
    let r = spec_render_scalar(sc);
    let p: int = if sc.neg { 1 } else { 0 };
    let ilen = sc.int_digits.len() as int;
    let e = p + ilen;
    assert forall|k: int| p <= k < e implies is_digit(#[trigger] r[k]) by {
        assert(r[k] == sc.int_digits[k - p]);
    }
    assert(r[e] == 0x2e);
    assert(!is_digit(r[e]));
    lemma_digit_run_end_exact(r, p, e);
    assert forall|k: int| e + 1 <= k < r.len() implies is_digit(#[trigger] r[k]) by {
        assert(r[k] == sc.frac_digits[k - (e + 1)]);
    }
    lemma_digit_run_end_exact(r, e + 1, r.len() as int);
    assert(r[0] == (if sc.neg { 0x2d } else { sc.int_digits[0] }));
    assert((0 < r.len() && r[0] == 0x2d) == sc.neg) by {
        if !sc.neg {
            assert(is_digit(r[0]));
        }
    }
    let scanned = spec_scan_scalar(r, 0);
    assert(scanned is Some);
    assert((scanned->0).0.int_digits =~= sc.int_digits) by {
        assert(r.subrange(p, e) =~= sc.int_digits);
    }
    assert((scanned->0).0.frac_digits =~= sc.frac_digits) by {
        assert(r.subrange(e + 1, r.len() as int) =~= sc.frac_digits);
    }
    assert(digit_run_end(r, e + 1) == r.len());
    assert((scanned->0).1 == r.len());
}

/// Value of a run of decimal digit bytes, most significant first.
pub open spec fn uint_val(digits: Seq<u8>) -> nat
    recommends
        forall|k: int| 0 <= k < digits.len() ==> is_digit(#[trigger] digits[k]),
    decreases digits.len(),
{
    if digits.len() == 0 {
        0
    } else {
        uint_val(digits.drop_last()) * 10 + (digits.last() - 0x30) as nat
    }
}

/// Appending digits never lowers the value of a run.
pub proof fn lemma_uint_val_prefix(digits: Seq<u8>, k: int)
    requires
        0 <= k <= digits.len(),
        forall|j: int| 0 <= j < digits.len() ==> is_digit(#[trigger] digits[j]),
    ensures
        uint_val(digits.subrange(0, k)) <= uint_val(digits),
    decreases digits.len() - k,
{
    if k < digits.len() {
        lemma_uint_val_prefix(digits, k + 1);
        let pre = digits.subrange(0, k + 1);
        assert(pre.drop_last() =~= digits.subrange(0, k));
        assert(uint_val(digits.subrange(0, k)) <= uint_val(pre));
    } else {
        assert(digits.subrange(0, k) =~= digits);
    }
}

/// Scan an unsigned integer at `i`: a mandatory digit run whose value fits
/// in 32 bits. No match if the run is absent or its value is too large.
pub open spec fn spec_scan_u32(s: Seq<u8>, i: int) -> Option<(u32, int)>
    recommends
        0 <= i <= s.len(),
{
    let e = digit_run_end(s, i);
    if e == i {
        None
    } else if uint_val(s.subrange(i, e)) > u32::MAX {
        None
    } else {
        Some((uint_val(s.subrange(i, e)) as u32, e))
    }
}

pub fn scan_u32(s: &[u8], i: usize) -> (r: Option<(u32, usize)>)
    requires
        i <= s@.len(),
    ensures
        match r {
            Some((v, e)) => {
                &&& spec_scan_u32(s@, i as int) == Some((v, e as int))
                &&& i < e <= s@.len()
            },
            None => spec_scan_u32(s@, i as int) is None,
        },
{
    proof {
        lemma_digit_run_end(s@, i as int);
    }
    let e = advance_digits(s, i);
    if e == i {
        return None;
    }
    let ghost run = s@.subrange(i as int, e as int);
    let mut v: u64 = 0;
    let mut k = i;
    while k < e
        invariant
            i <= k <= e <= s@.len(),
            e == digit_run_end(s@, i as int),
            forall|j: int| i <= j < e ==> is_digit(#[trigger] s@[j]),
            run == s@.subrange(i as int, e as int),
            v == uint_val(run.subrange(0, k - i)),
            v <= u32::MAX,
        decreases e - k,
    {
        let d = s[k];
        let next: u64 = v * 10 + (d - 0x30) as u64;
        proof {
            let pre = run.subrange(0, k - i + 1);
            assert(pre.drop_last() =~= run.subrange(0, k - i));
            assert(pre.last() == s@[k as int]);
            assert(uint_val(pre) == next);
        }
        if next > 0xffff_ffff {
            proof {
                lemma_uint_val_prefix(run, k - i + 1);
            }
            return None;
        }
        v = next;
        k += 1;
    }
    proof {
        assert(run.subrange(0, e - i) =~= run);
    }
    Some((v as u32, e))
}

/// A triple of scalars: a position, a direction, or a texture coordinate.
#[derive(Clone, Debug, PartialEq, Eq)]
pub struct Triple {
    pub x: Scalar,
    pub y: Scalar,
    pub z: Scalar,
}

/// Mathematical model of a `Triple`.
pub ghost struct TripleV {
    pub x: ScalarV,
    pub y: ScalarV,
    pub z: ScalarV,
}

impl View for Triple {
    type V = TripleV;

    open spec fn view(&self) -> TripleV {
        TripleV { x: self.x@, y: self.y@, z: self.z@ }
    }
}

/// Scan three scalars separated by mandatory blank runs.
pub open spec fn spec_scan_triple(s: Seq<u8>, i: int) -> Option<(TripleV, int)>
    recommends
        0 <= i <= s.len(),
{
    match spec_scan_scalar(s, i) {
        None => None,
        Some((x, j1)) => {
            let p1 = space_run_end(s, j1);
            if p1 == j1 {
                None
            } else {
                match spec_scan_scalar(s, p1) {
                    None => None,
                    Some((y, j2)) => {
                        let p2 = space_run_end(s, j2);
                        if p2 == j2 {
                            None
                        } else {
                            match spec_scan_scalar(s, p2) {
                                None => None,
                                Some((z, j3)) => Some((TripleV { x, y, z }, j3)),
                            }
                        }
                    },
                }
            }
        },
    }
}

pub fn scan_triple(s: &[u8], i: usize) -> (r: Option<(Triple, usize)>)
    requires
        i <= s@.len(),
    ensures
        match r {
            Some((t, e)) => {
                &&& spec_scan_triple(s@, i as int) == Some((t@, e as int))
                &&& i <= e <= s@.len()
            },
            None => spec_scan_triple(s@, i as int) is None,
        },
{
    let (x, j1) = match scan_scalar(s, i) {
        Some(r) => r,
        None => { return None; },
    };
    let p1 = advance_spaces(s, j1);
    if p1 == j1 {
        return None;
    }
    let (y, j2) = match scan_scalar(s, p1) {
        Some(r) => r,
        None => { return None; },
    };
    let p2 = advance_spaces(s, j2);
    if p2 == j2 {
        return None;
    }
    let (z, j3) = match scan_scalar(s, p2) {
        Some(r) => r,
        None => { return None; },
    };
    Some((Triple { x, y, z }, j3))
}

/// Views of a sequence of byte vectors.
pub open spec fn lines_view(s: Seq<Vec<u8>>) -> Seq<Seq<u8>> {
    s.map_values(|l: Vec<u8>| l@)
}

/// Split the input into lines at each line feed, the terminators consumed.
/// `None` when bytes remain after the last terminator: a dangling partial
/// line is an incomplete input, the only lexical failure.
pub open spec fn spec_split_lines_from(s: Seq<u8>, i: int) -> Option<Seq<Seq<u8>>>
    recommends
        0 <= i <= s.len(),
    decreases s.len() - i,
        via spec_split_lines_from_decreases
{
    if i >= s.len() {
        Some(Seq::<Seq<u8>>::empty())
    } else {
        let e = line_end_from(s, i);
        if e >= s.len() {
            None
        } else {
            match spec_split_lines_from(s, e + 1) {
                None => None,
                Some(rest) => Some(seq![s.subrange(i, e)] + rest),
            }
        }
    }
}

#[via_fn]
proof fn spec_split_lines_from_decreases(s: Seq<u8>, i: int) {
    if i < s.len() {
        lemma_line_end_from(s, i);
    }
}

pub open spec fn spec_split_lines(s: Seq<u8>) -> Option<Seq<Seq<u8>>> {
    spec_split_lines_from(s, 0)
}

pub fn split_lines(s: &[u8]) -> (r: Option<Vec<Vec<u8>>>)
    ensures
        match r {
            Some(lines) => spec_split_lines(s@) == Some(lines_view(lines@)),
            None => spec_split_lines(s@) is None,
        },
{
    let mut out: Vec<Vec<u8>> = Vec::new();
    let mut i: usize = 0;
    while i < s.len()
        invariant
            i <= s@.len(),
            spec_split_lines(s@) == match spec_split_lines_from(s@, i as int) {
                None => None::<Seq<Seq<u8>>>,
                Some(rest) => Some(lines_view(out@) + rest),
            },
        decreases s@.len() - i,
    {
        let e = find_line_end(s, i);
        if e == s.len() {
            return None;
        }
        let line = copy_range(s, i, e);
        out.push(line);
        proof {
            assert(lines_view(out@) =~= lines_view(out@.drop_last()) + seq![out@.last()@]);
            assert(forall|rest: Seq<Seq<u8>>|
                lines_view(out@.drop_last()) + (seq![s@.subrange(i as int, e as int)] + rest)
                    =~= lines_view(out@) + rest);
        }
        i = e + 1;
    }
    proof {
        assert(lines_view(out@) + Seq::<Seq<u8>>::empty() =~= lines_view(out@));
    }
    Some(out)
}

impl Scalar {
    /// An owned copy with the same textual content.
    pub fn duplicate(&self) -> (r: Scalar)
        ensures
            r@ == self@,
    {
        let int_digits = copy_range(self.int_digits.as_slice(), 0, self.int_digits.len());
        let frac_digits = copy_range(self.frac_digits.as_slice(), 0, self.frac_digits.len());
        proof {
            assert(int_digits@ =~= self.int_digits@);
            assert(frac_digits@ =~= self.frac_digits@);
        }
        Scalar { neg: self.neg, int_digits, frac_digits }
    }
}

impl Triple {
    /// An owned copy with the same scalars.
    pub fn duplicate(&self) -> (r: Triple)
        ensures
            r@ == self@,
    {
        Triple { x: self.x.duplicate(), y: self.y.duplicate(), z: self.z.duplicate() }
    }
}

/// An owned copy of a byte vector.
pub fn dup_bytes(v: &Vec<u8>) -> (r: Vec<u8>)
    ensures
        r@ == v@,
{
    let r = copy_range(v.as_slice(), 0, v.len());
    proof {
        assert(r@ =~= v@);
    }
    r
}

/// Any literal text the scalar lexer accepts round-trips: re-serializing
/// the scalar it produced and scanning the result yields that same scalar,
/// with the whole re-serialized text consumed.
pub proof fn lemma_scan_render_round_trip(s: Seq<u8>, i: int)
    requires
        0 <= i <= s.len(),
        spec_scan_scalar(s, i) is Some,
    ensures
        ({
            let sc = (spec_scan_scalar(s, i)->0).0;
            spec_scan_scalar(spec_render_scalar(sc), 0) == Some(
                (sc, spec_render_scalar(sc).len() as int),
            )
        }),
{
    lemma_scan_scalar_wf(s, i);
    lemma_scalar_round_trip((spec_scan_scalar(s, i)->0).0);
}

/// Byte-wise equality of two slices.
pub fn bytes_eq(a: &[u8], b: &[u8]) -> (r: bool)
    ensures
        r == (a@ == b@),
{
    if a.len() != b.len() {
        return false;
    }
    let mut k: usize = 0;
    while k < a.len()
        invariant
            k <= a@.len(),
            a@.len() == b@.len(),
            forall|j: int| 0 <= j < k ==> a@[j] == b@[j],
        decreases a@.len() - k,
    {
        if a[k] != b[k] {
            return false;
        }
        k += 1;
    }
    proof {
        assert(a@ =~= b@);
    }
    true
}

} // verus!
