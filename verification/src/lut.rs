//! Colour look-up tables read from Adobe `.cube` files, 1D and 3D.
//!
//! A 3D table of size N holds N*N*N entries in the order of the file: red varies
//! fastest, then green, then blue. As a texture it is N wide and N*N high (N slices
//! of NxN stacked). A 1D table of size N holds N entries, one per input level,
//! applied per channel. Each entry is stored as RGBA, alpha one. The numbers are
//! kept as `Decimal` holds them.
use vstd::prelude::*;
use crate::decimal::{Decimal, NumberForm, decimal_of, all_digits, digits_value, digits_to_u64, parse_decimal, index_of_either, lemma_index_of_either};
use crate::text::{trim, words, upper_prefix, upper_char, dec_text, chars_of, slice_of, trim_chars, split_ws, starts_with_upper, push_chars, push_seq, push_dec, string_of};

verus! {

#[derive(Clone, Copy, Debug, PartialEq, Eq, Structural)]
pub enum LutKind {
    Dim1,
    Dim3,
}

/// A look-up table: its kind and size, the input domain, and the entries as RGBA.
pub struct Lut {
    pub kind: LutKind,
    pub size: usize,
    pub domain_min: [Decimal; 3],
    pub domain_max: [Decimal; 3],
    /// RGBA. For 3D: size^3 entries (red fastest, then green, then blue). For 1D:
    /// size entries.
    pub data: Vec<Decimal>,
}

pub struct LutView {
    pub kind: LutKind,
    pub size: usize,
    pub domain_min: Seq<Decimal>,
    pub domain_max: Seq<Decimal>,
    pub data: Seq<Decimal>,
}

impl View for Lut {
    type V = LutView;

    open spec fn view(&self) -> LutView {
        LutView {
            kind: self.kind,
            size: self.size,
            domain_min: self.domain_min@,
            domain_max: self.domain_max@,
            data: self.data@,
        }
    }
}

pub open spec fn dec_zero() -> Decimal {
    Decimal { negative: false, digits: 0, exponent: 0, form: NumberForm::Finite }
}

pub open spec fn dec_one() -> Decimal {
    Decimal { negative: false, digits: 1, exponent: 0, form: NumberForm::Finite }
}

/// What the lines of a file read so far give.
pub struct CubeScan {
    pub size_3d: Option<usize>,
    pub size_1d: Option<usize>,
    pub domain_min: Seq<Decimal>,
    pub domain_max: Seq<Decimal>,
    pub rows: nat,
    pub data: Seq<Decimal>,
}

pub open spec fn cube_start() -> CubeScan {
    CubeScan {
        size_3d: None,
        size_1d: None,
        domain_min: seq![dec_zero(), dec_zero(), dec_zero()],
        domain_max: seq![dec_one(), dec_one(), dec_one()],
        rows: 0,
        data: Seq::empty(),
    }
}

/// The `usize` that a word writes (`str::parse::<usize>`): an optional `+`, then
/// decimal digits, at most `usize::MAX`.
pub open spec fn usize_of(w: Seq<char>) -> Option<usize> {
    let body = if w.len() > 0 && w[0] == '+' { w.skip(1) } else { w };
    if body.len() > 0 && all_digits(body) && digits_value(body) <= usize::MAX {
        Some(digits_value(body) as usize)
    } else {
        None
    }
}

/// The size that a size line ends in.
pub open spec fn size_of_line(line: Seq<char>) -> Result<usize, Seq<char>> {
    let w = words(line);
    if w.len() > 0 && usize_of(w.last()) is Some {
        Ok(usize_of(w.last())->0)
    } else {
        Err("Cannot parse size from '"@ + line + "'"@)
    }
}

/// The three numbers after the keyword of a domain line.
pub open spec fn triplet_of_line(line: Seq<char>) -> Result<Seq<Decimal>, Seq<char>> {
    let w = words(line);
    if w.len() >= 4 {
        if decimal_of(w[1]) is Some && decimal_of(w[2]) is Some && decimal_of(w[3]) is Some {
            Ok(seq![decimal_of(w[1])->0, decimal_of(w[2])->0, decimal_of(w[3])->0])
        } else {
            Err("invalid float literal"@)
        }
    } else {
        Err("Cannot parse triplet from '"@ + line + "'"@)
    }
}

pub open spec fn bad_value(w: Seq<char>) -> Seq<char> {
    "bad value '"@ + w + "': invalid float literal"@
}

/// A data line: three numbers make an entry; a line of any other number of words
/// is passed over.
pub open spec fn row_of_line(line: Seq<char>) -> Result<Option<Seq<Decimal>>, Seq<char>> {
    let w = words(line);
    if w.len() == 3 {
        if decimal_of(w[0]) is None {
            Err(bad_value(w[0]))
        } else if decimal_of(w[1]) is None {
            Err(bad_value(w[1]))
        } else if decimal_of(w[2]) is None {
            Err(bad_value(w[2]))
        } else {
            Ok(Some(seq![decimal_of(w[0])->0, decimal_of(w[1])->0, decimal_of(w[2])->0]))
        }
    } else {
        Ok(None)
    }
}

/// The effect of one line of a `.cube` file.
pub open spec fn cube_step(st: CubeScan, raw: Seq<char>) -> Result<CubeScan, Seq<char>> {
    let l = trim(raw);
    if l.len() == 0 || l[0] == '#' {
        Ok(st)
    } else if upper_prefix(l, "TITLE"@) {
        Ok(st)
    } else if upper_prefix(l, "LUT_3D_SIZE"@) {
        match size_of_line(l) {
            Ok(n) => Ok(CubeScan { size_3d: Some(n), ..st }),
            Err(e) => Err(e),
        }
    } else if upper_prefix(l, "LUT_1D_SIZE"@) {
        match size_of_line(l) {
            Ok(n) => Ok(CubeScan { size_1d: Some(n), ..st }),
            Err(e) => Err(e),
        }
    } else if upper_prefix(l, "DOMAIN_MIN"@) {
        match triplet_of_line(l) {
            Ok(t) => Ok(CubeScan { domain_min: t, ..st }),
            Err(e) => Err(e),
        }
    } else if upper_prefix(l, "DOMAIN_MAX"@) {
        match triplet_of_line(l) {
            Ok(t) => Ok(CubeScan { domain_max: t, ..st }),
            Err(e) => Err(e),
        }
    } else {
        match row_of_line(l) {
            Ok(Some(px)) => Ok(CubeScan { rows: st.rows + 1, data: st.data + px + seq![dec_one()], ..st }),
            Ok(None) => Ok(st),
            Err(e) => Err(e),
        }
    }
}

/// The effect of the lines of `s` (split at `'\n'`), in order; the first error stops.
pub open spec fn cube_scan(st: CubeScan, s: Seq<char>) -> Result<CubeScan, Seq<char>>
    decreases s.len(),
{
    let k = index_of_either(s, '\n', '\n') as int;
    match cube_step(st, s.take(k)) {
        Err(e) => Err(e),
        Ok(next) => if k < s.len() {
            cube_scan(next, s.skip(k + 1))
        } else {
            Ok(next)
        },
    }
}

/// The table that the lines give, or why there is none.
pub open spec fn cube_finish(st: CubeScan) -> Result<LutView, Seq<char>> {
    if st.rows == 0 {
        Err("No LUT data found"@)
    } else if st.size_3d is Some {
        let n = st.size_3d->0;
        let expected = n.wrapping_mul(n).wrapping_mul(n);
        if st.rows != expected {
            Err("LUT_3D_SIZE "@ + dec_text(n as nat) + " expects "@ + dec_text(expected as nat) + " entries, found "@ + dec_text(st.rows))
        } else {
            Ok(LutView { kind: LutKind::Dim3, size: n, domain_min: st.domain_min, domain_max: st.domain_max, data: st.data })
        }
    } else if st.size_1d is Some {
        let n = st.size_1d->0;
        if st.rows != n {
            Err("LUT_1D_SIZE "@ + dec_text(n as nat) + " expects "@ + dec_text(n as nat) + " entries, found "@ + dec_text(st.rows))
        } else {
            Ok(LutView { kind: LutKind::Dim1, size: n, domain_min: st.domain_min, domain_max: st.domain_max, data: st.data })
        }
    } else {
        Err("Missing LUT_3D_SIZE / LUT_1D_SIZE"@)
    }
}

/// What `parse_cube` gives for a text.
pub open spec fn parse_cube_spec(s: Seq<char>) -> Result<LutView, Seq<char>> {
    match cube_scan(cube_start(), s) {
        Ok(st) => cube_finish(st),
        Err(e) => Err(e),
    }
}

/// The reader's state between lines.
struct CubeState {
    size_3d: Option<usize>,
    size_1d: Option<usize>,
    domain_min: [Decimal; 3],
    domain_max: [Decimal; 3],
    rows: usize,
    data: Vec<Decimal>,
}

impl CubeState {
    spec fn scan(&self) -> CubeScan {
        CubeScan {
            size_3d: self.size_3d,
            size_1d: self.size_1d,
            domain_min: self.domain_min@,
            domain_max: self.domain_max@,
            rows: self.rows as nat,
            data: self.data@,
        }
    }

    spec fn wf(&self) -> bool {
        self.data@.len() == 4 * self.rows
    }
}

fn zero() -> (r: Decimal)
    ensures
        r == dec_zero(),
{
    Decimal { negative: false, digits: 0, exponent: 0, form: NumberForm::Finite }
}

fn one() -> (r: Decimal)
    ensures
        r == dec_one(),
{
    Decimal { negative: false, digits: 1, exponent: 0, form: NumberForm::Finite }
}

/// The first `'\n'` at or after `from`, or the end.
fn line_end(s: &[char], from: usize) -> (r: usize)
    requires
        from <= s@.len(),
    ensures
        from <= r <= s@.len(),
        r - from == index_of_either(s@.skip(from as int), '\n', '\n'),
{
    let mut i = from;
    while i < s.len() && s[i] != '\n'
        invariant
            from <= i <= s@.len(),
            forall|j: int| from <= j < i ==> #[trigger] s@[j] != '\n',
        decreases s@.len() - i,
    {
        i = i + 1;
    }
    proof {
        let t = s@.skip(from as int);
        assert forall|j: int| 0 <= j < i - from implies #[trigger] t[j] != '\n' && t[j] != '\n' by {
            assert(t[j] == s@[from + j]);
        }
        if i < s@.len() {
            assert(t[i - from] == s@[i as int]);
        }
        lemma_index_of_either(t, '\n', '\n', i - from);
    }
    i
}

/// `str::parse::<usize>` over the characters of a word.
fn parse_usize_word(w: &[char]) -> (r: Option<usize>)
    ensures
        r == usize_of(w@),
{
    let body: Vec<char> = if w.len() > 0 && w[0] == '+' { slice_of(w, 1, w.len()) } else { slice_of(w, 0, w.len()) };
    proof {
        if w@.len() > 0 && w@[0] == '+' {
            assert(body@ =~= w@.skip(1));
        } else {
            assert(body@ =~= w@);
        }
    }
    if body.len() == 0 {
        return None;
    }
    match digits_to_u64(body.as_slice()) {
        Some(v) => if v <= usize::MAX as u64 {
            Some(v as usize)
        } else {
            None
        },
        None => None,
    }
}

impl Lut {
    /// The size at the end of a size line.
    fn parse_last_usize(line: &[char]) -> (r: Result<usize, String>)
        ensures
            match size_of_line(line@) {
                Ok(n) => r == Ok::<usize, String>(n),
                Err(e) => r matches Err(m) && m@ == e,
            },
    {
        let w = split_ws(line);
        if w.len() > 0 {
            match parse_usize_word(w[w.len() - 1].as_slice()) {
                Some(n) => {
                    return Ok(n);
                },
                None => {},
            }
        }
        let mut m: Vec<char> = Vec::new();
        push_chars(&mut m, "Cannot parse size from '");
        push_seq(&mut m, line);
        push_chars(&mut m, "'");
        Err(string_of(m.as_slice()))
    }

    /// The three numbers after the keyword of a domain line.
    fn parse_triplet(line: &[char]) -> (r: Result<[Decimal; 3], String>)
        ensures
            match triplet_of_line(line@) {
                Ok(t) => r matches Ok(a) && a@ == t,
                Err(e) => r matches Err(m) && m@ == e,
            },
    {
        let w = split_ws(line);
        if w.len() >= 4 {
            let a = parse_decimal(w[1].as_slice());
            let b = parse_decimal(w[2].as_slice());
            let c = parse_decimal(w[3].as_slice());
            match (a, b, c) {
                (Some(a), Some(b), Some(c)) => {
                    let t = [a, b, c];
                    assert(t@ =~= seq![a, b, c]);
                    Ok(t)
                },
                _ => {
                    let mut m: Vec<char> = Vec::new();
                    push_chars(&mut m, "invalid float literal");
                    Err(string_of(m.as_slice()))
                },
            }
        } else {
            let mut m: Vec<char> = Vec::new();
            push_chars(&mut m, "Cannot parse triplet from '");
            push_seq(&mut m, line);
            push_chars(&mut m, "'");
            Err(string_of(m.as_slice()))
        }
    }
}


impl CubeState {
    /// Reads one line of the file.
    fn read_line(&mut self, raw: &[char]) -> (r: Result<(), String>)
        requires
            old(self).wf(),
        ensures
            final(self).wf(),
            match cube_step(old(self).scan(), raw@) {
                Ok(next) => r is Ok && final(self).scan() == next,
                Err(e) => r matches Err(m) && m@ == e,
            },
    {
        let line = trim_chars(raw);
        let l = line.as_slice();
        if l.len() == 0 || l[0] == '#' {
            return Ok(());
        }
        proof {
            reveal_strlit("TITLE");
            reveal_strlit("LUT_3D_SIZE");
            reveal_strlit("LUT_1D_SIZE");
            reveal_strlit("DOMAIN_MIN");
            reveal_strlit("DOMAIN_MAX");
        }
        if starts_with_upper(l, "TITLE") {
            Ok(())
        } else if starts_with_upper(l, "LUT_3D_SIZE") {
            match Lut::parse_last_usize(l) {
                Ok(n) => {
                    self.size_3d = Some(n);
                    Ok(())
                },
                Err(e) => Err(e),
            }
        } else if starts_with_upper(l, "LUT_1D_SIZE") {
            match Lut::parse_last_usize(l) {
                Ok(n) => {
                    self.size_1d = Some(n);
                    Ok(())
                },
                Err(e) => Err(e),
            }
        } else if starts_with_upper(l, "DOMAIN_MIN") {
            match Lut::parse_triplet(l) {
                Ok(t) => {
                    self.domain_min = t;
                    Ok(())
                },
                Err(e) => Err(e),
            }
        } else if starts_with_upper(l, "DOMAIN_MAX") {
            match Lut::parse_triplet(l) {
                Ok(t) => {
                    self.domain_max = t;
                    Ok(())
                },
                Err(e) => Err(e),
            }
        } else {
            let w = split_ws(l);
            if w.len() == 3 {
                let r = parse_decimal(w[0].as_slice());
                if r.is_none() {
                    return Err(bad_value_message(w[0].as_slice()));
                }
                let g = parse_decimal(w[1].as_slice());
                if g.is_none() {
                    return Err(bad_value_message(w[1].as_slice()));
                }
                let b = parse_decimal(w[2].as_slice());
                if b.is_none() {
                    return Err(bad_value_message(w[2].as_slice()));
                }
                let ghost before = self.data@;
                self.data.push(r.unwrap());
                self.data.push(g.unwrap());
                self.data.push(b.unwrap());
                self.data.push(one());
                let len = self.data.len();
                assert(self.rows + 1 <= len);
                self.rows = self.rows + 1;
                assert(self.data@ =~= before + seq![r.unwrap(), g.unwrap(), b.unwrap()] + seq![dec_one()]);
            }
            Ok(())
        }
    }
}

fn bad_value_message(w: &[char]) -> (r: String)
    ensures
        r@ == bad_value(w@),
{
    let mut m: Vec<char> = Vec::new();
    push_chars(&mut m, "bad value '");
    push_seq(&mut m, w);
    push_chars(&mut m, "': invalid float literal");
    string_of(m.as_slice())
}

impl Lut {
    /// Reads an Adobe `.cube` file from its text.
    pub fn parse_cube(text: &str) -> (r: Result<Lut, String>)
        ensures
            match parse_cube_spec(text@) {
                Ok(v) => r matches Ok(lut) && lut@ == v,
                Err(e) => r matches Err(m) && m@ == e,
            },
    {
        let s = chars_of(text);
        let z = zero();
        let o = one();
        let mut st = CubeState {
            size_3d: None,
            size_1d: None,
            domain_min: [z, z, z],
            domain_max: [o, o, o],
            rows: 0,
            data: Vec::new(),
        };
        assert(st.scan() =~= cube_start());
        let mut start: usize = 0;
        assert(s@.skip(0) =~= s@);
        loop
            invariant_except_break
                cube_scan(cube_start(), s@) == cube_scan(st.scan(), s@.skip(start as int)),
            invariant
                start <= s@.len(),
                s@ == text@,
                st.wf(),
            ensures
                st.wf(),
                cube_scan(cube_start(), s@) == Ok::<CubeScan, Seq<char>>(st.scan()),
            decreases s@.len() - start,
        {
            let end = line_end(s.as_slice(), start);
            let line = slice_of(s.as_slice(), start, end);
            let ghost rest = s@.skip(start as int);
            let ghost before = st.scan();
            assert(cube_scan(cube_start(), s@) == cube_scan(before, rest));
            assert(rest.take(end - start) =~= line@);
            match st.read_line(line.as_slice()) {
                Ok(()) => {},
                Err(e) => {
                    assert(cube_step(before, rest.take(end - start)) == Err::<CubeScan, Seq<char>>(e@));
                    assert(cube_scan(before, rest) == Err::<CubeScan, Seq<char>>(e@));
                    return Err(e);
                },
            }
            if end == s.len() {
                break;
            }
            assert(rest.skip(end - start + 1) =~= s@.skip(end + 1));
            start = end + 1;
        }
        let rows = st.rows;
        if rows == 0 {
            let mut m: Vec<char> = Vec::new();
            push_chars(&mut m, "No LUT data found");
            return Err(string_of(m.as_slice()));
        }
        match st.size_3d {
            Some(n) => {
                let expected = n.wrapping_mul(n).wrapping_mul(n);
                if rows != expected {
                    let mut m: Vec<char> = Vec::new();
                    push_chars(&mut m, "LUT_3D_SIZE ");
                    push_dec(&mut m, n);
                    push_chars(&mut m, " expects ");
                    push_dec(&mut m, expected);
                    push_chars(&mut m, " entries, found ");
                    push_dec(&mut m, rows);
                    return Err(string_of(m.as_slice()));
                }
                Ok(Lut { kind: LutKind::Dim3, size: n, domain_min: st.domain_min, domain_max: st.domain_max, data: st.data })
            },
            None => match st.size_1d {
                Some(n) => {
                    if rows != n {
                        let mut m: Vec<char> = Vec::new();
                        push_chars(&mut m, "LUT_1D_SIZE ");
                        push_dec(&mut m, n);
                        push_chars(&mut m, " expects ");
                        push_dec(&mut m, n);
                        push_chars(&mut m, " entries, found ");
                        push_dec(&mut m, rows);
                        return Err(string_of(m.as_slice()));
                    }
                    Ok(Lut { kind: LutKind::Dim1, size: n, domain_min: st.domain_min, domain_max: st.domain_max, data: st.data })
                },
                None => {
                    let mut m: Vec<char> = Vec::new();
                    push_chars(&mut m, "Missing LUT_3D_SIZE / LUT_1D_SIZE");
                    Err(string_of(m.as_slice()))
                },
            },
        }
    }

    /// The RGBA entries, laid out for a texture `tex_width()` wide and
    /// `tex_height()` high.
    pub fn rgba_f32(&self) -> (r: &[Decimal])
        ensures
            r@ == self.data@,
    {
        self.data.as_slice()
    }

    /// The width of the table as a texture: the size for 3D, one for 1D.
    pub fn tex_width(&self) -> (r: usize)
        ensures
            r == match self.kind {
                LutKind::Dim3 => self.size,
                LutKind::Dim1 => 1,
            },
    {
        match self.kind {
            LutKind::Dim3 => self.size,
            LutKind::Dim1 => 1,
        }
    }

    /// The height of the table as a texture: the size squared for 3D (the slices
    /// stacked), the size for 1D.
    pub fn tex_height(&self) -> (r: usize)
        requires
            self.kind == LutKind::Dim3 ==> self.size * self.size <= usize::MAX,
        ensures
            r == match self.kind {
                LutKind::Dim3 => self.size * self.size,
                LutKind::Dim1 => self.size as int,
            },
    {
        match self.kind {
            LutKind::Dim3 => self.size * self.size,
            LutKind::Dim1 => self.size,
        }
    }
}


/// Every fourth entry, from the fourth on, is an alpha of one.
pub open spec fn alpha_one(d: Seq<Decimal>) -> bool {
    forall|i: int| 0 <= i < d.len() / 4 ==> #[trigger] d[4 * i + 3] == dec_one()
}

proof fn lemma_step_shape(st: CubeScan, raw: Seq<char>)
    requires
        st.data.len() == 4 * st.rows,
        alpha_one(st.data),
    ensures
        cube_step(st, raw) matches Ok(x) ==> x.data.len() == 4 * x.rows && alpha_one(x.data),
{
    match cube_step(st, raw) {
        Ok(x) => {
            if x.rows != st.rows {
                assert forall|i: int| 0 <= i < x.data.len() / 4 implies #[trigger] x.data[4 * i + 3] == dec_one() by {
                    if i < st.rows {
                        assert(x.data[4 * i + 3] == st.data[4 * i + 3]);
                    }
                }
            }
        },
        Err(_) => {},
    }
}

proof fn lemma_scan_shape(st: CubeScan, s: Seq<char>)
    requires
        st.data.len() == 4 * st.rows,
        alpha_one(st.data),
    ensures
        cube_scan(st, s) matches Ok(x) ==> x.data.len() == 4 * x.rows && alpha_one(x.data),
    decreases s.len(),
{
    let k = index_of_either(s, '\n', '\n') as int;
    lemma_step_shape(st, s.take(k));
    match cube_step(st, s.take(k)) {
        Ok(next) => {
            if k < s.len() {
                lemma_scan_shape(next, s.skip(k + 1));
            }
        },
        Err(_) => {},
    }
}

/// A table read from a file holds four numbers (RGBA) per entry, alpha one: as many
/// entries as the size for 1D, the size cubed for 3D.
pub proof fn law_cube_shape(s: Seq<char>)
    ensures
        parse_cube_spec(s) matches Ok(v) ==> {
            &&& alpha_one(v.data)
            &&& v.data.len() % 4 == 0
            &&& v.kind == LutKind::Dim1 ==> v.data.len() == 4 * v.size
            &&& v.kind == LutKind::Dim3 && v.size * v.size * v.size <= usize::MAX ==> v.data.len() == 4 * (v.size * v.size * v.size)
        },
{
    lemma_scan_shape(cube_start(), s);
    match cube_scan(cube_start(), s) {
        Ok(st) => {
            if st.rows > 0 && st.size_3d is Some {
                let n = st.size_3d->0;
                if n * n * n <= usize::MAX {
                    assert(n * n <= n * n * n) by (nonlinear_arith)
                        requires
                            n * n * n <= usize::MAX,
                            n >= 0,
                    {
                        if n > 0 {
                            assert(n * n * 1 <= n * n * n);
                        }
                    }
                    assert((n as nat * n as nat) % (usize::MAX as nat + 1) == n * n) by (nonlinear_arith)
                        requires
                            n * n <= usize::MAX,
                            n >= 0,
                    ;
                    let nn = n.wrapping_mul(n);
                    assert(nn == n * n);
                    assert((nn as nat * n as nat) % (usize::MAX as nat + 1) == n * n * n) by (nonlinear_arith)
                        requires
                            nn == n * n,
                            n * n * n <= usize::MAX,
                            n >= 0,
                    ;
                }
            }
        },
        Err(_) => {},
    }
}

/// The keyword that a trimmed line begins with, if any.
proof fn lemma_keywords_apart(l: Seq<char>)
    ensures
        upper_prefix(l, "DOMAIN_MIN"@) ==> l.len() > 0 && l[0] != '#' && !upper_prefix(l, "TITLE"@)
            && !upper_prefix(l, "LUT_3D_SIZE"@) && !upper_prefix(l, "LUT_1D_SIZE"@) && !upper_prefix(l, "DOMAIN_MAX"@),
        upper_prefix(l, "DOMAIN_MAX"@) ==> l.len() > 0 && l[0] != '#' && !upper_prefix(l, "TITLE"@)
            && !upper_prefix(l, "LUT_3D_SIZE"@) && !upper_prefix(l, "LUT_1D_SIZE"@) && !upper_prefix(l, "DOMAIN_MIN"@),
{
    reveal_strlit("TITLE");
    reveal_strlit("LUT_3D_SIZE");
    reveal_strlit("LUT_1D_SIZE");
    reveal_strlit("DOMAIN_MIN");
    reveal_strlit("DOMAIN_MAX");
    if upper_prefix(l, "DOMAIN_MIN"@) || upper_prefix(l, "DOMAIN_MAX"@) {
        assert(upper_char(l[0]) == 'D');
        assert(upper_char(l[8]) == "DOMAIN_MIN"@[8] || upper_char(l[8]) == "DOMAIN_MAX"@[8]);
        assert("TITLE"@[0] == 'T');
        assert("LUT_3D_SIZE"@[0] == 'L');
        assert("LUT_1D_SIZE"@[0] == 'L');
    }
}

/// A domain line keeps the channels in the order of its words: where `DOMAIN_MIN`
/// (or `DOMAIN_MAX`) is followed by three words that read as numbers, the lower (or
/// upper) bound of red, green and blue is the number of the first, second and third
/// word after the keyword; the other bound and the entries stay as they were.
pub proof fn law_domain_line_keeps_channel_order(st: CubeScan, raw: Seq<char>)
    requires
        upper_prefix(trim(raw), "DOMAIN_MIN"@) || upper_prefix(trim(raw), "DOMAIN_MAX"@),
        words(trim(raw)).len() >= 4,
        forall|i: int| 1 <= i <= 3 ==> decimal_of(#[trigger] words(trim(raw))[i]) is Some,
    ensures
        cube_step(st, raw) matches Ok(next) && {
            let w = words(trim(raw));
            let bound = if upper_prefix(trim(raw), "DOMAIN_MIN"@) { next.domain_min } else { next.domain_max };
            &&& bound.len() == 3
            &&& forall|i: int| 0 <= i < 3 ==> bound[i] == decimal_of(#[trigger] w[i + 1])->0
            &&& upper_prefix(trim(raw), "DOMAIN_MIN"@) ==> next.domain_max == st.domain_max
            &&& upper_prefix(trim(raw), "DOMAIN_MAX"@) ==> next.domain_min == st.domain_min
            &&& next.data == st.data
            &&& next.rows == st.rows
        },
{
    let l = trim(raw);
    lemma_keywords_apart(l);
    let w = words(l);
    assert(decimal_of(w[1]) is Some && decimal_of(w[2]) is Some && decimal_of(w[3]) is Some);
}

/// A data line keeps the channels in the order of its words: a line that is not
/// empty, not a comment and begins with no keyword, made of three words that read as
/// numbers, adds one entry, red, green and blue being the numbers of the first,
/// second and third word, with alpha one, after the entries read before.
pub proof fn law_data_line_keeps_channel_order(st: CubeScan, raw: Seq<char>)
    requires
        trim(raw).len() > 0,
        trim(raw)[0] != '#',
        !upper_prefix(trim(raw), "TITLE"@),
        !upper_prefix(trim(raw), "LUT_3D_SIZE"@),
        !upper_prefix(trim(raw), "LUT_1D_SIZE"@),
        !upper_prefix(trim(raw), "DOMAIN_MIN"@),
        !upper_prefix(trim(raw), "DOMAIN_MAX"@),
        words(trim(raw)).len() == 3,
        forall|i: int| 0 <= i < 3 ==> decimal_of(#[trigger] words(trim(raw))[i]) is Some,
    ensures
        cube_step(st, raw) matches Ok(next) && {
            let w = words(trim(raw));
            &&& next.rows == st.rows + 1
            &&& next.data.len() == st.data.len() + 4
            &&& next.data.subrange(0, st.data.len() as int) == st.data
            &&& forall|i: int| 0 <= i < 3 ==> next.data[st.data.len() + i] == decimal_of(#[trigger] w[i])->0
            &&& next.data[st.data.len() as int + 3] == dec_one()
            &&& next.domain_min == st.domain_min
            &&& next.domain_max == st.domain_max
        },
{
    let w = words(trim(raw));
    assert(decimal_of(w[0]) is Some && decimal_of(w[1]) is Some && decimal_of(w[2]) is Some);
    let next = cube_step(st, raw)->Ok_0;
    assert(next.data.subrange(0, st.data.len() as int) =~= st.data);
}

proof fn lemma_size_keywords_apart(l: Seq<char>)
    ensures
        upper_prefix(l, "LUT_3D_SIZE"@) ==> l.len() > 0 && l[0] != '#' && !upper_prefix(l, "TITLE"@),
        upper_prefix(l, "LUT_1D_SIZE"@) ==> l.len() > 0 && l[0] != '#' && !upper_prefix(l, "TITLE"@)
            && !upper_prefix(l, "LUT_3D_SIZE"@),
{
    reveal_strlit("TITLE");
    reveal_strlit("LUT_3D_SIZE");
    reveal_strlit("LUT_1D_SIZE");
    if upper_prefix(l, "LUT_3D_SIZE"@) || upper_prefix(l, "LUT_1D_SIZE"@) {
        assert(upper_char(l[0]) == 'L');
        assert("TITLE"@[0] == 'T');
        assert(upper_char(l[4]) == "LUT_3D_SIZE"@[4] || upper_char(l[4]) == "LUT_1D_SIZE"@[4]);
        assert("LUT_3D_SIZE"@[4] != "LUT_1D_SIZE"@[4]);
    }
}

/// A size line gives the table its size: the number its last word writes, as the
/// size of a 3D table for `LUT_3D_SIZE` and of a 1D table for `LUT_1D_SIZE`; the
/// entries and the domain stay as they were.
pub proof fn law_size_line_sets_size(st: CubeScan, raw: Seq<char>)
    requires
        upper_prefix(trim(raw), "LUT_3D_SIZE"@) || upper_prefix(trim(raw), "LUT_1D_SIZE"@),
        words(trim(raw)).len() > 0,
        usize_of(words(trim(raw)).last()) is Some,
    ensures
        cube_step(st, raw) matches Ok(next) && {
            let n = usize_of(words(trim(raw)).last())->0;
            &&& upper_prefix(trim(raw), "LUT_3D_SIZE"@) ==> next.size_3d == Some(n) && next.size_1d == st.size_1d
            &&& upper_prefix(trim(raw), "LUT_1D_SIZE"@) ==> next.size_1d == Some(n) && next.size_3d == st.size_3d
            &&& next.data == st.data && next.rows == st.rows
            &&& next.domain_min == st.domain_min && next.domain_max == st.domain_max
        },
{
    lemma_size_keywords_apart(trim(raw));
}

} // verus!
