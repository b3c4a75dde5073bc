//! Arithmetic captcha: a small sum or difference drawn as noisy SVG.
//!
//! `generate` draws two operands in `1..=9` and an operator, keeps the
//! difference non-negative by putting the larger operand first, and renders
//! the expression `left op right =` over random noise. The answer is stored
//! in the session (by the caller) and compared with `answer_accepted`.
//!
//! Noise coordinates are drawn in hundredths and written in decimal.
use vstd::prelude::*;
use base64::Engine;
use vstd::string::*;
use crate::common::rand::random_bytes;
use crate::text::{dec, dec_signed, digit_char, push_char, push_decimal, push_signed};

verus! {

/// A captcha: the SVG image and the expected answer.
pub struct Captcha {
    pub svg: String,
    pub answer: u8,
}

/// An integer in `lo..=hi`: four secure random bytes, read little-endian,
/// taken modulo the range size and added to `lo`.
fn draw(lo: i64, hi: i64) -> (r: i64)
    requires
        lo <= hi,
        hi - lo < 0x1_0000_0000,
        -0x1_0000_0000 <= lo,
        hi <= 0x1_0000_0000,
    ensures
        lo <= r <= hi,
{
    let b = random_bytes(4);
    let v: u64 = (b[0] as u64) + 256 * (b[1] as u64) + 65536 * (b[2] as u64) + 16777216 * (
    b[3] as u64);
    let span: u64 = (hi - lo + 1) as u64;
    let off = v % span;
    lo + off as i64
}

/// A random bit from one secure random byte.
fn draw_bool() -> (r: bool) {
    let b = random_bytes(1);
    b[0] & 1 == 0
}

/// The value of a captcha expression.
pub open spec fn eval(left: u8, op: char, right: u8) -> int {
    if op == '+' {
        left + right
    } else {
        left - right
    }
}

/// Operands, operator and answer as `generate` produces them: operands in
/// `1..=9`, `+` or `-`, the larger operand first for `-`, and the answer the
/// expression's value.
pub open spec fn well_formed_expression(left: u8, op: char, right: u8, answer: u8) -> bool {
    &&& 1 <= left <= 9
    &&& 1 <= right <= 9
    &&& op == '+' || op == '-'
    &&& op == '-' ==> left >= right
    &&& answer == eval(left, op, right)
}

/// The expression for drawn operands `a`, `b` and operator choice `plus`:
/// `a + b`, or the difference with the larger operand first. Returns
/// `(left, op, right, answer)`.
pub fn expression(a: u8, b: u8, plus: bool) -> (r: (u8, char, u8, u8))
    requires
        1 <= a <= 9,
        1 <= b <= 9,
    ensures
        well_formed_expression(r.0, r.1, r.2, r.3),
        plus ==> r == (a, '+', b, (a + b) as u8),
        !plus && a >= b ==> r == (a, '-', b, (a - b) as u8),
        !plus && a < b ==> r == (b, '-', a, (b - a) as u8),
{
    if plus {
        (a, '+', b, a + b)
    } else if a >= b {
        (a, '-', b, a - b)
    } else {
        (b, '-', a, b - a)
    }
}

/// Whether a submitted answer is accepted at time `now`: the text parses as
/// a `u8`, a stored answer exists and equals it (the stored value taken as a
/// `u8`), and the stored expiry (0 when missing) is after `now`.
pub open spec fn accepted(user_answer: Seq<char>, stored_answer: Option<i64>, stored_expiry: Option<i64>, now: i64) -> bool {
    match stored_answer {
        Some(ans) => match parse_u8_spec(user_answer) {
            Some(u) => u == ans as u8 && (match stored_expiry {
                Some(e) => e,
                None => 0,
            }) > now,
            None => false,
        },
        None => false,
    }
}

/// Nonempty all-digit text of value at most 255, as that value.
pub open spec fn digits_u8(body: Seq<char>) -> Option<u8> {
    if body.len() > 0 && (forall|i: int| 0 <= i < body.len() ==> '0' <= #[trigger] body[i] && body[i]
        <= '9') && digits_value(body) <= 255 {
        Some(digits_value(body) as u8)
    } else {
        None
    }
}

/// `s` without a leading `+`.
pub open spec fn strip_plus(s: Seq<char>) -> Seq<char> {
    if s.len() > 0 && s[0] == '+' {
        s.drop_first()
    } else {
        s
    }
}

/// Decimal `u8` text as `str::parse::<u8>` accepts it: an optional `+`, then
/// one or more ASCII digits, with a value of at most 255.
pub open spec fn parse_u8_spec(s: Seq<char>) -> Option<u8> {
    digits_u8(strip_plus(s))
}

/// The value of a string of decimal digits.
pub open spec fn digits_value(s: Seq<char>) -> nat
    decreases s.len(),
{
    if s.len() == 0 {
        0
    } else {
        digits_value(s.drop_last()) * 10 + ((s.last() as int) - 48) as nat
    }
}

/// Parses a `u8` the way `str::parse::<u8>` does.
pub fn parse_u8(s: &str) -> (r: Option<u8>)
    ensures
        r == parse_u8_spec(s@),
{
    let cs = crate::text::chars_of(s);
    let mut body: Vec<char> = Vec::new();
    let start: usize = if cs.len() > 0 && cs[0] == '+' {
        1
    } else {
        0
    };
    let mut k: usize = start;
    while k < cs.len()
        invariant
            start <= k <= cs@.len(),
            body@ == cs@.subrange(start as int, k as int),
        decreases cs.len() - k,
    {
        body.push(cs[k]);
        k += 1;
        assert(body@ =~= cs@.subrange(start as int, k as int));
    }
    assert(body@ =~= strip_plus(s@));
    parse_digits_u8(&body)
}

/// The value of nonempty all-digit text when it is at most 255.
fn parse_digits_u8(body: &[char]) -> (r: Option<u8>)
    ensures
        r == digits_u8(body@),
{
    if body.len() == 0 {
        return None;
    }
    let mut acc: u64 = 0;
    let mut i: usize = 0;
    let mut over = false;
    while i < body.len()
        invariant
            i <= body@.len(),
            forall|k: int| 0 <= k < i ==> '0' <= #[trigger] body@[k] && body@[k] <= '9',
            !over ==> acc == digits_value(body@.subrange(0, i as int)) && acc <= 255,
            over ==> digits_value(body@.subrange(0, i as int)) > 255,
        decreases body.len() - i,
    {
        let c = body[i];
        if !(c >= '0' && c <= '9') {
            return None;
        }
        let ghost pre = body@.subrange(0, i as int);
        let ghost nxt = body@.subrange(0, i + 1);
        assert(nxt.drop_last() =~= pre);
        if !over {
            let d = (c as u32 - 48) as u64;
            if acc * 10 + d > 255 {
                over = true;
            } else {
                acc = acc * 10 + d;
            }
        } else {
            assert(digits_value(nxt) >= digits_value(pre)) by (nonlinear_arith)
                requires
                    digits_value(nxt) == digits_value(pre) * 10 + ((nxt.last() as int) - 48) as nat,
            ;
        }
        i += 1;
    }
    assert(body@.subrange(0, body@.len() as int) =~= body@);
    if over {
        None
    } else {
        Some(acc as u8)
    }
}

/// Checks a submitted captcha answer against the stored one (see `accepted`).
pub fn answer_accepted(user_answer: &str, stored_answer: Option<i64>, stored_expiry: Option<i64>, now: i64) -> (r: bool)
    ensures
        r == accepted(user_answer@, stored_answer, stored_expiry, now),
{
    match stored_answer {
        Some(ans) => match parse_u8(user_answer) {
            Some(u) => {
                let expiry = match stored_expiry {
                    Some(e) => e,
                    None => 0,
                };
                u == ans as u8 && expiry > now
            },
            None => false,
        },
        None => false,
    }
}

// ── SVG markup ──────────────────────────────────────────────────────────

/// A length in hundredths written in decimal: the sign, the whole part, and
/// the fraction's digits without trailing zeros (`1650` is `16.5`).
#[verifier::opaque]
pub open spec fn fixed(v: int) -> Seq<char> {
    let a = if v < 0 {
        -v
    } else {
        v
    };
    let sign = if v < 0 {
        seq!['-']
    } else {
        Seq::<char>::empty()
    };
    let f = a % 100;
    let frac = if f == 0 {
        Seq::<char>::empty()
    } else if f % 10 == 0 {
        seq!['.', digit_char((f / 10) as nat)]
    } else {
        seq!['.', digit_char((f / 10) as nat), digit_char((f % 10) as nat)]
    };
    sign + dec((a / 100) as nat) + frac
}

/// Appends a length given in hundredths (see `fixed`).
fn push_fixed(s: &mut String, v: i64)
    requires
        -1_000_000 <= v <= 1_000_000,
    ensures
        final(s)@ == old(s)@ + fixed(v as int),
{
    reveal(fixed);
    let a: i64 = if v < 0 {
        -v
    } else {
        v
    };
    if v < 0 {
        push_char(s, '-');
    }
    push_decimal(s, (a / 100) as u64);
    let f = a % 100;
    if f != 0 {
        push_char(s, '.');
        push_char(s, ((f / 10) as u8 + 48) as char);
        if f % 10 != 0 {
            push_char(s, ((f % 10) as u8 + 48) as char);
        }
    }
    assert(s@ =~= old(s)@ + fixed(v as int));
}

/// A noise line: `x1, y1, x2, y2, stroke width, opacity` in hundredths.
pub type NoiseLine = (int, int, int, int, int, int);

/// A line without styling: `x1, y1, x2, y2` in hundredths.
pub type Segment = (int, int, int, int);

/// A circle: `x, y, r` in hundredths.
pub type Dot = (int, int, int);

/// A faint decoy digit: the digit, then `x, y, font size, rotation` in hundredths.
pub type Decoy = (int, int, int, int, int);

/// One expression glyph: `x offset, font size, rotation, vertical shift` in hundredths.
pub type Glyph = (int, int, int, int);

/// A colour: hue, saturation and lightness.
pub type Hsl = (int, int, int);

/// Everything random about a captcha image besides the expression.
pub struct Noise {
    pub lines: Seq<NoiseLine>,
    pub faint_lines: Seq<Segment>,
    pub dots: Seq<Dot>,
    pub decoys: Seq<Decoy>,
    pub glyphs: Seq<Glyph>,
    pub colors: Seq<Hsl>,
    pub blobs: Seq<Dot>,
    pub strokes: Seq<Segment>,
}

/// `lo <= v <= hi`.
pub open spec fn within(v: int, lo: int, hi: int) -> bool {
    lo <= v <= hi
}

/// Five noise lines across the whole image.
pub open spec fn lines_ok(s: Seq<NoiseLine>) -> bool {
    &&& s.len() == 5
    &&& forall|i: int| 0 <= i < s.len() ==> line_ok(#[trigger] s[i])
}

/// A noise line within its drawing ranges.
pub open spec fn line_ok(l: NoiseLine) -> bool {
    within(l.0, 0, 16000) && within(l.1, 500, 3500) && within(l.2 - l.0, -6000, 6000) && within(
        l.3 - l.1,
        -2500,
        2500,
    ) && within(l.4, 30, 80) && within(l.5, 15, 35)
}

/// A faint line within its drawing ranges (around the expression).
pub open spec fn faint_ok(l: Segment) -> bool {
    within(l.0, 1500, 11000) && within(l.1, 800, 3200) && within(l.2 - l.0, -3000, 3000) && within(
        l.3 - l.1,
        -1500,
        1500,
    )
}

/// A dot within its drawing ranges.
pub open spec fn dot_ok(d: Dot) -> bool {
    within(d.0, 800, 15200) && within(d.1, 600, 3400) && within(d.2, 30, 150)
}

/// A decoy digit within its drawing ranges.
pub open spec fn decoy_ok(d: Decoy) -> bool {
    within(d.0, 0, 9) && within(d.1, 800, 15200) && within(d.2, 800, 3400) && within(d.3, 600, 1000)
        && within(d.4, -3000, 3000)
}

/// An expression glyph within its ranges.
pub open spec fn glyph_ok(g: Glyph) -> bool {
    within(g.0, -400, 400) && within(g.1, 1600, 2000) && within(g.2, -2000, 2000) && within(
        g.3,
        -400,
        400,
    )
}

/// An operand colour within its ranges (blue to violet, mid saturation, dark).
pub open spec fn color_ok(c: Hsl) -> bool {
    within(c.0, 200, 260) && within(c.1, 45, 65) && within(c.2, 25, 40)
}

/// A blob over the expression within its ranges.
pub open spec fn blob_ok(d: Dot) -> bool {
    within(d.0, 1500, 11000) && within(d.1, 800, 3200) && within(d.2, 80, 250)
}

/// A stroke over the expression within its ranges.
pub open spec fn stroke_ok(l: Segment) -> bool {
    within(l.0, 1500, 11000) && within(l.1, 800, 3200) && within(l.2 - l.0, -1000, 1000) && within(
        l.3 - l.1,
        -400,
        400,
    )
}

/// The noise lies where `render_svg` draws it, with the number of elements
/// of each kind that the image has.
pub open spec fn noise_in_range(n: Noise) -> bool {
    &&& lines_ok(n.lines)
    &&& n.faint_lines.len() == 4 && forall|i: int| 0 <= i < 4 ==> faint_ok(#[trigger] n.faint_lines[i])
    &&& n.dots.len() == 25 && forall|i: int| 0 <= i < 25 ==> dot_ok(#[trigger] n.dots[i])
    &&& n.decoys.len() == 4 && forall|i: int| 0 <= i < 4 ==> decoy_ok(#[trigger] n.decoys[i])
    &&& n.glyphs.len() == 3 && forall|i: int| 0 <= i < 3 ==> glyph_ok(#[trigger] n.glyphs[i])
    &&& n.colors.len() == 2 && forall|i: int| 0 <= i < 2 ==> color_ok(#[trigger] n.colors[i])
    &&& n.blobs.len() == 8 && forall|i: int| 0 <= i < 8 ==> blob_ok(#[trigger] n.blobs[i])
    &&& n.strokes.len() == 5 && forall|i: int| 0 <= i < 5 ==> stroke_ok(#[trigger] n.strokes[i])
}

/// The opening of the image and its background: the `svg` element
/// (160 × 40), a rounded rectangle and two faint grid lines.
pub open spec fn svg_head() -> Seq<char> {
    "<svg xmlns=\"http://www.w3.org/2000/svg\" viewBox=\"0 0 160 40\" width=\"160\" height=\"40\">"@
        + "<rect width=\"160\" height=\"40\" rx=\"4\" fill=\"#fafbfc\"/>"@
        + "<line x1=\"53\" y1=\"2\" x2=\"53\" y2=\"40\" stroke=\"#e9ecef\" stroke-width=\"0.5\"/>"@
        + "<line x1=\"106\" y1=\"2\" x2=\"106\" y2=\"40\" stroke=\"#e9ecef\" stroke-width=\"0.5\"/>"@
}

/// The start of a line element, up to its end points.
pub open spec fn line_start(x1: int, y1: int, x2: int, y2: int) -> Seq<char> {
    "<line x1=\""@ + fixed(x1) + "\" y1=\""@ + fixed(y1) + "\" x2=\""@ + fixed(x2) + "\" y2=\""@
        + fixed(y2)
}

/// A noise line.
pub open spec fn noise_line(l: NoiseLine) -> Seq<char> {
    line_start(l.0, l.1, l.2, l.3) + "\" stroke=\"#adb5bd\" stroke-width=\""@ + fixed(l.4)
        + "\" opacity=\""@ + fixed(l.5) + "\"/>"@
}

/// A faint line.
pub open spec fn faint_line(l: Segment) -> Seq<char> {
    line_start(l.0, l.1, l.2, l.3) + "\" stroke=\"#adb5bd\" stroke-width=\"0.6\" opacity=\"0.35\"/>"@
}

/// A round stroke over the expression.
pub open spec fn stroke_line(l: Segment) -> Seq<char> {
    line_start(l.0, l.1, l.2, l.3)
        + "\" stroke=\"#6c757d\" stroke-width=\"1.4\" stroke-linecap=\"round\" opacity=\"0.40\"/>"@
}

/// A grey circle with the given opacity text.
pub open spec fn circle(d: Dot, opacity: Seq<char>) -> Seq<char> {
    "<circle cx=\""@ + fixed(d.0) + "\" cy=\""@ + fixed(d.1) + "\" r=\""@ + fixed(d.2)
        + "\" fill=\"#6c757d\" opacity=\""@ + opacity + "\"/>"@
}

/// A faint decoy digit.
pub open spec fn decoy_text(d: Decoy) -> Seq<char> {
    "<text x=\""@ + fixed(d.1) + "\" y=\""@ + fixed(d.2) + "\" font-size=\""@ + fixed(d.3)
        + "\" font-family=\"Courier,monospace\" fill=\"#ced4da\" text-anchor=\"middle\" transform=\"rotate("@
        + fixed(d.4) + " "@ + fixed(d.1) + " "@ + fixed(d.2) + ")\">"@ + dec(d.0 as nat)
        + "</text>"@
}

/// An `hsl(h, s%, l%)` colour.
pub open spec fn hsl(c: Hsl) -> Seq<char> {
    "hsl("@ + dec_signed(c.0) + ", "@ + dec_signed(c.1) + "%, "@ + dec_signed(c.2) + "%)"@
}

/// One expression glyph, centred near `base_x` on the baseline y = 26.
pub open spec fn glyph(base_x: int, g: Glyph, fill: Seq<char>, content: Seq<char>) -> Seq<char> {
    let x = base_x + g.0;
    "<text x=\""@ + fixed(x) + "\" y=\"26\" dy=\""@ + fixed(g.3) + "\" font-size=\""@ + fixed(g.1)
        + "\" font-family=\"Courier,monospace\" font-weight=\"bold\" fill=\""@ + fill
        + "\" text-anchor=\"middle\" transform=\"rotate("@ + fixed(g.2) + " "@ + fixed(x)
        + " 26)\">"@ + content + "</text>"@
}

/// The fixed equals sign after the expression.
pub open spec fn equals_text() -> Seq<char> {
    "<text x=\"130\" y=\"26\" font-size=\"18\" font-family=\"Courier,monospace\" font-weight=\"bold\" fill=\"#495057\" text-anchor=\"middle\">=</text>"@
}

/// The markup of a sequence of noise lines.
pub open spec fn lines_markup(s: Seq<NoiseLine>) -> Seq<char>
    decreases s.len(),
{
    if s.len() == 0 {
        Seq::<char>::empty()
    } else {
        lines_markup(s.drop_last()) + noise_line(s.last())
    }
}

/// The markup of a sequence of faint lines.
pub open spec fn faint_markup(s: Seq<Segment>) -> Seq<char>
    decreases s.len(),
{
    if s.len() == 0 {
        Seq::<char>::empty()
    } else {
        faint_markup(s.drop_last()) + faint_line(s.last())
    }
}

/// The markup of a sequence of strokes.
pub open spec fn strokes_markup(s: Seq<Segment>) -> Seq<char>
    decreases s.len(),
{
    if s.len() == 0 {
        Seq::<char>::empty()
    } else {
        strokes_markup(s.drop_last()) + stroke_line(s.last())
    }
}

/// The markup of a sequence of circles with one opacity.
pub open spec fn circles_markup(s: Seq<Dot>, opacity: Seq<char>) -> Seq<char>
    decreases s.len(),
{
    if s.len() == 0 {
        Seq::<char>::empty()
    } else {
        circles_markup(s.drop_last(), opacity) + circle(s.last(), opacity)
    }
}

/// The markup of a sequence of decoy digits.
pub open spec fn decoys_markup(s: Seq<Decoy>) -> Seq<char>
    decreases s.len(),
{
    if s.len() == 0 {
        Seq::<char>::empty()
    } else {
        decoys_markup(s.drop_last()) + decoy_text(s.last())
    }
}

/// The three expression glyphs: left operand, operator (red), right operand.
pub open spec fn expression_markup(left: u8, op: char, right: u8, glyphs: Seq<Glyph>, colors: Seq<Hsl>) -> Seq<char> {
    glyph(2200, glyphs[0], hsl(colors[0]), dec(left as nat)) + glyph(
        5800,
        glyphs[1],
        "#e03131"@,
        seq![op],
    ) + glyph(9200, glyphs[2], hsl(colors[1]), dec(right as nat))
}

/// The expression glyphs of an image.
pub open spec fn expression_texts(left: u8, op: char, right: u8, n: Noise) -> Seq<char> {
    expression_markup(left, op, right, n.glyphs, n.colors)
}

/// The whole image: background, noise lines, faint lines, dots, decoy
/// digits, then the expression and `=`, then blobs and strokes over it.
pub open spec fn captcha_svg(left: u8, op: char, right: u8, n: Noise) -> Seq<char> {
    svg_head() + lines_markup(n.lines) + faint_markup(n.faint_lines) + circles_markup(
        n.dots,
        "0.25"@,
    ) + decoys_markup(n.decoys) + expression_texts(left, op, right, n) + equals_text()
        + circles_markup(n.blobs, "0.45"@) + strokes_markup(n.strokes) + "</svg>"@
}

/// Appends the start of a line element.
fn push_line_start(s: &mut String, x1: i64, y1: i64, x2: i64, y2: i64)
    requires
        -1_000_000 <= x1 <= 1_000_000,
        -1_000_000 <= y1 <= 1_000_000,
        -1_000_000 <= x2 <= 1_000_000,
        -1_000_000 <= y2 <= 1_000_000,
    ensures
        final(s)@ == old(s)@ + line_start(x1 as int, y1 as int, x2 as int, y2 as int),
{
    s.append("<line x1=\"");
    push_fixed(s, x1);
    s.append("\" y1=\"");
    push_fixed(s, y1);
    s.append("\" x2=\"");
    push_fixed(s, x2);
    s.append("\" y2=\"");
    push_fixed(s, y2);
    assert(s@ =~= old(s)@ + line_start(x1 as int, y1 as int, x2 as int, y2 as int));
}

/// Appends a circle.
fn push_circle(s: &mut String, x: i64, y: i64, r: i64, opacity: &str)
    requires
        -1_000_000 <= x <= 1_000_000,
        -1_000_000 <= y <= 1_000_000,
        -1_000_000 <= r <= 1_000_000,
    ensures
        final(s)@ == old(s)@ + circle((x as int, y as int, r as int), opacity@),
{
    s.append("<circle cx=\"");
    push_fixed(s, x);
    s.append("\" cy=\"");
    push_fixed(s, y);
    s.append("\" r=\"");
    push_fixed(s, r);
    s.append("\" fill=\"#6c757d\" opacity=\"");
    s.append(opacity);
    s.append("\"/>");
    assert(s@ =~= old(s)@ + circle((x as int, y as int, r as int), opacity@));
}

/// Appends an `hsl(..)` colour.
fn push_hsl(s: &mut String, h: i64, sat: i64, l: i64)
    ensures
        final(s)@ == old(s)@ + hsl((h as int, sat as int, l as int)),
{
    s.append("hsl(");
    push_signed(s, h);
    s.append(", ");
    push_signed(s, sat);
    s.append("%, ");
    push_signed(s, l);
    s.append("%)");
    assert(s@ =~= old(s)@ + hsl((h as int, sat as int, l as int)));
}

/// Appends one expression glyph.
fn push_glyph(s: &mut String, base_x: i64, g: (i64, i64, i64, i64), fill: &str, content: &str)
    requires
        -400 <= g.0 <= 400,
        0 <= base_x <= 10000,
        -1_000_000 <= g.1 <= 1_000_000,
        -1_000_000 <= g.2 <= 1_000_000,
        -1_000_000 <= g.3 <= 1_000_000,
    ensures
        final(s)@ == old(s)@ + glyph(
            base_x as int,
            (g.0 as int, g.1 as int, g.2 as int, g.3 as int),
            fill@,
            content@,
        ),
{
    let x = base_x + g.0;
    s.append("<text x=\"");
    push_fixed(s, x);
    s.append("\" y=\"26\" dy=\"");
    push_fixed(s, g.3);
    s.append("\" font-size=\"");
    push_fixed(s, g.1);
    s.append("\" font-family=\"Courier,monospace\" font-weight=\"bold\" fill=\"");
    s.append(fill);
    s.append("\" text-anchor=\"middle\" transform=\"rotate(");
    push_fixed(s, g.2);
    s.append(" ");
    push_fixed(s, x);
    s.append(" 26)\">");
    s.append(content);
    s.append("</text>");
    assert(s@ =~= old(s)@ + glyph(
        base_x as int,
        (g.0 as int, g.1 as int, g.2 as int, g.3 as int),
        fill@,
        content@,
    ));
}

/// Appends one noise line.
fn push_noise_line(buf: &mut String, lx: i64, ly: i64, lx2: i64, ly2: i64, sw: i64, op: i64)
    requires
        -1_000_000 <= lx <= 1_000_000,
        -1_000_000 <= ly <= 1_000_000,
        -1_000_000 <= lx2 <= 1_000_000,
        -1_000_000 <= ly2 <= 1_000_000,
        -1_000_000 <= sw <= 1_000_000,
        -1_000_000 <= op <= 1_000_000,
    ensures
        final(buf)@ == old(buf)@ + noise_line(
            (lx as int, ly as int, lx2 as int, ly2 as int, sw as int, op as int),
        ),
{
    push_line_start(buf, lx, ly, lx2, ly2);
    buf.append("\" stroke=\"#adb5bd\" stroke-width=\"");
    push_fixed(buf, sw);
    buf.append("\" opacity=\"");
    push_fixed(buf, op);
    buf.append("\"/>");
    assert(buf@ =~= old(buf)@ + noise_line(
        (lx as int, ly as int, lx2 as int, ly2 as int, sw as int, op as int),
    ));
}

/// Appends one decoy digit.
#[verifier::rlimit(50)]
fn push_decoy(buf: &mut String, fd: i64, fx: i64, fy: i64, fs: i64, fr: i64)
    requires
        0 <= fd <= 9,
        -1_000_000 <= fx <= 1_000_000,
        -1_000_000 <= fy <= 1_000_000,
        -1_000_000 <= fs <= 1_000_000,
        -1_000_000 <= fr <= 1_000_000,
    ensures
        final(buf)@ == old(buf)@ + decoy_text((fd as int, fx as int, fy as int, fs as int, fr as int)),
{
    buf.append("<text x=\"");
    push_fixed(buf, fx);
    buf.append("\" y=\"");
    push_fixed(buf, fy);
    buf.append("\" font-size=\"");
    push_fixed(buf, fs);
    buf.append(
        "\" font-family=\"Courier,monospace\" fill=\"#ced4da\" text-anchor=\"middle\" transform=\"rotate(",
    );
    let ghost mid = buf@;
    assert(mid =~= old(buf)@ + "<text x=\""@ + fixed(fx as int) + "\" y=\""@ + fixed(fy as int)
        + "\" font-size=\""@ + fixed(fs as int)
        + "\" font-family=\"Courier,monospace\" fill=\"#ced4da\" text-anchor=\"middle\" transform=\"rotate("@);
    push_fixed(buf, fr);
    buf.append(" ");
    push_fixed(buf, fx);
    buf.append(" ");
    push_fixed(buf, fy);
    buf.append(")\">");
    push_decimal(buf, fd as u64);
    buf.append("</text>");
    assert(buf@ =~= old(buf)@ + decoy_text((fd as int, fx as int, fy as int, fs as int, fr as int)));
}

/// Appends five noise lines.
fn push_noise_lines(buf: &mut String) -> (g: Ghost<Seq<NoiseLine>>)
    ensures
        lines_ok(g@),
        final(buf)@ == old(buf)@ + lines_markup(g@),
{
    let ghost mut lines: Seq<NoiseLine> = Seq::empty();
    let ghost start = buf@;
    let mut k: usize = 0;
    while k < 5
        invariant
            k <= 5,
            lines.len() == k,
            forall|i: int| 0 <= i < k ==> line_ok(#[trigger] lines[i]),
            buf@ == start + lines_markup(lines),
        decreases 5 - k,
    {
        let lx = draw(0, 16000);
        let ly = draw(500, 3500);
        let lx2 = lx + draw(-6000, 6000);
        let ly2 = ly + draw(-2500, 2500);
        let sw = draw(30, 80);
        let op = draw(15, 35);
        push_noise_line(buf, lx, ly, lx2, ly2, sw, op);
        let ghost l: NoiseLine = (lx as int, ly as int, lx2 as int, ly2 as int, sw as int, op as int);
        proof {
            assert(lines.push(l).drop_last() =~= lines);
            lines = lines.push(l);
        }
        k += 1;
    }
    Ghost(lines)
}

/// Appends four faint lines.
fn push_faint_lines(buf: &mut String) -> (g: Ghost<Seq<Segment>>)
    ensures
        g@.len() == 4,
        forall|i: int| 0 <= i < 4 ==> faint_ok(#[trigger] g@[i]),
        final(buf)@ == old(buf)@ + faint_markup(g@),
{
    let ghost mut faint: Seq<Segment> = Seq::empty();
    let ghost start = buf@;
    let mut k: usize = 0;
    while k < 4
        invariant
            k <= 4,
            faint.len() == k,
            forall|i: int| 0 <= i < k ==> faint_ok(#[trigger] faint[i]),
            buf@ == start + faint_markup(faint),
        decreases 4 - k,
    {
        let lx = draw(1500, 11000);
        let ly = draw(800, 3200);
        let lx2 = lx + draw(-3000, 3000);
        let ly2 = ly + draw(-1500, 1500);
        let ghost before = buf@;
        push_line_start(buf, lx, ly, lx2, ly2);
        buf.append("\" stroke=\"#adb5bd\" stroke-width=\"0.6\" opacity=\"0.35\"/>");
        let ghost l: Segment = (lx as int, ly as int, lx2 as int, ly2 as int);
        assert(buf@ =~= before + faint_line(l));
        proof {
            assert(faint.push(l).drop_last() =~= faint);
            faint = faint.push(l);
        }
        k += 1;
    }
    Ghost(faint)
}

/// Appends twenty-five dots.
fn push_dots(buf: &mut String) -> (g: Ghost<Seq<Dot>>)
    ensures
        g@.len() == 25,
        forall|i: int| 0 <= i < 25 ==> dot_ok(#[trigger] g@[i]),
        final(buf)@ == old(buf)@ + circles_markup(g@, "0.25"@),
{
    let ghost mut dots: Seq<Dot> = Seq::empty();
    let ghost start = buf@;
    let mut k: usize = 0;
    while k < 25
        invariant
            k <= 25,
            dots.len() == k,
            forall|i: int| 0 <= i < k ==> dot_ok(#[trigger] dots[i]),
            buf@ == start + circles_markup(dots, "0.25"@),
        decreases 25 - k,
    {
        let dx = draw(800, 15200);
        let dy = draw(600, 3400);
        let dr = draw(30, 150);
        push_circle(buf, dx, dy, dr, "0.25");
        let ghost d: Dot = (dx as int, dy as int, dr as int);
        proof {
            assert(dots.push(d).drop_last() =~= dots);
            dots = dots.push(d);
        }
        k += 1;
    }
    Ghost(dots)
}

/// Appends four decoy digits.
fn push_decoys(buf: &mut String) -> (g: Ghost<Seq<Decoy>>)
    ensures
        g@.len() == 4,
        forall|i: int| 0 <= i < 4 ==> decoy_ok(#[trigger] g@[i]),
        final(buf)@ == old(buf)@ + decoys_markup(g@),
{
    let ghost mut decoys: Seq<Decoy> = Seq::empty();
    let ghost start = buf@;
    let mut k: usize = 0;
    while k < 4
        invariant
            k <= 4,
            decoys.len() == k,
            forall|i: int| 0 <= i < k ==> decoy_ok(#[trigger] decoys[i]),
            buf@ == start + decoys_markup(decoys),
        decreases 4 - k,
    {
        let fd = draw(0, 9);
        let fx = draw(800, 15200);
        let fy = draw(800, 3400);
        let fs = draw(600, 1000);
        let fr = draw(-3000, 3000);
        push_decoy(buf, fd, fx, fy, fs, fr);
        let ghost d: Decoy = (fd as int, fx as int, fy as int, fs as int, fr as int);
        proof {
            assert(decoys.push(d).drop_last() =~= decoys);
            decoys = decoys.push(d);
        }
        k += 1;
    }
    Ghost(decoys)
}

/// Appends eight blobs over the expression.
fn push_blobs(buf: &mut String) -> (g: Ghost<Seq<Dot>>)
    ensures
        g@.len() == 8,
        forall|i: int| 0 <= i < 8 ==> blob_ok(#[trigger] g@[i]),
        final(buf)@ == old(buf)@ + circles_markup(g@, "0.45"@),
{
    let ghost mut blobs: Seq<Dot> = Seq::empty();
    let ghost start = buf@;
    let mut k: usize = 0;
    while k < 8
        invariant
            k <= 8,
            blobs.len() == k,
            forall|i: int| 0 <= i < k ==> blob_ok(#[trigger] blobs[i]),
            buf@ == start + circles_markup(blobs, "0.45"@),
        decreases 8 - k,
    {
        let ox = draw(1500, 11000);
        let oy = draw(800, 3200);
        let or_ = draw(80, 250);
        push_circle(buf, ox, oy, or_, "0.45");
        let ghost d: Dot = (ox as int, oy as int, or_ as int);
        proof {
            assert(blobs.push(d).drop_last() =~= blobs);
            blobs = blobs.push(d);
        }
        k += 1;
    }
    Ghost(blobs)
}

/// Appends five strokes over the expression.
fn push_strokes(buf: &mut String) -> (g: Ghost<Seq<Segment>>)
    ensures
        g@.len() == 5,
        forall|i: int| 0 <= i < 5 ==> stroke_ok(#[trigger] g@[i]),
        final(buf)@ == old(buf)@ + strokes_markup(g@),
{
    let ghost mut strokes: Seq<Segment> = Seq::empty();
    let ghost start = buf@;
    let mut k: usize = 0;
    while k < 5
        invariant
            k <= 5,
            strokes.len() == k,
            forall|i: int| 0 <= i < k ==> stroke_ok(#[trigger] strokes[i]),
            buf@ == start + strokes_markup(strokes),
        decreases 5 - k,
    {
        let ox = draw(1500, 11000);
        let oy = draw(800, 3200);
        let ox2 = ox + draw(-1000, 1000);
        let oy2 = oy + draw(-400, 400);
        let ghost before = buf@;
        push_line_start(buf, ox, oy, ox2, oy2);
        buf.append(
            "\" stroke=\"#6c757d\" stroke-width=\"1.4\" stroke-linecap=\"round\" opacity=\"0.40\"/>",
        );
        let ghost l: Segment = (ox as int, oy as int, ox2 as int, oy2 as int);
        assert(buf@ =~= before + stroke_line(l));
        proof {
            assert(strokes.push(l).drop_last() =~= strokes);
            strokes = strokes.push(l);
        }
        k += 1;
    }
    Ghost(strokes)
}

/// A glyph's random placement.
fn draw_glyph() -> (g: (i64, i64, i64, i64))
    ensures
        glyph_ok((g.0 as int, g.1 as int, g.2 as int, g.3 as int)),
{
    (draw(-400, 400), draw(1600, 2000), draw(-2000, 2000), draw(-400, 400))
}

/// An operand colour.
fn draw_color() -> (c: (i64, i64, i64))
    ensures
        color_ok((c.0 as int, c.1 as int, c.2 as int)),
{
    (draw(200, 260), draw(45, 65), draw(25, 40))
}

/// Appends the expression glyphs and `=`.
fn push_expression(buf: &mut String, left: u8, op: char, right: u8) -> (g: Ghost<(Seq<Glyph>, Seq<Hsl>)>)
    ensures
        g@.0.len() == 3,
        forall|i: int| 0 <= i < 3 ==> glyph_ok(#[trigger] g@.0[i]),
        g@.1.len() == 2,
        forall|i: int| 0 <= i < 2 ==> color_ok(#[trigger] g@.1[i]),
        final(buf)@ == old(buf)@ + expression_markup(left, op, right, g@.0, g@.1),
{
    let g1 = draw_glyph();
    let g2 = draw_glyph();
    let g3 = draw_glyph();
    let c1 = draw_color();
    let c2 = draw_color();
    let mut fill1 = String::new();
    push_hsl(&mut fill1, c1.0, c1.1, c1.2);
    let mut fill2 = String::new();
    push_hsl(&mut fill2, c2.0, c2.1, c2.2);
    let mut left_s = String::new();
    push_decimal(&mut left_s, left as u64);
    let mut right_s = String::new();
    push_decimal(&mut right_s, right as u64);
    let mut op_s = String::new();
    push_char(&mut op_s, op);
    assert(fill1@ =~= hsl((c1.0 as int, c1.1 as int, c1.2 as int)));
    assert(fill2@ =~= hsl((c2.0 as int, c2.1 as int, c2.2 as int)));
    assert(left_s@ =~= dec(left as nat));
    assert(right_s@ =~= dec(right as nat));
    assert(op_s@ =~= seq![op]);
    let ghost start = buf@;
    push_glyph(buf, 2200, g1, fill1.as_str(), left_s.as_str());
    push_glyph(buf, 5800, g2, "#e03131", op_s.as_str());
    push_glyph(buf, 9200, g3, fill2.as_str(), right_s.as_str());
    let ghost glyphs: Seq<Glyph> = seq![
        (g1.0 as int, g1.1 as int, g1.2 as int, g1.3 as int),
        (g2.0 as int, g2.1 as int, g2.2 as int, g2.3 as int),
        (g3.0 as int, g3.1 as int, g3.2 as int, g3.3 as int),
    ];
    let ghost colors: Seq<Hsl> = seq![
        (c1.0 as int, c1.1 as int, c1.2 as int),
        (c2.0 as int, c2.1 as int, c2.2 as int),
    ];
    assert forall|i: int| 0 <= i < 3 implies glyph_ok(#[trigger] glyphs[i]) by {}
    assert forall|i: int| 0 <= i < 2 implies color_ok(#[trigger] colors[i]) by {}
    assert(buf@ =~= start + expression_markup(left, op, right, glyphs, colors));
    Ghost((glyphs, colors))
}

/// Renders the captcha image for an expression, drawing fresh noise.
fn render_svg(left: u8, right: u8, op: char) -> (r: String)
    ensures
        exists|n: Noise| noise_in_range(n) && r@ == captcha_svg(left, op, right, n),
{
    let mut buf = String::new();
    buf.append(
        "<svg xmlns=\"http://www.w3.org/2000/svg\" viewBox=\"0 0 160 40\" width=\"160\" height=\"40\">",
    );
    buf.append("<rect width=\"160\" height=\"40\" rx=\"4\" fill=\"#fafbfc\"/>");
    buf.append(
        "<line x1=\"53\" y1=\"2\" x2=\"53\" y2=\"40\" stroke=\"#e9ecef\" stroke-width=\"0.5\"/>",
    );
    buf.append(
        "<line x1=\"106\" y1=\"2\" x2=\"106\" y2=\"40\" stroke=\"#e9ecef\" stroke-width=\"0.5\"/>",
    );
    let ghost head = buf@;
    let lines = push_noise_lines(&mut buf);
    let faint = push_faint_lines(&mut buf);
    let dots = push_dots(&mut buf);
    let decoys = push_decoys(&mut buf);
    let expr = push_expression(&mut buf, left, op, right);
    buf.append(
        "<text x=\"130\" y=\"26\" font-size=\"18\" font-family=\"Courier,monospace\" font-weight=\"bold\" fill=\"#495057\" text-anchor=\"middle\">=</text>",
    );
    let blobs = push_blobs(&mut buf);
    let strokes = push_strokes(&mut buf);
    buf.append("</svg>");
    let ghost n = Noise {
        lines: lines@,
        faint_lines: faint@,
        dots: dots@,
        decoys: decoys@,
        glyphs: expr@.0,
        colors: expr@.1,
        blobs: blobs@,
        strokes: strokes@,
    };
    assert(head == svg_head());
    assert(noise_in_range(n));
    assert(buf@ == captcha_svg(left, op, right, n));
    buf
}

/// Generates a captcha (no side effects besides drawing randomness): two
/// operands in `1..=9` and an operator, the answer, and the rendered image
/// of `left op right =` whose expression is the one answered.
pub fn generate() -> (r: Captcha)
    ensures
        exists|left: u8, op: char, right: u8, n: Noise|
            well_formed_expression(left, op, right, r.answer) && noise_in_range(n) && r.svg@
                == captcha_svg(left, op, right, n),
        r.answer <= 18,
{
    let a = draw(1, 9) as u8;
    let b = draw(1, 9) as u8;
    let plus = draw_bool();
    let (left, op, right, answer) = expression(a, b, plus);
    let svg = render_svg(left, right, op);
    Captcha { svg, answer }
}

// ── The captcha image as a data URI ─────────────────────────────────────

/// The standard base64 alphabet's character for a 6-bit value.
pub open spec fn b64_digit(v: int) -> char {
    if v < 26 {
        (65 + v) as char
    } else if v < 52 {
        (97 + v - 26) as char
    } else if v < 62 {
        (48 + v - 52) as char
    } else if v == 62 {
        '+'
    } else {
        '/'
    }
}

/// Standard base64 with `=` padding (RFC 4648, section 4): each group of
/// three bytes becomes four characters, and a last group of one or two
/// bytes is padded to four.
pub open spec fn base64_of(b: Seq<u8>) -> Seq<char>
    decreases b.len(),
{
    let b0 = b[0] as int;
    let b1 = b[1] as int;
    let b2 = b[2] as int;
    if b.len() == 0 {
        Seq::<char>::empty()
    } else if b.len() == 1 {
        seq![b64_digit(b0 / 4), b64_digit((b0 % 4) * 16), '=', '=']
    } else if b.len() == 2 {
        seq![b64_digit(b0 / 4), b64_digit((b0 % 4) * 16 + b1 / 16), b64_digit((b1 % 16) * 4), '=']
    } else {
        seq![
            b64_digit(b0 / 4),
            b64_digit((b0 % 4) * 16 + b1 / 16),
            b64_digit((b1 % 16) * 4 + b2 / 64),
            b64_digit(b2 % 64),
        ] + base64_of(b.skip(3))
    }
}

/// Encodes bytes as standard, padded base64.
///
/// Calls `base64::engine::general_purpose::STANDARD.encode`, which uses the
/// `A-Z a-z 0-9 + /` alphabet and pads with `=`. It panics only when the
/// encoded length overflows `usize`, which the bound rules out.
#[verifier::external_body]
fn base64_standard(bytes: &[u8]) -> (r: String)
    requires
        bytes@.len() <= usize::MAX / 2,
    ensures
        r@ == base64_of(bytes@),
{
    base64::engine::general_purpose::STANDARD.encode(bytes)
}

/// The `src` of the captcha image: the SVG as a base64 `data:` URI.
pub fn captcha_image_src(svg: &str) -> (r: String)
    requires
        svg.spec_bytes().len() <= usize::MAX / 2,
    ensures
        r@ == "data:image/svg+xml;base64,"@ + base64_of(svg.spec_bytes()),
{
    let encoded = base64_standard(svg.as_bytes());
    crate::text::cat2("data:image/svg+xml;base64,", encoded.as_str())
}

} // verus!
