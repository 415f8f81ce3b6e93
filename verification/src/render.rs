//! The incremental redraw protocol.
//!
//! Every printable component reports the cursor displacement its output
//! causes and can emit a cursor-reset escape sequence that undoes it, so
//! that the next paint overdraws the previous one in place instead of
//! scrolling. Output is modelled byte-exactly as the character sequence a
//! terminal receives, including the ANSI `CSI n D` (cursor left) and
//! `CSI n A` (cursor up) escapes.

use vstd::prelude::*;

verus! {

/// Relies on `String::push`: appends one character at the end.
#[verifier::external_body]
pub fn push_char(s: &mut String, c: char)
    ensures
        final(s)@ == old(s)@.push(c),
{
    s.push(c)
}

/// The character for a single decimal digit.
pub open spec fn dec_digit_char(d: int) -> char {
    if d == 0 {
        '0'
    } else if d == 1 {
        '1'
    } else if d == 2 {
        '2'
    } else if d == 3 {
        '3'
    } else if d == 4 {
        '4'
    } else if d == 5 {
        '5'
    } else if d == 6 {
        '6'
    } else if d == 7 {
        '7'
    } else if d == 8 {
        '8'
    } else {
        '9'
    }
}

/// The usual decimal rendering of `n`, most significant digit first, with
/// no sign and no leading zeroes (a single `'0'` for zero).
pub open spec fn dec_digits(n: int) -> Seq<char>
    decreases n,
{
    if n < 10 {
        seq![dec_digit_char(n)]
    } else {
        dec_digits(n / 10).push(dec_digit_char(n % 10))
    }
}

/// Ten to the `k`-th power.
pub open spec fn pow10(k: nat) -> int
    decreases k,
{
    if k == 0 {
        1
    } else {
        10 * pow10((k - 1) as nat)
    }
}

/// A number below `pow10(k)` has at most `k` digits.
pub proof fn lemma_dec_digits_len(n: int, k: nat)
    requires
        0 <= n < pow10(k),
        k >= 1,
    ensures
        1 <= dec_digits(n).len() <= k,
    decreases k,
{
    if n >= 10 {
        assert(pow10(k) == 10 * pow10((k - 1) as nat));
        assert(n / 10 < pow10((k - 1) as nat)) by (nonlinear_arith)
            requires
                n < 10 * pow10((k - 1) as nat),
                n >= 10,
        ;
        lemma_dec_digits_len(n / 10, (k - 1) as nat);
    }
}

/// Every `usize` value stays below ten to the twentieth.
pub proof fn lemma_usize_below_pow10_20(n: usize)
    ensures
        n < pow10(20),
{
    assert(pow10(20) == 0x56BC75E2D63100000) by {
        reveal_with_fuel(pow10, 21);
    }
}

/// The digit character, executably.
fn digit_to_char(d: usize) -> (c: char)
    requires
        d < 10,
    ensures
        c == dec_digit_char(d as int),
{
    if d == 0 {
        '0'
    } else if d == 1 {
        '1'
    } else if d == 2 {
        '2'
    } else if d == 3 {
        '3'
    } else if d == 4 {
        '4'
    } else if d == 5 {
        '5'
    } else if d == 6 {
        '6'
    } else if d == 7 {
        '7'
    } else if d == 8 {
        '8'
    } else {
        '9'
    }
}

/// Renders `n` in decimal.
pub fn usize_to_decimal(n: usize) -> (s: String)
    ensures
        s@ == dec_digits(n as int),
    decreases n,
{
    if n < 10 {
        let mut s = String::new();
        push_char(&mut s, digit_to_char(n));
        s
    } else {
        let mut s = usize_to_decimal(n / 10);
        push_char(&mut s, digit_to_char(n % 10));
        s
    }
}

/// Number of digits `n` renders to.
pub fn decimal_len(n: usize) -> (l: usize)
    ensures
        l == dec_digits(n as int).len(),
    decreases n,
{
    proof {
        lemma_usize_below_pow10_20(n);
        lemma_dec_digits_len(n as int, 20);
    }
    if n < 10 {
        1
    } else {
        let rest = decimal_len(n / 10);
        rest + 1
    }
}

/// `n` copies of the character `c`.
pub open spec fn char_repeat(c: char, n: int) -> Seq<char> {
    Seq::new(if n >= 0 {
        n as nat
    } else {
        0
    }, |i: int| c)
}

/// A string of `n` copies of `c`.
pub fn repeat_char(c: char, n: usize) -> (s: String)
    ensures
        s@ == char_repeat(c, n as int),
{
    let mut s = String::new();
    let mut i: usize = 0;
    while i < n
        invariant
            i <= n,
            s@ == char_repeat(c, i as int),
        decreases n - i,
    {
        push_char(&mut s, c);
        proof {
            assert(s@ =~= char_repeat(c, i + 1));
        }
        i = i + 1;
    }
    s
}

/// The bytes that move the cursor `cols` cells left and then `rows` lines
/// up: the ANSI escapes `CSI cols D` and `CSI rows A`.
pub open spec fn reset_cursor_chars(cols: int, rows: int) -> Seq<char> {
    "\u{1b}["@ + dec_digits(cols) + "D"@ + "\u{1b}["@ + dec_digits(rows) + "A"@
}

/// Builds the cursor-reset escape sequence for the given displacement.
pub fn cursor_reset_string(cols: u16, rows: u16) -> (s: String)
    ensures
        s@ == reset_cursor_chars(cols as int, rows as int),
{
    let mut s = String::from_str("\u{1b}[");
    let cd = usize_to_decimal(cols as usize);
    s.append(cd.as_str());
    s.append("D");
    s.append("\u{1b}[");
    let rd = usize_to_decimal(rows as usize);
    s.append(rd.as_str());
    s.append("A");
    proof {
        assert(s@ =~= reset_cursor_chars(cols as int, rows as int));
    }
    s
}

/// A printable component of the refresh cycle. Each implementer renders
/// itself as the exact character sequence sent to the terminal and reports
/// the net cursor displacement that output causes, so a caller can undo it
/// before the next paint.
pub trait RefreshableComponent {
    /// What the component asks of itself before it renders; implementers
    /// with an internal invariant name it here.
    spec fn render_wf(&self) -> bool;

    /// The characters `print` emits.
    spec fn render_chars(&self) -> Seq<char>;

    /// Net displacement of the cursor to the right after `print`.
    spec fn cols_offset(&self) -> int;

    /// Net displacement of the cursor downwards after `print`.
    spec fn rows_offset(&self) -> int;

    /// The offset, in columns, the cursor must be moved back left after a
    /// paint.
    fn after_print_cols_offset(&self) -> (n: u16)
        requires
            self.render_wf(),
        ensures
            n as int == self.cols_offset(),
    ;

    /// The offset, in rows, the cursor must be moved back up after a
    /// paint.
    fn after_print_rows_offset(&self) -> (n: u16)
        requires
            self.render_wf(),
        ensures
            n as int == self.rows_offset(),
    ;

    /// Renders the component, starting at the current cursor position.
    fn print(&self) -> (out: String)
        requires
            self.render_wf(),
        ensures
            out@ == self.render_chars(),
    ;

    /// The escape sequence that undoes the cursor displacement of `print`,
    /// so the next paint starts where the previous one did.
    fn reset_cursor(&self) -> (out: String)
        requires
            self.render_wf(),
        ensures
            out@ == reset_cursor_chars(self.cols_offset(), self.rows_offset()),
    {
        cursor_reset_string(self.after_print_cols_offset(), self.after_print_rows_offset())
    }
}

} // verus!
