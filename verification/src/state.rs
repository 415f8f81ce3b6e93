//! Coin bookkeeping and the status banner above the grid.

use vstd::prelude::*;

verus! {

use crate::render::{
    char_repeat,
    dec_digits,
    decimal_len,
    lemma_dec_digits_len,
    lemma_usize_below_pow10_20,
    repeat_char,
    reset_cursor_chars,
    usize_to_decimal,
    RefreshableComponent,
};

/// `s` padded on the left with spaces to at least three characters, the
/// field width the coin counter is rendered in.
pub open spec fn pad_left3(s: Seq<char>) -> Seq<char> {
    if s.len() >= 3 {
        s
    } else {
        char_repeat(' ', 3 - s.len()) + s
    }
}

/// Tracks how many coins have been collected out of how many the field
/// holds, and renders the fixed-width status banner.
#[derive(Debug)]
pub struct GameState {
    pub coins: usize,
    pub coin_target: usize,
    pub cols: u8,
}

impl GameState {
    /// The status line, e.g. `Phips-Game:   4/17 Coins`: the collected
    /// count right-aligned to three characters, then the target.
    pub open spec fn bar_chars(self) -> Seq<char> {
        "Phips-Game: "@ + pad_left3(dec_digits(self.coins as int)) + "/"@ + dec_digits(
            self.coin_target as int,
        ) + " Coins"@
    }

    /// Width of the banner's horizontal rules: the status line length,
    /// clamped to the field width.
    pub open spec fn width_spec(self) -> int {
        if self.bar_chars().len() <= self.cols {
            self.bar_chars().len() as int
        } else {
            self.cols as int
        }
    }

    /// The full banner: a horizontal rule, the status line, another rule.
    pub open spec fn banner_chars(self) -> Seq<char> {
        char_repeat('#', self.width_spec()) + "\n"@ + self.bar_chars() + "\n"@ + char_repeat(
            '#',
            self.width_spec(),
        )
    }

    /// The status line length, spelled out arithmetically.
    pub proof fn lemma_bar_len(self)
        ensures
            self.bar_chars().len() == 19 + (if dec_digits(self.coins as int).len() >= 3 {
                dec_digits(self.coins as int).len()
            } else {
                3
            }) + dec_digits(self.coin_target as int).len(),
    {
        reveal_strlit("Phips-Game: ");
        reveal_strlit("/");
        reveal_strlit(" Coins");
    }

    /// A fresh tracker: nothing collected yet.
    pub fn new(cols: u8, coin_target: usize) -> (s: GameState)
        ensures
            s.cols == cols,
            s.coin_target == coin_target,
            s.coins == 0,
    {
        GameState { cols, coins: 0, coin_target }
    }

    /// Renders the status line.
    pub fn get_bar_string(&self) -> (s: String)
        ensures
            s@ == self.bar_chars(),
    {
        let mut s = String::from_str("Phips-Game: ");
        let dl = decimal_len(self.coins);
        if dl < 3 {
            let sp = repeat_char(' ', 3 - dl);
            s.append(sp.as_str());
        }
        let cd = usize_to_decimal(self.coins);
        s.append(cd.as_str());
        s.append("/");
        let td = usize_to_decimal(self.coin_target);
        s.append(td.as_str());
        s.append(" Coins");
        proof {
            assert(s@ =~= self.bar_chars());
        }
        s
    }

    /// Width of the banner's horizontal rules.
    pub fn width(&self) -> (w: usize)
        ensures
            w as int == self.width_spec(),
            w <= 255,
    {
        proof {
            self.lemma_bar_len();
            lemma_usize_below_pow10_20(self.coins);
            lemma_dec_digits_len(self.coins as int, 20);
            lemma_usize_below_pow10_20(self.coin_target);
            lemma_dec_digits_len(self.coin_target as int, 20);
        }
        let dl = decimal_len(self.coins);
        let pad = if dl < 3 {
            3
        } else {
            dl
        };
        let tl = decimal_len(self.coin_target);
        let bar_len = 19 + pad + tl;
        let cols = self.cols as usize;
        if bar_len <= cols {
            bar_len
        } else {
            cols
        }
    }

    /// Renders the full banner.
    pub fn get_gamestate_string(&self) -> (s: String)
        ensures
            s@ == self.banner_chars(),
    {
        let stat_bar = self.get_bar_string();
        let len = self.width();
        let mut s = String::new();
        let rule = repeat_char('#', len);
        s.append(rule.as_str());
        s.append("\n");
        s.append(stat_bar.as_str());
        s.append("\n");
        s.append(rule.as_str());
        proof {
            assert(s@ =~= self.banner_chars());
        }
        s
    }

    /// Records one collected coin.
    pub fn coins_inc(&mut self)
        requires
            old(self).coins < usize::MAX,
        ensures
            final(self).coins == old(self).coins + 1,
            final(self).coin_target == old(self).coin_target,
            final(self).cols == old(self).cols,
    {
        self.coins = self.coins + 1;
    }

    /// Getter for [`Self::coins`].
    pub fn coins(&self) -> (c: usize)
        ensures
            c == self.coins,
    {
        self.coins
    }

    /// Whether every coin has been collected.
    pub fn won(&self) -> (w: bool)
        ensures
            w == (self.coins == self.coin_target),
    {
        self.coins == self.coin_target
    }
}

impl RefreshableComponent for GameState {
    open spec fn render_wf(&self) -> bool {
        true
    }

    open spec fn render_chars(&self) -> Seq<char> {
        self.banner_chars() + "\n"@
    }

    open spec fn cols_offset(&self) -> int {
        self.width_spec()
    }

    open spec fn rows_offset(&self) -> int {
        3
    }

    fn after_print_cols_offset(&self) -> (n: u16)
        ensures
            n as int == self.cols_offset(),
    {
        self.width() as u16
    }

    fn after_print_rows_offset(&self) -> (n: u16)
        ensures
            n as int == self.rows_offset(),
    {
        3
    }

    fn print(&self) -> (out: String)
        ensures
            out@ == self.render_chars(),
    {
        let mut out = self.get_gamestate_string();
        out.append("\n");
        out
    }
}

} // verus!
