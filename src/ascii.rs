use vstd::prelude::*;

use crate::frame::Image;

verus! {

/// The characters that stand for intensities, from darkest to lightest.
pub const RAMP: &'static str = "@#S%?*+;:, ";

/// Clears the terminal and moves the cursor to its top left corner.
pub const CLEAR_SCREEN: &'static str = "\x1B[2J\x1B[1;1H";

/// Number of symbols in the ramp.
pub const RAMP_LEN: usize = 11;

/// How wide a band of intensities each symbol covers.
pub const BAND_WIDTH: u8 = 25;

/// The ramp as a sequence of characters.
pub open spec fn ramp() -> Seq<char> {
    seq!['@', '#', 'S', '%', '?', '*', '+', ';', ':', ',', ' ']
}

/// Position in the ramp of the symbol for intensity `p`: its band, clamped
/// to the last symbol.
pub open spec fn symbol_index(p: u8) -> int {
    let band = p as int / BAND_WIDTH as int;
    if band > RAMP_LEN - 1 {
        RAMP_LEN - 1
    } else {
        band
    }
}

/// Every intensity has a symbol of the ramp: intensity 0 the first
/// (darkest), intensity 255 the last, and a brighter pixel never a darker
/// symbol than a dimmer one.
pub proof fn lemma_ramp_order(a: u8, b: u8)
    requires
        a <= b,
    ensures
        0 <= symbol_index(a) < ramp().len(),
        symbol_index(a) <= symbol_index(b),
        symbol_index(0) == 0,
        symbol_index(255) == ramp().len() - 1,
{
}

proof fn lemma_ramp_literal()
    ensures
        RAMP@ == ramp(),
        RAMP.is_ascii(),
{
    reveal_strlit("@#S%?*+;:, ");
    assert(RAMP@ =~= ramp());
}

/// Text of row `row` of a `width`-wide grayscale buffer: one symbol per pixel.
pub open spec fn row_text(data: Seq<u8>, width: nat, row: nat) -> Seq<char> {
    Seq::new(width, |e: int| ramp()[symbol_index(data[row * width + e])])
}

/// Text of the first `rows` rows, each followed by a line break.
pub open spec fn frame_text(data: Seq<u8>, width: nat, rows: nat) -> Seq<char>
    decreases rows,
{
    if rows == 0 {
        Seq::empty()
    } else {
        frame_text(data, width, (rows - 1) as nat) + row_text(data, width, (rows - 1) as nat).push(
            '\n',
        )
    }
}

fn symbol_position(pixel: u8) -> (k: usize)
    ensures
        k == symbol_index(pixel),
        k < RAMP_LEN,
{
    let band: usize = (pixel / BAND_WIDTH) as usize;
    if band > RAMP_LEN - 1 {
        RAMP_LEN - 1
    } else {
        band
    }
}

/// Converts a single pixel intensity to its ramp symbol.
pub fn convert_pixel(pixel: u8) -> (c: char)
    ensures
        c == ramp()[symbol_index(pixel)],
{
    proof {
        lemma_ramp_literal();
    }
    RAMP.get_char(symbol_position(pixel))
}

/// Converts an image to its lines of ASCII art, one line for each row.
pub fn convert_image_to_ascii_line(img: &Image) -> (lines: Vec<String>)
    requires
        img.wf(),
    ensures
        lines@.len() == img.height,
        forall|i: int|
            0 <= i < img.height ==> #[trigger] lines@[i]@ == row_text(
                img.data@,
                img.width as nat,
                i as nat,
            ),
{
    let ghost w = img.width as nat;
    let len: usize = img.data.len();
    let mut res: Vec<String> = Vec::new();
    let mut i: u32 = 0;
    while i < img.height
        invariant
            img.wf(),
            w == img.width,
            len == img.data@.len(),
            i <= img.height,
            res@.len() == i,
            forall|k: int| 0 <= k < i ==> #[trigger] res@[k]@ == row_text(img.data@, w, k as nat),
        decreases img.height - i,
    {
        let mut line: String = String::new();
        let mut e: u32 = 0;
        while e < img.width
            invariant
                img.wf(),
                w == img.width,
                len == img.data@.len(),
                i < img.height,
                e <= img.width,
                line@ =~= row_text(img.data@, w, i as nat).take(e as int),
            decreases img.width - e,
        {
            proof {
                lemma_ramp_literal();
                let (ii, ee, ww, hh) = (i as int, e as int, w as int, img.height as int);
                assert(ii * ww + ee < hh * ww) by (nonlinear_arith)
                    requires
                        0 <= ii < hh,
                        0 <= ee < ww,
                ;
                assert(0 <= ii * ww) by (nonlinear_arith)
                    requires
                        0 <= ii,
                        0 <= ww,
                ;
            }
            let idx: usize = i as usize * img.width as usize + e as usize;
            let k: usize = symbol_position(img.data[idx]);
            line.append(RAMP.substring_ascii(k, k + 1));
            proof {
                assert(row_text(img.data@, w, i as nat).take(e + 1) =~= row_text(
                    img.data@,
                    w,
                    i as nat,
                ).take(e as int).push(ramp()[k as int]));
            }
            e = e + 1;
        }
        res.push(line);
        i = i + 1;
    }
    res
}

impl Image {
    /// The whole frame as ASCII art: every row followed by a line break.
    pub fn to_ascii(&self) -> (text: String)
        requires
            self.wf(),
        ensures
            text@ == frame_text(self.data@, self.width as nat, self.height as nat),
    {
        let lines: Vec<String> = convert_image_to_ascii_line(self);
        let mut frame: String = String::new();
        let mut i: usize = 0;
        while i < lines.len()
            invariant
                lines@.len() == self.height,
                i <= lines.len(),
                forall|k: int|
                    0 <= k < self.height ==> #[trigger] lines@[k]@ == row_text(
                        self.data@,
                        self.width as nat,
                        k as nat,
                    ),
                frame@ == frame_text(self.data@, self.width as nat, i as nat),
            decreases lines.len() - i,
        {
            frame.append(lines[i].as_str());
            frame.append("\n");
            proof {
                reveal_strlit("\n");
            }
            i = i + 1;
        }
        frame
    }

    /// What the terminal is sent to show this frame: the clear sequence,
    /// the frame's text and a closing line break.
    pub fn screen(&self) -> (out: String)
        requires
            self.wf(),
        ensures
            out@ == CLEAR_SCREEN@ + frame_text(self.data@, self.width as nat, self.height as nat)
                + seq!['\n'],
    {
        let mut out: String = String::from_str(CLEAR_SCREEN);
        let text: String = self.to_ascii();
        out.append(text.as_str());
        out.append("\n");
        proof {
            reveal_strlit("\n");
        }
        out
    }
}

} // verus!
