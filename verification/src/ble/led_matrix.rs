//! micro:bit V2 LED 5x5 matrix state (row scanning display).
//!
//! Lighting logic: row output high + column output low -> that LED lights up.
//! The refresh task scans rows; each row is lit for ~2ms, ~100Hz full frame refresh.
//!
//! The display frame uses the lower 25 bits of a `u32`: bit(row*5 + col) = 1 means lit.
use vstd::prelude::*;

verus! {

/// Number of LEDs in the matrix.
pub const LED_COUNT: usize = 25;

/// Capacity of the scroll text buffer (max 60 chars).
pub const SCROLL_CAPACITY: usize = 60;

/// Whether LED `i` is lit in a frame bitmap.
pub open spec fn led_on(frame: u32, i: u32) -> bool {
    (frame >> i) & 1u32 == 1u32
}

/// The bitmap with bit `i` set exactly for the first `n` bytes that are non-zero.
pub open spec fn lit_mask(bytes: Seq<u8>, n: nat) -> u32
    decreases n,
{
    if n == 0 {
        0
    } else if bytes[n - 1] != 0 {
        lit_mask(bytes, (n - 1) as nat) | (1u32 << ((n - 1) as u32))
    } else {
        lit_mask(bytes, (n - 1) as nat)
    }
}

/// Pack 5 rows (lower 5 bits each) into a 25-bit bitmap, row `i` at bits `5i..5i+5`.
pub open spec fn pack_rows(rows: Seq<u8>, n: nat) -> u32
    decreases n,
{
    if n == 0 {
        0
    } else {
        pack_rows(rows, (n - 1) as nat) | (((rows[n - 1] as u32) & 0x1Fu32) << (((n - 1)
            * 5) as u32))
    }
}

/// The rows of the 5x5 glyph shown for an ASCII byte (` ` is blank; bytes
/// without a glyph show a smiley face).
pub open spec fn glyph_rows(c: u8) -> Seq<u8> {
    if c == 0x30 {
        seq![0b01110u8, 0b10001, 0b10001, 0b10001, 0b01110]
    } else if c == 0x31 {
        seq![0b00100u8, 0b01100, 0b00100, 0b00100, 0b01110]
    } else if c == 0x32 {
        seq![0b01110u8, 0b10001, 0b00010, 0b00100, 0b11111]
    } else if c == 0x33 {
        seq![0b11110u8, 0b00001, 0b01110, 0b00001, 0b11110]
    } else if c == 0x34 {
        seq![0b00010u8, 0b00110, 0b01010, 0b11111, 0b00010]
    } else if c == 0x35 {
        seq![0b11111u8, 0b10000, 0b11110, 0b00001, 0b11110]
    } else if c == 0x36 {
        seq![0b00110u8, 0b01000, 0b11110, 0b10001, 0b01110]
    } else if c == 0x37 {
        seq![0b11111u8, 0b00001, 0b00010, 0b00100, 0b00100]
    } else if c == 0x38 {
        seq![0b01110u8, 0b10001, 0b01110, 0b10001, 0b01110]
    } else if c == 0x39 {
        seq![0b01110u8, 0b10001, 0b01111, 0b00010, 0b01100]
    } else if c == 0x41 || c == 0x61 {
        seq![0b01110u8, 0b10001, 0b11111, 0b10001, 0b10001]
    } else if c == 0x42 || c == 0x62 {
        seq![0b11110u8, 0b10001, 0b11110, 0b10001, 0b11110]
    } else if c == 0x43 || c == 0x63 {
        seq![0b01110u8, 0b10001, 0b10000, 0b10001, 0b01110]
    } else if c == 0x48 || c == 0x68 {
        seq![0b10001u8, 0b10001, 0b11111, 0b10001, 0b10001]
    } else if c == 0x49 || c == 0x69 {
        seq![0b01110u8, 0b00100, 0b00100, 0b00100, 0b01110]
    } else if c == 0x4F || c == 0x6F {
        seq![0b01110u8, 0b10001, 0b10001, 0b10001, 0b01110]
    } else if c == 0x21 {
        seq![0b00100u8, 0b00100, 0b00100, 0b00000, 0b00100]
    } else if c == 0x3F {
        seq![0b01110u8, 0b10001, 0b00110, 0b00000, 0b00100]
    } else if c == 0x20 {
        seq![0u8, 0, 0, 0, 0]
    } else {
        seq![0b00000u8, 0b01010, 0b00000, 0b10001, 0b01110]
    }
}

/// The bitmap shown for an ASCII byte.
pub open spec fn font_bitmap(c: u8) -> u32 {
    pack_rows(glyph_rows(c), 5)
}

/// Five rows of five pixels pack into the number with base-32 digits `rows`.
proof fn lemma_pack_rows_value(rows: Seq<u8>)
    requires
        rows.len() == 5,
        forall|i: int| 0 <= i < 5 ==> rows[i] < 32,
    ensures
        pack_rows(rows, 5) == rows[0] + 32 * rows[1] + 1024 * rows[2] + 32768 * rows[3] + 1048576
            * rows[4],
{
    reveal_with_fuel(pack_rows, 6);
    let r0 = rows[0] as u32;
    let r1 = rows[1] as u32;
    let r2 = rows[2] as u32;
    let r3 = rows[3] as u32;
    let r4 = rows[4] as u32;
    assert(0u32 | ((r0 & 0x1Fu32) << 0u32) | ((r1 & 0x1Fu32) << 5u32) | ((r2 & 0x1Fu32) << 10u32)
        | ((r3 & 0x1Fu32) << 15u32) | ((r4 & 0x1Fu32) << 20u32) == r0 + 32 * r1 + 1024 * r2
        + 32768 * r3 + 1048576 * r4) by (bit_vector)
        requires
            r0 < 32 && r1 < 32 && r2 < 32 && r3 < 32 && r4 < 32,
    ;
}

/// Whether a byte has a glyph of its own in the 5x5 font.
pub open spec fn has_glyph(c: u8) -> bool {
    (0x30 <= c <= 0x39) || c == 0x41 || c == 0x61 || c == 0x42 || c == 0x62 || c == 0x43 || c
        == 0x63 || c == 0x48 || c == 0x68 || c == 0x49 || c == 0x69 || c == 0x4F || c == 0x6F || c
        == 0x21 || c == 0x3F || c == 0x20
}

/// The 5x5 font, bit `r * 5 + k` being pixel `k` of row `r`: the digits `0`..`9`;
/// the letters A, B, C, H, I, O in either case; `!`, `?`; a blank space; and a
/// smiley face for every other byte. Distinct digits have distinct glyphs.
pub proof fn lemma_font_table(c: u8)
    ensures
        font_bitmap(0x30) == 0xE8C62Eu32,
        font_bitmap(0x31) == 0xE21184u32,
        font_bitmap(0x32) == 0x1F20A2Eu32,
        font_bitmap(0x33) == 0x1E0B83Eu32,
        font_bitmap(0x34) == 0x2FA8C2u32,
        font_bitmap(0x35) == 0x1E0FA1Fu32,
        font_bitmap(0x36) == 0xE8F906u32,
        font_bitmap(0x37) == 0x42083Fu32,
        font_bitmap(0x38) == 0xE8BA2Eu32,
        font_bitmap(0x39) == 0xC13E2Eu32,
        font_bitmap(0x41) == 0x118FE2Eu32 && font_bitmap(0x61) == 0x118FE2Eu32,
        font_bitmap(0x42) == 0x1E8FA3Eu32 && font_bitmap(0x62) == 0x1E8FA3Eu32,
        font_bitmap(0x43) == 0xE8C22Eu32 && font_bitmap(0x63) == 0xE8C22Eu32,
        font_bitmap(0x48) == 0x118FE31u32 && font_bitmap(0x68) == 0x118FE31u32,
        font_bitmap(0x49) == 0xE2108Eu32 && font_bitmap(0x69) == 0xE2108Eu32,
        font_bitmap(0x4F) == 0xE8C62Eu32 && font_bitmap(0x6F) == 0xE8C62Eu32,
        font_bitmap(0x21) == 0x401084u32,
        font_bitmap(0x3F) == 0x401A2Eu32,
        font_bitmap(0x20) == 0u32,
        !has_glyph(c) ==> font_bitmap(c) == 0xE88140u32,
        forall|a: u8, b: u8|
            0x30 <= a <= 0x39 && 0x30 <= b <= 0x39 && a != b ==> #[trigger] font_bitmap(a)
                != #[trigger] font_bitmap(b),
{
    lemma_pack_rows_value(seq![0b01110u8, 0b10001, 0b10001, 0b10001, 0b01110]);
    lemma_pack_rows_value(seq![0b00100u8, 0b01100, 0b00100, 0b00100, 0b01110]);
    lemma_pack_rows_value(seq![0b01110u8, 0b10001, 0b00010, 0b00100, 0b11111]);
    lemma_pack_rows_value(seq![0b11110u8, 0b00001, 0b01110, 0b00001, 0b11110]);
    lemma_pack_rows_value(seq![0b00010u8, 0b00110, 0b01010, 0b11111, 0b00010]);
    lemma_pack_rows_value(seq![0b11111u8, 0b10000, 0b11110, 0b00001, 0b11110]);
    lemma_pack_rows_value(seq![0b00110u8, 0b01000, 0b11110, 0b10001, 0b01110]);
    lemma_pack_rows_value(seq![0b11111u8, 0b00001, 0b00010, 0b00100, 0b00100]);
    lemma_pack_rows_value(seq![0b01110u8, 0b10001, 0b01110, 0b10001, 0b01110]);
    lemma_pack_rows_value(seq![0b01110u8, 0b10001, 0b01111, 0b00010, 0b01100]);
    lemma_pack_rows_value(seq![0b01110u8, 0b10001, 0b11111, 0b10001, 0b10001]);
    lemma_pack_rows_value(seq![0b11110u8, 0b10001, 0b11110, 0b10001, 0b11110]);
    lemma_pack_rows_value(seq![0b01110u8, 0b10001, 0b10000, 0b10001, 0b01110]);
    lemma_pack_rows_value(seq![0b10001u8, 0b10001, 0b11111, 0b10001, 0b10001]);
    lemma_pack_rows_value(seq![0b01110u8, 0b00100, 0b00100, 0b00100, 0b01110]);
    lemma_pack_rows_value(seq![0b00100u8, 0b00100, 0b00100, 0b00000, 0b00100]);
    lemma_pack_rows_value(seq![0b01110u8, 0b10001, 0b00110, 0b00000, 0b00100]);
    lemma_pack_rows_value(seq![0u8, 0, 0, 0, 0]);
    lemma_pack_rows_value(seq![0b00000u8, 0b01010, 0b00000, 0b10001, 0b01110]);
}

/// The abstract state of the LED matrix.
pub struct MatrixView {
    /// Binary display frame (bit `i` = LED `i`).
    pub frame: u32,
    /// When true, the refresh task uses per-LED brightness instead of `frame`.
    pub brightness_mode: bool,
    /// Per-LED brightness values (25 values, 0..255).
    pub brightness: Seq<u8>,
    /// The text queued for scrolling.
    pub scroll_text: Seq<u8>,
    /// A scroll request waits for the refresh task.
    pub scroll_requested: bool,
    /// The refresh task is scrolling text.
    pub scrolling: bool,
}

/// The LED matrix state shared by the command handler and the refresh task.
pub struct LedMatrix {
    frame: u32,
    brightness_mode: bool,
    brightness: [u8; 25],
    scroll_buf: [u8; 60],
    scroll_len: usize,
    scroll_requested: bool,
    scrolling: bool,
}

impl LedMatrix {
    #[verifier::type_invariant]
    spec fn inv(self) -> bool {
        self.scroll_len <= SCROLL_CAPACITY
    }

    pub closed spec fn view(self) -> MatrixView {
        MatrixView {
            frame: self.frame,
            brightness_mode: self.brightness_mode,
            brightness: self.brightness@,
            scroll_text: self.scroll_buf@.subrange(0, self.scroll_len as int),
            scroll_requested: self.scroll_requested,
            scrolling: self.scrolling,
        }
    }

    /// All LEDs off, binary mode, nothing to scroll.
    pub fn new() -> (m: Self)
        ensures
            m.view().frame == 0,
            !m.view().brightness_mode,
            m.view().brightness == Seq::new(25, |i: int| 0u8),
            m.view().scroll_text == Seq::<u8>::empty(),
            !m.view().scroll_requested,
            !m.view().scrolling,
    {
        let m = LedMatrix {
            frame: 0,
            brightness_mode: false,
            brightness: [0u8; 25],
            scroll_buf: [0u8; 60],
            scroll_len: 0,
            scroll_requested: false,
            scrolling: false,
        };
        assert(m.view().brightness =~= Seq::new(25, |i: int| 0u8));
        assert(m.view().scroll_text =~= Seq::<u8>::empty());
        m
    }
}

// ===== Effects of the display operations on the abstract state =====
/// `set_frame_from_bytes`: the first 25 bytes choose the lit LEDs; binary mode.
pub open spec fn matrix_set_frame(m: MatrixView, bytes: Seq<u8>) -> MatrixView {
    MatrixView {
        frame: lit_mask(bytes, if bytes.len() < 25 { bytes.len() } else { 25 }),
        brightness_mode: false,
        ..m
    }
}

/// `set_brightness_from_bytes`: the first 25 bytes replace the leading brightness
/// values; the frame lights exactly the LEDs with non-zero brightness; brightness mode.
pub open spec fn matrix_set_brightness(m: MatrixView, bytes: Seq<u8>) -> MatrixView {
    let n = if bytes.len() < 25 { bytes.len() as int } else { 25 };
    let b = bytes.subrange(0, n) + m.brightness.subrange(n, 25);
    MatrixView { brightness: b, frame: lit_mask(b, 25), brightness_mode: true, ..m }
}

/// `set_frame_bitmap`: the lower 25 bits of the bitmap; binary mode.
pub open spec fn matrix_set_bitmap(m: MatrixView, bitmap: u32) -> MatrixView {
    MatrixView { frame: bitmap & 0x01FF_FFFFu32, brightness_mode: false, ..m }
}

/// `clear_frame`: all LEDs off, all brightness values 0; binary mode.
pub open spec fn matrix_clear(m: MatrixView) -> MatrixView {
    MatrixView { frame: 0, brightness_mode: false, brightness: Seq::new(25, |i: int| 0u8), ..m }
}

/// `show_char`: the glyph of the byte; binary mode.
pub open spec fn matrix_show_char(m: MatrixView, c: u8) -> MatrixView {
    MatrixView { frame: font_bitmap(c), brightness_mode: false, ..m }
}

/// `scroll_text`: the first 60 bytes are queued and a scroll is requested.
pub open spec fn matrix_scroll(m: MatrixView, text: Seq<u8>) -> MatrixView {
    MatrixView {
        scroll_text: text.subrange(0, if text.len() < 60 { text.len() as int } else { 60 }),
        scroll_requested: true,
        ..m
    }
}

/// Setting bit `k` of a bitmap sets exactly LED `k`.
proof fn lemma_or_bit(f: u32, k: u32, i: u32)
    requires
        k < 32,
        i < 32,
    ensures
        led_on(f | (1u32 << k), i) <==> (led_on(f, i) || i == k),
{
    assert(((f | (1u32 << k)) >> i) & 1u32 == 1u32 <==> (((f >> i) & 1u32 == 1u32) || i == k))
        by (bit_vector)
        requires
            k < 32,
            i < 32,
    ;
}

/// LED `i` of `lit_mask(bytes, n)` is on exactly when `i < n` and byte `i` is non-zero.
pub proof fn lemma_lit_mask_bits(bytes: Seq<u8>, n: nat, i: u32)
    requires
        n <= 32,
        n <= bytes.len(),
        i < 32,
    ensures
        led_on(lit_mask(bytes, n), i) <==> (i < n && bytes[i as int] != 0),
    decreases n,
{
    if n == 0 {
        assert((0u32 >> i) & 1u32 != 1u32) by (bit_vector);
    } else {
        lemma_lit_mask_bits(bytes, (n - 1) as nat, i);
        if bytes[n - 1] != 0 {
            lemma_or_bit(lit_mask(bytes, (n - 1) as nat), (n - 1) as u32, i);
        }
    }
}

/// Build the bitmap of the first `n` bytes of `bytes`.
fn bitmap_of(bytes: &[u8], n: usize) -> (frame: u32)
    requires
        n <= 25,
        n <= bytes@.len(),
    ensures
        frame == lit_mask(bytes@, n as nat),
{
    let mut frame: u32 = 0;
    let mut i: usize = 0;
    while i < n
        invariant
            i <= n <= 25,
            n <= bytes@.len(),
            frame == lit_mask(bytes@, i as nat),
        decreases n - i,
    {
        if bytes[i] != 0 {
            frame = frame | (1u32 << (i as u32));
        }
        i += 1;
    }
    frame
}

/// Set entire frame display data (25 bytes, each byte 0=off, non-zero=on)
pub fn set_frame_from_bytes(m: &mut LedMatrix, bytes: &[u8])
    ensures
        final(m).view() == matrix_set_frame(old(m).view(), bytes@),
{
    proof {
        use_type_invariant(&*m);
    }
    let n = if bytes.len() < 25 {
        bytes.len()
    } else {
        25
    };
    let frame = bitmap_of(bytes, n);
    m.brightness_mode = false;
    m.frame = frame;
}

/// Set per-LED brightness values (25 bytes, each 0-255)
pub fn set_brightness_from_bytes(m: &mut LedMatrix, bytes: &[u8])
    ensures
        final(m).view() == matrix_set_brightness(old(m).view(), bytes@),
{
    let n = if bytes.len() < 25 {
        bytes.len()
    } else {
        25
    };
    proof {
        use_type_invariant(&*m);
    }
    let mut b = m.brightness;
    let ghost old_b = b@;
    let mut i: usize = 0;
    while i < n
        invariant
            i <= n <= 25,
            n <= bytes@.len(),
            b@ == bytes@.subrange(0, i as int) + old_b.subrange(i as int, 25),
            old_b.len() == 25,
        decreases n - i,
    {
        b[i] = bytes[i];
        i += 1;
        assert(b@ =~= bytes@.subrange(0, i as int) + old_b.subrange(i as int, 25));
    }
    // Also update the binary frame for compatibility
    let frame = bitmap_of(&b, 25);
    m.brightness = b;
    m.brightness_mode = true;
    m.frame = frame;
}

/// Set display frame directly with 25-bit bitmap
pub fn set_frame_bitmap(m: &mut LedMatrix, bitmap: u32)
    ensures
        final(m).view() == matrix_set_bitmap(old(m).view(), bitmap),
{
    proof {
        use_type_invariant(&*m);
    }
    m.brightness_mode = false;
    m.frame = bitmap & 0x01FF_FFFF;
}

/// Clear display
pub fn clear_frame(m: &mut LedMatrix)
    ensures
        final(m).view() == matrix_clear(old(m).view()),
{
    proof {
        use_type_invariant(&*m);
    }
    let mut b = m.brightness;
    let mut i: usize = 0;
    while i < 25
        invariant
            i <= 25,
            b@.len() == 25,
            forall|j: int| 0 <= j < i ==> b@[j] == 0,
        decreases 25 - i,
    {
        b[i] = 0;
        i += 1;
    }
    assert(b@ =~= Seq::new(25, |i: int| 0u8));
    m.brightness_mode = false;
    m.frame = 0;
    m.brightness = b;
}

/// Pack 5 rows (lower 5 bits each) into a 25-bit bitmap
fn pack(r: [u8; 5]) -> (v: u32)
    ensures
        v == pack_rows(r@, 5),
{
    let mut v: u32 = 0;
    let mut i: usize = 0;
    while i < 5
        invariant
            i <= 5,
            v == pack_rows(r@, i as nat),
        decreases 5 - i,
    {
        v = v | (((r[i] as u32) & 0x1F) << ((i * 5) as u32));
        i += 1;
    }
    v
}

/// Minimal 5x5 font table, covering ASCII digits, some letters and symbols;
/// returns a smiley pattern for other characters
pub fn font_5x5(c: u8) -> (bitmap: u32)
    ensures
        bitmap == font_bitmap(c),
{
    let rows: [u8; 5] = if c == 0x30 {
        [0b01110, 0b10001, 0b10001, 0b10001, 0b01110]
    } else if c == 0x31 {
        [0b00100, 0b01100, 0b00100, 0b00100, 0b01110]
    } else if c == 0x32 {
        [0b01110, 0b10001, 0b00010, 0b00100, 0b11111]
    } else if c == 0x33 {
        [0b11110, 0b00001, 0b01110, 0b00001, 0b11110]
    } else if c == 0x34 {
        [0b00010, 0b00110, 0b01010, 0b11111, 0b00010]
    } else if c == 0x35 {
        [0b11111, 0b10000, 0b11110, 0b00001, 0b11110]
    } else if c == 0x36 {
        [0b00110, 0b01000, 0b11110, 0b10001, 0b01110]
    } else if c == 0x37 {
        [0b11111, 0b00001, 0b00010, 0b00100, 0b00100]
    } else if c == 0x38 {
        [0b01110, 0b10001, 0b01110, 0b10001, 0b01110]
    } else if c == 0x39 {
        [0b01110, 0b10001, 0b01111, 0b00010, 0b01100]
    } else if c == 0x41 || c == 0x61 {
        [0b01110, 0b10001, 0b11111, 0b10001, 0b10001]
    } else if c == 0x42 || c == 0x62 {
        [0b11110, 0b10001, 0b11110, 0b10001, 0b11110]
    } else if c == 0x43 || c == 0x63 {
        [0b01110, 0b10001, 0b10000, 0b10001, 0b01110]
    } else if c == 0x48 || c == 0x68 {
        [0b10001, 0b10001, 0b11111, 0b10001, 0b10001]
    } else if c == 0x49 || c == 0x69 {
        [0b01110, 0b00100, 0b00100, 0b00100, 0b01110]
    } else if c == 0x4F || c == 0x6F {
        [0b01110, 0b10001, 0b10001, 0b10001, 0b01110]
    } else if c == 0x21 {
        [0b00100, 0b00100, 0b00100, 0b00000, 0b00100]
    } else if c == 0x3F {
        [0b01110, 0b10001, 0b00110, 0b00000, 0b00100]
    } else if c == 0x20 {
        [0, 0, 0, 0, 0]
    } else {
        // Default smiley face
        [0b00000, 0b01010, 0b00000, 0b10001, 0b01110]
    };
    assert(rows@ =~= glyph_rows(c));
    pack(rows)
}

/// Show a 5x5 character based on ASCII (supports a limited subset)
pub fn show_char(m: &mut LedMatrix, c: u8)
    ensures
        final(m).view() == matrix_show_char(old(m).view(), c),
{
    proof {
        use_type_invariant(&*m);
    }
    let bitmap = font_5x5(c);
    m.brightness_mode = false;
    m.frame = bitmap;
}

/// Start scrolling text on the LED matrix: the text (at most 60 bytes) is
/// queued and shown character by character by the refresh task.
pub fn scroll_text(m: &mut LedMatrix, text: &[u8])
    ensures
        final(m).view() == matrix_scroll(old(m).view(), text@),
{
    proof {
        use_type_invariant(&*m);
    }
    let len = if text.len() < 60 {
        text.len()
    } else {
        60
    };
    let mut buf = m.scroll_buf;
    let mut i: usize = 0;
    while i < len
        invariant
            i <= len <= 60,
            len <= text@.len(),
            buf@.len() == 60,
            forall|j: int| 0 <= j < i ==> buf@[j] == text@[j],
        decreases len - i,
    {
        buf[i] = text[i];
        i += 1;
    }
    m.scroll_buf = buf;
    m.scroll_len = len;
    m.scroll_requested = true;
    assert(m.view().scroll_text =~= text@.subrange(0, len as int));
}

/// Whether the display uses per-LED brightness (otherwise the binary frame)
pub fn is_brightness_mode(m: &LedMatrix) -> (b: bool)
    ensures
        b == m.view().brightness_mode,
{
    m.brightness_mode
}

/// Check if currently scrolling
pub fn is_scrolling(m: &LedMatrix) -> (b: bool)
    ensures
        b == m.view().scrolling,
{
    m.scrolling
}

// ===== Refresh task steps =====
/// Number of time slots per row in brightness mode (8 slots x 250us = 2ms per row).
pub const BRIGHTNESS_SLOTS: u8 = 8;

/// Length of one brightness time slot (us).
pub const SLOT_TIME_US: u64 = 250;

/// Time one row stays lit in binary mode (ms): 5 rows give about 100 Hz.
pub const ROW_TIME_MS: u64 = 2;

/// Full refresh cycles (about 10 ms each) a scrolled character is shown: ~500 ms.
pub const CHAR_REFRESH_CYCLES: u32 = 50;

/// Blank refresh cycles between two scrolled characters.
pub const BLANK_REFRESH_CYCLES: u32 = 5;

/// Whether the LED at (`row`, `col`) is driven during time slot `slot` of a row
/// scan: in brightness mode when its brightness exceeds `slot * 32`, in binary
/// mode when its frame bit is set.
pub open spec fn led_driven(m: MatrixView, row: int, col: int, slot: int) -> bool {
    if m.brightness_mode {
        m.brightness[row * 5 + col] > slot * 32
    } else {
        led_on(m.frame, (row * 5 + col) as u32)
    }
}

/// Whether the refresh task lights LED (`row`, `col`) in time slot `slot`
/// (the slot only matters in brightness mode).
pub fn led_lit(m: &LedMatrix, row: usize, col: usize, slot: u8) -> (lit: bool)
    requires
        row < 5,
        col < 5,
        slot < BRIGHTNESS_SLOTS,
    ensures
        lit == led_driven(m.view(), row as int, col as int, slot as int),
{
    let bit_idx = row * 5 + col;
    if m.brightness_mode {
        let threshold: u8 = slot * 32;
        m.brightness[bit_idx] > threshold
    } else {
        let f = m.frame;
        let k = bit_idx as u32;
        assert(f & (1u32 << k) != 0 <==> (f >> k) & 1u32 == 1u32) by (bit_vector)
            requires
                k < 32,
        ;
        f & (1u32 << k) != 0
    }
}

/// Take a pending scroll request: returns the queued text and marks the
/// matrix as scrolling, or `None` when no scroll was requested.
pub fn start_scroll(m: &mut LedMatrix) -> (text: Option<Vec<u8>>)
    ensures
        old(m).view().scroll_requested ==> (text matches Some(t) && t@
            == old(m).view().scroll_text),
        old(m).view().scroll_requested ==> final(m).view() == (MatrixView {
            scroll_requested: false,
            scrolling: true,
            ..old(m).view()
        }),
        !old(m).view().scroll_requested ==> text is None && final(m).view() == old(m).view(),
{
    proof {
        use_type_invariant(&*m);
    }
    if !m.scroll_requested {
        return None;
    }
    m.scroll_requested = false;
    m.scrolling = true;
    let mut t: Vec<u8> = Vec::new();
    let mut i: usize = 0;
    while i < m.scroll_len
        invariant
            i <= m.scroll_len <= SCROLL_CAPACITY,
            t@ == m.scroll_buf@.subrange(0, i as int),
        decreases m.scroll_len - i,
    {
        t.push(m.scroll_buf[i]);
        i += 1;
        assert(t@ =~= m.scroll_buf@.subrange(0, i as int));
    }
    Some(t)
}

/// Blank the display between two scrolled characters.
pub fn blank_frame(m: &mut LedMatrix)
    ensures
        final(m).view() == (MatrixView { frame: 0, ..old(m).view() }),
{
    proof {
        use_type_invariant(&*m);
    }
    m.frame = 0;
}

/// End a scroll: the display is blank and the matrix no longer scrolling.
pub fn finish_scroll(m: &mut LedMatrix)
    ensures
        final(m).view() == (MatrixView { frame: 0, scrolling: false, ..old(m).view() }),
{
    proof {
        use_type_invariant(&*m);
    }
    m.scrolling = false;
    m.frame = 0;
}

} // verus!
